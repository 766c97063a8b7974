use devflow_tui::action::{Action, Direction};
use devflow_tui::event::AppEvent;
use devflow_tui::ui::header::{hooks_banner, phase_banner, status_hints};
use devflow_tui::ui::help_overlay::{help_lines, HELP_HEIGHT_PCT, HELP_WIDTH_PCT};
use devflow_tui::ui::layout::{centered_rect, Area, LayoutManager, LayoutMode, PanelAreas};
use devflow_tui::ui::theme::{panel_title, Icons};

#[test]
fn test_layout_mode_too_small() {
    let lm = LayoutManager::new(79, 23);
    assert_eq!(lm.mode(), LayoutMode::TooSmall);
}

#[test]
fn test_layout_mode_compact() {
    let lm = LayoutManager::new(100, 25);
    assert_eq!(lm.mode(), LayoutMode::Compact);
}

#[test]
fn test_layout_mode_standard() {
    let lm = LayoutManager::new(150, 40);
    assert_eq!(lm.mode(), LayoutMode::Standard);
}

#[test]
fn test_layout_mode_wide() {
    let lm = LayoutManager::new(220, 60);
    assert_eq!(lm.mode(), LayoutMode::Wide);
}

#[test]
fn test_resize() {
    let mut lm = LayoutManager::new(80, 24);
    assert_eq!(lm.mode(), LayoutMode::Compact);
    lm.on_resize(200, 50);
    assert_eq!(lm.mode(), LayoutMode::Wide);
}

#[test]
fn test_layout_mode_boundaries() {
    assert_eq!(LayoutManager::new(80, 23).mode(), LayoutMode::TooSmall);
    assert_eq!(LayoutManager::new(80, 24).mode(), LayoutMode::Compact);
    assert_eq!(LayoutManager::new(119, 49).mode(), LayoutMode::Compact);
    assert_eq!(LayoutManager::new(120, 30).mode(), LayoutMode::Standard);
    assert_eq!(LayoutManager::new(300, 49).mode(), LayoutMode::Standard);
    assert_eq!(LayoutManager::new(200, 50).mode(), LayoutMode::Wide);
}

#[test]
fn test_panel_title_focused() {
    assert_eq!(panel_title("Git Status", true), "[ Git Status ]");
}

#[test]
fn test_panel_title_unfocused() {
    assert_eq!(panel_title("Git Status", false), "  Git Status  ");
}

#[test]
fn test_icons() {
    assert_eq!(Icons::active(), "●");
    assert_eq!(Icons::deferred(), "◇");
    assert_eq!(Icons::conflict(), "C!");
}

#[test]
fn test_action_name() {
    assert_eq!(Action::FocusNextPanel.name(), "focus_next_panel");
    assert_eq!(Action::Quit.name(), "quit");
    assert_eq!(Action::CopyToClipboard("x".into()).name(), "copy_to_clipboard");
    assert_eq!(Action::FocusDirection(Direction::Up).name(), "focus_direction");
}

#[test]
fn test_action_is_async() {
    assert!(Action::Refresh.is_async());
    assert!(Action::CopyToClipboard("x".into()).is_async());
    assert!(!Action::Quit.is_async());
    assert!(!Action::ScrollUp.is_async());
}

#[test]
fn test_event_debug() {
    let event = AppEvent::AgentStarted {
        agent_id: "abc".to_string(),
        agent_type: "Explore".to_string(),
    };
    let debug = format!("{event:?}");
    assert!(debug.contains("AgentStarted"));
    assert!(debug.contains("abc"));
}

#[test]
fn test_event_hooks_failed_debug() {
    let event = AppEvent::HooksServerFailed {
        reason: "port in use".to_string(),
    };
    let debug = format!("{event:?}");
    assert!(debug.contains("HooksServerFailed"));
}

#[test]
fn header_banners() {
    assert_eq!(phase_banner("INCEPTION"), " Phase: INCEPTION ");
    assert_eq!(hooks_banner(false, Some(9464)), " Hooks: ○ ");
    assert_eq!(hooks_banner(true, Some(9464)), " Hooks: ● 9464 ");
    assert_eq!(hooks_banner(true, None), " Hooks: ● ");
}

#[test]
fn status_hints_direction_keys_only_when_wide() {
    let narrow = status_hints(false);
    let wide = status_hints(true);
    assert_eq!(narrow.len(), 7);
    assert_eq!(wide.len(), 8);
    assert_eq!(narrow[0], ("Tab", "패널"));
    assert_eq!(wide[1], ("C-hjkl", "방향"));
    assert!(!narrow.iter().any(|(k, _)| *k == "C-hjkl"));
    assert_eq!(narrow.last(), Some(&("q", "종료")));
}

fn area(x: u16, y: u16, width: u16, height: u16) -> Area {
    Area { x, y, width, height }
}

#[test]
fn screen_areas_header_body_status() {
    let lm = LayoutManager::new(120, 30);
    let a = lm.areas(area(0, 0, 120, 30));
    assert_eq!(a.header, area(0, 0, 120, 1));
    assert_eq!(a.body, area(0, 1, 120, 28));
    assert_eq!(a.status_bar, area(0, 29, 120, 1));
}

#[test]
fn panel_areas_follow_mode() {
    let body = area(0, 1, 120, 28);
    match LayoutManager::new(100, 24).panel_areas(body) {
        PanelAreas::Compact { panel } => assert_eq!(panel, body),
        other => panic!("expected compact, got {other:?}"),
    }
    match LayoutManager::new(60, 20).panel_areas(body) {
        PanelAreas::TooSmall { message } => assert_eq!(message, body),
        other => panic!("expected too small, got {other:?}"),
    }
    match LayoutManager::new(120, 30).panel_areas(body) {
        PanelAreas::Standard { workflow_map, git_status, agent_status, audit_log } => {
            assert_eq!(workflow_map, area(0, 1, 48, 28));
            assert_eq!(git_status, area(48, 1, 72, 14));
            assert_eq!(agent_status.y, 15);
            assert_eq!(audit_log.y, 15);
            assert_eq!(agent_status.width + audit_log.width, 72);
            assert_eq!(audit_log.x, agent_status.x + agent_status.width);
        }
        other => panic!("expected standard, got {other:?}"),
    }
    let wide_body = area(0, 1, 200, 48);
    match LayoutManager::new(200, 50).panel_areas(wide_body) {
        PanelAreas::Wide { workflow_map, git_status, artifacts, agent_status, audit_log, gate_alert } => {
            assert_eq!(workflow_map.height, 24);
            assert_eq!(agent_status.y, 25);
            assert_eq!(workflow_map.width + git_status.width + artifacts.width, 200);
            assert_eq!(agent_status.width + audit_log.width + gate_alert.width, 200);
            assert_eq!(gate_alert.x + gate_alert.width, 200);
        }
        other => panic!("expected wide, got {other:?}"),
    }
}

#[test]
fn centered_rect_takes_the_middle() {
    assert_eq!(centered_rect(60, 70, area(0, 0, 100, 100)), area(20, 15, 60, 70));
    assert_eq!(centered_rect(150, 100, area(0, 0, 40, 10)), area(0, 0, 40, 10));
}

#[test]
fn test_areas_has_three_sections() {
    let lm = LayoutManager::new(120, 30);
    let areas = lm.areas(area(0, 0, 120, 30));
    assert_eq!(areas.header.height, 1);
    assert_eq!(areas.status_bar.height, 1);
    assert!(areas.body.height > 0);
}

#[test]
fn test_standard_panels() {
    let lm = LayoutManager::new(120, 30);
    let areas = lm.areas(area(0, 0, 120, 30));
    let panels = lm.panel_areas(areas.body);
    assert!(matches!(panels, PanelAreas::Standard { .. }));
}

#[test]
fn test_wide_panels() {
    let lm = LayoutManager::new(200, 50);
    let areas = lm.areas(area(0, 0, 200, 50));
    let panels = lm.panel_areas(areas.body);
    assert!(matches!(panels, PanelAreas::Wide { .. }));
}

#[test]
fn test_centered_rect() {
    let a = area(0, 0, 100, 50);
    let center = centered_rect(80, 60, a);
    assert!(center.x > 0);
    assert!(center.y > 0);
    assert!(center.width < 100);
    assert!(center.height < 50);
}

fn to_rect(a: Area) -> ratatui::layout::Rect {
    ratatui::layout::Rect::new(a.x, a.y, a.width, a.height)
}

fn to_area(r: ratatui::layout::Rect) -> Area {
    area(r.x, r.y, r.width, r.height)
}

fn buffer_contains_str(buf: &ratatui::buffer::Buffer, needle: &str) -> bool {
    let area = buf.area;
    (area.y..area.y + area.height).any(|y| {
        let row: String = (area.x..area.x + area.width).map(|x| buf[(x, y)].symbol().to_string()).collect();
        row.contains(needle)
    })
}

#[test]
fn render_areas_non_overlapping() {
    let mut terminal = ratatui::Terminal::new(ratatui::backend::TestBackend::new(120, 30)).unwrap();
    terminal
        .draw(|frame| {
            let full = frame.area();
            let lm = LayoutManager::new(full.width, full.height);
            let areas = lm.areas(to_area(full));
            assert!(areas.header.y + areas.header.height <= areas.body.y);
            assert!(areas.body.y + areas.body.height <= areas.status_bar.y);
            frame.render_widget(ratatui::widgets::Block::bordered(), to_rect(areas.body));
        })
        .unwrap();
}

#[test]
fn render_centered_rect_position() {
    let mut terminal = ratatui::Terminal::new(ratatui::backend::TestBackend::new(100, 50)).unwrap();
    terminal
        .draw(|frame| {
            let full = to_area(frame.area());
            let center = centered_rect(60, 60, full);
            assert!(center.x >= full.x);
            assert!(center.y >= full.y);
            assert!(center.x + center.width <= full.x + full.width);
            assert!(center.y + center.height <= full.y + full.height);
            let block = ratatui::widgets::Block::bordered().title("Modal");
            frame.render_widget(ratatui::widgets::Clear, to_rect(center));
            frame.render_widget(block, to_rect(center));
        })
        .unwrap();
    assert!(buffer_contains_str(terminal.backend().buffer(), "Modal"));
}

#[test]
fn render_too_small_mode_uses_full_body() {
    let lm = LayoutManager::new(60, 20);
    let areas = lm.areas(area(0, 0, 60, 20));
    let panels = lm.panel_areas(areas.body);
    match panels {
        PanelAreas::TooSmall { message } => {
            assert_eq!(message, areas.body);
        }
        _ => panic!("Expected TooSmall layout"),
    }
}

#[test]
fn test_areas_at_far_edge_are_shortened() {
    let lm = LayoutManager::new(120, 30);
    let a = lm.areas(area(65530, 0, 10, 5));
    assert_eq!(a.header.x, 65530);
    assert_eq!(a.header.width, 5);
    assert_eq!(a.body.width, 5);
    assert_eq!(a.status_bar.width, 5);
}

#[test]
fn help_overlay_lines() {
    let lines = help_lines();
    assert_eq!(lines.len(), 13);
    assert_eq!(lines[0][0].text, "  Keyboard Shortcuts");
    assert!(lines.iter().any(|l| l.iter().any(|s| s.text.contains("Tab / Shift+Tab"))));
    assert_eq!(lines[12][0].text, "  Press ? or Esc to close");
    let r = centered_rect(HELP_WIDTH_PCT, HELP_HEIGHT_PCT, area(0, 0, 100, 50));
    assert!(r.x > 0 && r.y > 0 && r.width < 100 && r.height < 50);
}
