//! The dashboard's state machine: input modes, panel focus, key dispatch,
//! event broadcast to the panels, and the hooks set-up state. What it asks
//! the application to do (run a command, check the hooks configuration) is
//! returned, not done.

use vstd::prelude::*;

use crate::action::{Action, Direction};
use crate::event::AppEvent;
use crate::input::{KeyCode, KeyEvent};
use crate::panel::agent_status::{agent_on_event, agent_on_key, AgentStatusPanel, AgentStatusV, mark_timeouts};
use crate::panel::audit_log::{audit_on_event, audit_on_key, clamp_cap, AuditLogPanel, AuditLogV};
use crate::panel::gate_alert::{gate_on_event, gate_on_key, GateAlertPanel, GateAlertV};
use crate::panel::git_status::{clamp_selected, git_on_event, git_on_key, GitStatusPanel, GitStatusV};
use crate::panel::workflow_map::{workflow_on_event, workflow_on_key, WorkflowMapPanel, WorkflowMapV};
use crate::parser::models::{
    default_flow_state, default_git_snapshot, default_session_summary, phase_label, FlowState, GitSnapshot,
};
use crate::service::hook_config::{generate_hooks_snippet, hooks_snippet, HookConfigStatus};
use crate::text::{chars_of, owned, push_all, push_str, string_of};
use crate::ui::layout::{mode_for, LayoutManager, LayoutMode};

verus! {

#[derive(Debug, Clone, Copy, PartialEq, Eq, Structural)]
pub enum FocusPane {
    WorkflowMap,
    GitStatus,
    AgentStatus,
    AuditLog,
    GateAlert,
}

#[derive(Debug, Clone, Copy, PartialEq, Eq, Structural)]
pub enum InputMode {
    Normal,
    Expanded,
    HelpOverlay,
}

/// What is known of the hooks configuration.
#[derive(Debug, Clone)]
pub enum HookSetupState {
    Unknown,
    Configured,
    NotConfigured { snippet: String },
    Mismatch { detail: String },
}

pub ghost enum HookSetupV {
    Unknown,
    Configured,
    NotConfigured(Seq<char>),
    Mismatch(Seq<char>),
}

impl View for HookSetupState {
    type V = HookSetupV;

    open spec fn view(&self) -> HookSetupV {
        match self {
            HookSetupState::Unknown => HookSetupV::Unknown,
            HookSetupState::Configured => HookSetupV::Configured,
            HookSetupState::NotConfigured { snippet } => HookSetupV::NotConfigured(snippet@),
            HookSetupState::Mismatch { detail } => HookSetupV::Mismatch(detail@),
        }
    }
}

/// A command for the background runner.
pub ghost enum CommandV {
    Refresh,
    CopyToClipboard(Seq<char>),
}

pub open spec fn command_view(a: Option<Action>) -> Option<CommandV> {
    match a {
        Some(Action::Refresh) => Some(CommandV::Refresh),
        Some(Action::CopyToClipboard(t)) => Some(CommandV::CopyToClipboard(t@)),
        _ => None,
    }
}

pub struct App {
    pub should_quit: bool,
    pub input_mode: InputMode,
    pub focus: FocusPane,
    pub workflow_map: WorkflowMapPanel,
    pub git_status: GitStatusPanel,
    pub agent_status: AgentStatusPanel,
    pub audit_log: AuditLogPanel,
    pub gate_alert: GateAlertPanel,
    pub layout: LayoutManager,
    pub hooks_active: bool,
    pub hooks_port: Option<u16>,
    pub hook_setup: HookSetupState,
    pub token: String,
    pub project_dir: String,
    pub phase: String,
    pub stage: String,
}

pub ghost struct AppV {
    pub should_quit: bool,
    pub input_mode: InputMode,
    pub focus: FocusPane,
    pub workflow_map: WorkflowMapV,
    pub git_status: GitStatusV,
    pub agent_status: AgentStatusV,
    pub audit_log: AuditLogV,
    pub gate_alert: GateAlertV,
    pub width: u16,
    pub height: u16,
    pub hooks_active: bool,
    pub hooks_port: Option<u16>,
    pub hook_setup: HookSetupV,
    pub token: Seq<char>,
    pub project_dir: Seq<char>,
    pub phase: Seq<char>,
    pub stage: Seq<char>,
}

impl View for App {
    type V = AppV;

    open spec fn view(&self) -> AppV {
        AppV {
            should_quit: self.should_quit,
            input_mode: self.input_mode,
            focus: self.focus,
            workflow_map: self.workflow_map@,
            git_status: self.git_status@,
            agent_status: self.agent_status@,
            audit_log: self.audit_log@,
            gate_alert: self.gate_alert@,
            width: self.layout.width_spec(),
            height: self.layout.height_spec(),
            hooks_active: self.hooks_active,
            hooks_port: self.hooks_port,
            hook_setup: self.hook_setup@,
            token: self.token@,
            project_dir: self.project_dir@,
            phase: self.phase@,
            stage: self.stage@,
        }
    }
}

// ---------------------------------------------------------------------
// Focus
// ---------------------------------------------------------------------

pub open spec fn is_wide(v: AppV) -> bool {
    mode_for(v.width as int, v.height as int) == LayoutMode::Wide
}

/// The panels that can hold the focus: a gate alert only in the wide layout.
pub open spec fn available_spec(wide: bool) -> Seq<FocusPane> {
    if wide {
        seq![
            FocusPane::WorkflowMap,
            FocusPane::GitStatus,
            FocusPane::AgentStatus,
            FocusPane::AuditLog,
            FocusPane::GateAlert,
        ]
    } else {
        seq![FocusPane::WorkflowMap, FocusPane::GitStatus, FocusPane::AgentStatus, FocusPane::AuditLog]
    }
}

/// The panel after `f` in the cycle of available panels (wrapping around);
/// a panel outside the cycle keeps the focus.
pub open spec fn next_focus(f: FocusPane, wide: bool) -> FocusPane {
    match f {
        FocusPane::WorkflowMap => FocusPane::GitStatus,
        FocusPane::GitStatus => FocusPane::AgentStatus,
        FocusPane::AgentStatus => FocusPane::AuditLog,
        FocusPane::AuditLog => if wide {
            FocusPane::GateAlert
        } else {
            FocusPane::WorkflowMap
        },
        FocusPane::GateAlert => if wide {
            FocusPane::WorkflowMap
        } else {
            FocusPane::GateAlert
        },
    }
}

/// The panel before `f` in the cycle of available panels (wrapping around).
pub open spec fn prev_focus(f: FocusPane, wide: bool) -> FocusPane {
    match f {
        FocusPane::WorkflowMap => if wide {
            FocusPane::GateAlert
        } else {
            FocusPane::AuditLog
        },
        FocusPane::GitStatus => FocusPane::WorkflowMap,
        FocusPane::AgentStatus => FocusPane::GitStatus,
        FocusPane::AuditLog => FocusPane::AgentStatus,
        FocusPane::GateAlert => if wide {
            FocusPane::AuditLog
        } else {
            FocusPane::GateAlert
        },
    }
}

/// Tab and Shift+Tab undo each other, and Tab never leaves the panels
/// that can hold the focus.
pub proof fn lemma_focus_cycle(f: FocusPane, wide: bool)
    requires
        available_spec(wide).contains(f),
    ensures
        next_focus(prev_focus(f, wide), wide) == f,
        prev_focus(next_focus(f, wide), wide) == f,
        available_spec(wide).contains(next_focus(f, wide)),
        available_spec(wide).contains(prev_focus(f, wide)),
{
    let s = available_spec(wide);
    if !wide && f == FocusPane::GateAlert {
        let i = choose|i: int| 0 <= i < s.len() && s[i] == f;
        assert(false);
    }
    assert(s[0] == FocusPane::WorkflowMap);
    assert(s[1] == FocusPane::GitStatus);
    assert(s[2] == FocusPane::AgentStatus);
    assert(s[3] == FocusPane::AuditLog);
    if wide {
        assert(s[4] == FocusPane::GateAlert);
    }
}

/// Pressing Tab as many times as there are available panels brings the
/// focus back where it started, after visiting every one of them.
pub proof fn lemma_focus_round_trip(f: FocusPane, wide: bool)
    requires
        available_spec(wide).contains(f),
    ensures
        ({
            if wide {
                next_focus(next_focus(next_focus(next_focus(next_focus(f, wide), wide), wide), wide), wide) == f
            } else {
                next_focus(next_focus(next_focus(next_focus(f, wide), wide), wide), wide) == f
            }
        }),
{
    let s = available_spec(wide);
    if !wide && f == FocusPane::GateAlert {
        let i = choose|i: int| 0 <= i < s.len() && s[i] == f;
        assert(false);
    }
}

/// The focus once it is made valid: kept if available, else the first panel.
pub open spec fn valid_focus(f: FocusPane, wide: bool) -> FocusPane {
    if available_spec(wide).contains(f) {
        f
    } else {
        FocusPane::WorkflowMap
    }
}

pub open spec fn focus_name_spec(f: FocusPane) -> Seq<char> {
    match f {
        FocusPane::WorkflowMap => "Workflow Map"@,
        FocusPane::GitStatus => "Git Status"@,
        FocusPane::AgentStatus => "Agent Status"@,
        FocusPane::AuditLog => "Audit Log"@,
        FocusPane::GateAlert => "Gate Alert"@,
    }
}

// ---------------------------------------------------------------------
// Keys
// ---------------------------------------------------------------------

/// The focused panel's answer to a key: its new state, and whether it
/// produced an action.
pub open spec fn panel_key(v: AppV, k: KeyCode) -> (AppV, bool) {
    match v.focus {
        FocusPane::WorkflowMap => (AppV { workflow_map: workflow_on_key(v.workflow_map, k), ..v }, k == KeyCode::Enter),
        FocusPane::GitStatus => (AppV { git_status: git_on_key(v.git_status, k), ..v }, k == KeyCode::Enter),
        FocusPane::AgentStatus => (AppV { agent_status: agent_on_key(v.agent_status, k), ..v }, false),
        FocusPane::AuditLog => (AppV { audit_log: audit_on_key(v.audit_log, k), ..v }, false),
        FocusPane::GateAlert => (AppV { gate_alert: gate_on_key(v.gate_alert, k), ..v }, false),
    }
}

/// The direction Ctrl with h, j, k or l asks for.
pub open spec fn ctrl_direction(k: KeyCode) -> Option<Direction> {
    if k == KeyCode::Char('h') {
        Some(Direction::Left)
    } else if k == KeyCode::Char('j') {
        Some(Direction::Down)
    } else if k == KeyCode::Char('k') {
        Some(Direction::Up)
    } else if k == KeyCode::Char('l') {
        Some(Direction::Right)
    } else {
        None
    }
}

/// Right and Left move the focus like Tab and Shift+Tab; Up and Down do nothing.
pub open spec fn focus_toward(v: AppV, d: Direction) -> AppV {
    match d {
        Direction::Right => AppV { focus: next_focus(v.focus, is_wide(v)), ..v },
        Direction::Left => AppV { focus: prev_focus(v.focus, is_wide(v)), ..v },
        _ => v,
    }
}

/// The command `c` asks for: the snippet shown when hooks are not set up,
/// or a fresh one for the current port and token when they do not match.
pub open spec fn copy_command(v: AppV) -> Option<CommandV> {
    match v.hook_setup {
        HookSetupV::NotConfigured(s) => Some(CommandV::CopyToClipboard(s)),
        HookSetupV::Mismatch(_) => match v.hooks_port {
            Some(p) => Some(CommandV::CopyToClipboard(hooks_snippet(p, v.token))),
            None => None,
        },
        _ => None,
    }
}

/// The app after a key: its new state, whether the key was handled, and
/// the command to run, if any.
pub open spec fn app_on_key(v: AppV, key: KeyEvent) -> (AppV, bool, Option<CommandV>) {
    let k = key.code;
    match v.input_mode {
        InputMode::HelpOverlay => (
            if k == KeyCode::Esc || k == KeyCode::Char('?') {
                AppV { input_mode: InputMode::Normal, ..v }
            } else {
                v
            },
            true,
            None,
        ),
        InputMode::Expanded => if k == KeyCode::Esc || k == KeyCode::Char('f') {
            (AppV { input_mode: InputMode::Normal, ..v }, true, None)
        } else {
            (panel_key(v, k).0, true, None)
        },
        InputMode::Normal => if k == KeyCode::Char('q') {
            (AppV { should_quit: true, ..v }, true, None)
        } else if k == KeyCode::Char('?') {
            (AppV { input_mode: InputMode::HelpOverlay, ..v }, true, None)
        } else if k == KeyCode::Char('f') {
            (AppV { input_mode: InputMode::Expanded, ..v }, true, None)
        } else if k == KeyCode::Tab {
            (AppV { focus: next_focus(v.focus, is_wide(v)), ..v }, true, None)
        } else if k == KeyCode::BackTab {
            (AppV { focus: prev_focus(v.focus, is_wide(v)), ..v }, true, None)
        } else if k == KeyCode::Char('r') {
            (v, true, Some(CommandV::Refresh))
        } else if k == KeyCode::Char('c') {
            (v, true, copy_command(v))
        } else if key.ctrl && ctrl_direction(k) is Some {
            (focus_toward(v, ctrl_direction(k)->0), true, None)
        } else {
            let (v2, acted) = panel_key(v, k);
            (v2, acted, None)
        },
    }
}

// ---------------------------------------------------------------------
// Events
// ---------------------------------------------------------------------

/// Every panel answers the event; then the app itself: the hook endpoint
/// starting (records its port), failing (forgets the set-up state), or a
/// new flow state (its phase and stage for the header).
pub open spec fn app_on_event(v: AppV, e: AppEvent, now: u128) -> AppV {
    let p = AppV {
        workflow_map: workflow_on_event(v.workflow_map, e),
        git_status: git_on_event(v.git_status, e),
        agent_status: agent_on_event(v.agent_status, e, now),
        audit_log: audit_on_event(v.audit_log, e),
        gate_alert: gate_on_event(v.gate_alert, e),
        ..v
    };
    match e {
        AppEvent::HooksServerStarted { port } => AppV { hooks_active: true, hooks_port: Some(port), ..p },
        AppEvent::HooksServerFailed { .. } => AppV { hooks_active: false, hook_setup: HookSetupV::Unknown, ..p },
        AppEvent::FlowStateChanged(s) => AppV { phase: phase_label(s@.phase), stage: s@.stage, ..p },
        _ => p,
    }
}

/// The set-up state a hooks check gives for the current port.
pub open spec fn setup_for(status: HookConfigStatus, port: u16, token: Seq<char>) -> HookSetupV {
    match status {
        HookConfigStatus::Configured => HookSetupV::Configured,
        HookConfigStatus::NotConfigured => HookSetupV::NotConfigured(hooks_snippet(port, token)),
        HookConfigStatus::EndpointMismatch { configured_url } => HookSetupV::Mismatch(configured_url@),
    }
}

impl App {
    pub fn new(width: u16, height: u16, token: String, project_dir: String, audit_cap: usize) -> (r: Self)
        ensures
            r@ == (AppV {
                should_quit: false,
                input_mode: InputMode::Normal,
                focus: FocusPane::WorkflowMap,
                workflow_map: WorkflowMapV {
                    flow_state: default_flow_state(),
                    session_summary: default_session_summary(),
                    syncing: false,
                    scroll_offset: 0,
                },
                git_status: GitStatusV { snapshot: default_git_snapshot(), selected: None },
                agent_status: AgentStatusV { agents: Seq::empty(), next_seq: 0, selected: None, hooks_active: false },
                audit_log: AuditLogV {
                    entries: Seq::empty(),
                    selected: None,
                    scroll_len: 0,
                    scroll_position: 0,
                    auto_scroll: true,
                    buffer_cap: clamp_cap(audit_cap),
                },
                gate_alert: GateAlertV {
                    active: false,
                    gate_text: Seq::empty(),
                    choices: Seq::empty(),
                    hooks_active: false,
                    next_steps: Seq::empty(),
                },
                width,
                height,
                hooks_active: false,
                hooks_port: None,
                hook_setup: HookSetupV::Unknown,
                token: token@,
                project_dir: project_dir@,
                phase: "INCEPTION"@,
                stage: Seq::empty(),
            }),
    {
        App {
            should_quit: false,
            input_mode: InputMode::Normal,
            focus: FocusPane::WorkflowMap,
            workflow_map: WorkflowMapPanel::new(),
            git_status: GitStatusPanel::new(),
            agent_status: AgentStatusPanel::new(),
            audit_log: AuditLogPanel::new_with_cap(audit_cap),
            gate_alert: GateAlertPanel::new(),
            layout: LayoutManager::new(width, height),
            hooks_active: false,
            hooks_port: None,
            hook_setup: HookSetupState::Unknown,
            token,
            project_dir,
            phase: owned("INCEPTION"),
            stage: String::new(),
        }
    }

    fn wide(&self) -> (r: bool)
        ensures
            r == is_wide(self@),
    {
        match self.layout.mode() {
            LayoutMode::Wide => true,
            _ => false,
        }
    }

    /// The panels that can hold the focus, in Tab order.
    pub fn available_panels(&self) -> (r: Vec<FocusPane>)
        ensures
            r@ == available_spec(is_wide(self@)),
    {
        let mut v: Vec<FocusPane> = Vec::new();
        v.push(FocusPane::WorkflowMap);
        v.push(FocusPane::GitStatus);
        v.push(FocusPane::AgentStatus);
        v.push(FocusPane::AuditLog);
        if self.wide() {
            v.push(FocusPane::GateAlert);
        }
        assert(v@ =~= available_spec(is_wide(self@)));
        v
    }

    /// Move the focus to the first panel when the focused one is not available.
    pub fn ensure_valid_focus(&mut self)
        ensures
            final(self)@ == (AppV { focus: valid_focus(old(self)@.focus, is_wide(old(self)@)), ..old(self)@ }),
    {
        let wide = self.wide();
        let ok = match self.focus {
            FocusPane::GateAlert => wide,
            _ => true,
        };
        proof {
            let s = available_spec(wide);
            if self.focus == FocusPane::GateAlert && !wide {
                assert forall|i: int| 0 <= i < s.len() implies s[i] != FocusPane::GateAlert by {}
            } else {
                let f = self.focus;
                if f == FocusPane::WorkflowMap { assert(s[0] == f); }
                else if f == FocusPane::GitStatus { assert(s[1] == f); }
                else if f == FocusPane::AgentStatus { assert(s[2] == f); }
                else if f == FocusPane::AuditLog { assert(s[3] == f); }
                else { assert(s[4] == f); }
            }
        }
        if !ok {
            self.focus = FocusPane::WorkflowMap;
        }
    }

    pub fn focus_name(&self) -> (r: &'static str)
        ensures
            r@ == focus_name_spec(self@.focus),
    {
        match self.focus {
            FocusPane::WorkflowMap => "Workflow Map",
            FocusPane::GitStatus => "Git Status",
            FocusPane::AgentStatus => "Agent Status",
            FocusPane::AuditLog => "Audit Log",
            FocusPane::GateAlert => "Gate Alert",
        }
    }

    fn focused_panel_key(&mut self, key: KeyEvent) -> (r: bool)
        ensures
            (final(self)@, r) == panel_key(old(self)@, key.code),
    {
        match self.focus {
            FocusPane::WorkflowMap => self.workflow_map.handle_key(key).is_some(),
            FocusPane::GitStatus => self.git_status.handle_key(key).is_some(),
            FocusPane::AgentStatus => self.agent_status.handle_key(key).is_some(),
            FocusPane::AuditLog => self.audit_log.handle_key(key).is_some(),
            FocusPane::GateAlert => self.gate_alert.handle_key(key).is_some(),
        }
    }

    /// The command `c` asks for (see `copy_command`).
    pub fn copy_hooks_snippet(&self) -> (r: Option<Action>)
        ensures
            command_view(r) == copy_command(self@),
            r is None || r matches Some(Action::CopyToClipboard(_)),
    {
        match &self.hook_setup {
            HookSetupState::NotConfigured { snippet } => Some(Action::CopyToClipboard(snippet.clone())),
            HookSetupState::Mismatch { .. } => match self.hooks_port {
                Some(port) => Some(Action::CopyToClipboard(generate_hooks_snippet(port, self.token.as_str()))),
                None => None,
            },
            _ => None,
        }
    }

    /// Carry out an action: focus moves, mode changes and quitting change
    /// the state; background actions are returned for the command runner;
    /// panel actions need nothing more.
    pub fn execute_action(&mut self, action: Action) -> (r: Option<Action>)
        ensures
            match action {
                Action::FocusNextPanel => final(self)@ == (AppV { focus: next_focus(old(self)@.focus, is_wide(old(self)@)), ..old(self)@ }) && r is None,
                Action::FocusPrevPanel => final(self)@ == (AppV { focus: prev_focus(old(self)@.focus, is_wide(old(self)@)), ..old(self)@ }) && r is None,
                Action::FocusDirection(d) => final(self)@ == focus_toward(old(self)@, d) && r is None,
                Action::ExpandPanel => final(self)@ == (AppV { input_mode: InputMode::Expanded, ..old(self)@ }) && r is None,
                Action::CollapsePanel => final(self)@ == (AppV { input_mode: InputMode::Normal, ..old(self)@ }) && r is None,
                Action::Quit => final(self)@ == (AppV { should_quit: true, ..old(self)@ }) && r is None,
                Action::Refresh => final(self)@ == old(self)@ && command_view(r) == Some(CommandV::Refresh),
                Action::CopyToClipboard(t) => final(self)@ == old(self)@ && command_view(r) == Some(CommandV::CopyToClipboard(t@)),
                _ => final(self)@ == old(self)@ && r is None,
            },
    {
        match action {
            Action::FocusNextPanel => {
                self.focus = self.next_of(self.focus);
                None
            },
            Action::FocusPrevPanel => {
                self.focus = self.prev_of(self.focus);
                None
            },
            Action::FocusDirection(dir) => {
                self.focus_direction(dir);
                None
            },
            Action::ExpandPanel => {
                self.input_mode = InputMode::Expanded;
                None
            },
            Action::CollapsePanel => {
                self.input_mode = InputMode::Normal;
                None
            },
            Action::Quit => {
                self.should_quit = true;
                None
            },
            Action::Refresh => Some(Action::Refresh),
            Action::CopyToClipboard(t) => Some(Action::CopyToClipboard(t)),
            _ => None,
        }
    }

    fn next_of(&self, f: FocusPane) -> (r: FocusPane)
        ensures
            r == next_focus(f, is_wide(self@)),
    {
        let wide = self.wide();
        match f {
            FocusPane::WorkflowMap => FocusPane::GitStatus,
            FocusPane::GitStatus => FocusPane::AgentStatus,
            FocusPane::AgentStatus => FocusPane::AuditLog,
            FocusPane::AuditLog => if wide { FocusPane::GateAlert } else { FocusPane::WorkflowMap },
            FocusPane::GateAlert => if wide { FocusPane::WorkflowMap } else { FocusPane::GateAlert },
        }
    }

    fn prev_of(&self, f: FocusPane) -> (r: FocusPane)
        ensures
            r == prev_focus(f, is_wide(self@)),
    {
        let wide = self.wide();
        match f {
            FocusPane::WorkflowMap => if wide { FocusPane::GateAlert } else { FocusPane::AuditLog },
            FocusPane::GitStatus => FocusPane::WorkflowMap,
            FocusPane::AgentStatus => FocusPane::GitStatus,
            FocusPane::AuditLog => FocusPane::AgentStatus,
            FocusPane::GateAlert => if wide { FocusPane::AuditLog } else { FocusPane::GateAlert },
        }
    }

    fn focus_direction(&mut self, dir: Direction)
        ensures
            final(self)@ == focus_toward(old(self)@, dir),
    {
        match dir {
            Direction::Right => {
                self.focus = self.next_of(self.focus);
            },
            Direction::Left => {
                self.focus = self.prev_of(self.focus);
            },
            _ => {},
        }
    }

    /// Handle a key press: returns whether it was handled, and the command
    /// to run in the background, if any.
    pub fn handle_key(&mut self, key: KeyEvent) -> (r: (bool, Option<Action>))
        ensures
            (final(self)@, r.0, command_view(r.1)) == app_on_key(old(self)@, key),
            r.1 is None || r.1 matches Some(Action::Refresh) || r.1 matches Some(Action::CopyToClipboard(_)),
    {
        match self.input_mode {
            InputMode::HelpOverlay => {
                match key.code {
                    KeyCode::Esc | KeyCode::Char('?') => {
                        self.input_mode = InputMode::Normal;
                    },
                    _ => {},
                }
                (true, None)
            },
            InputMode::Expanded => {
                match key.code {
                    KeyCode::Esc | KeyCode::Char('f') => {
                        self.input_mode = InputMode::Normal;
                    },
                    _ => {
                        self.focused_panel_key(key);
                    },
                }
                (true, None)
            },
            InputMode::Normal => self.handle_normal_key(key),
        }
    }

    fn handle_normal_key(&mut self, key: KeyEvent) -> (r: (bool, Option<Action>))
        requires
            old(self)@.input_mode == InputMode::Normal,
        ensures
            (final(self)@, r.0, command_view(r.1)) == app_on_key(old(self)@, key),
            r.1 is None || r.1 matches Some(Action::Refresh) || r.1 matches Some(Action::CopyToClipboard(_)),
    {
        match key.code {
            KeyCode::Char('q') => {
                self.should_quit = true;
                return (true, None);
            },
            KeyCode::Char('?') => {
                self.input_mode = InputMode::HelpOverlay;
                return (true, None);
            },
            KeyCode::Char('f') => {
                self.input_mode = InputMode::Expanded;
                return (true, None);
            },
            KeyCode::Tab => {
                self.focus = self.next_of(self.focus);
                return (true, None);
            },
            KeyCode::BackTab => {
                self.focus = self.prev_of(self.focus);
                return (true, None);
            },
            KeyCode::Char('r') => {
                return (true, Some(Action::Refresh));
            },
            KeyCode::Char('c') => {
                return (true, self.copy_hooks_snippet());
            },
            _ => {},
        }
        if key.ctrl {
            let dir = match key.code {
                KeyCode::Char('h') => Some(Direction::Left),
                KeyCode::Char('j') => Some(Direction::Down),
                KeyCode::Char('k') => Some(Direction::Up),
                KeyCode::Char('l') => Some(Direction::Right),
                _ => None,
            };
            if let Some(d) = dir {
                self.focus_direction(d);
                return (true, None);
            }
        }
        let acted = self.focused_panel_key(key);
        (acted, None)
    }

    /// Deliver an event received at `now` to every panel and to the app.
    /// Returns whether the hooks configuration should now be checked (the
    /// hook endpoint has started).
    pub fn handle_event(&mut self, event: AppEvent, now: u128) -> (r: bool)
        requires
            old(self)@.agent_status.next_seq < u64::MAX,
        ensures
            final(self)@ == app_on_event(old(self)@, event, now),
            r == (event is HooksServerStarted),
    {
        self.workflow_map.handle_event(&event);
        self.git_status.handle_event(&event);
        self.agent_status.handle_event(&event, now);
        self.audit_log.handle_event(&event);
        self.gate_alert.handle_event(&event);
        match &event {
            AppEvent::HooksServerStarted { port } => {
                self.hooks_active = true;
                self.hooks_port = Some(*port);
                true
            },
            AppEvent::HooksServerFailed { .. } => {
                self.hooks_active = false;
                self.hook_setup = HookSetupState::Unknown;
                false
            },
            AppEvent::FlowStateChanged(state) => {
                self.phase = state.phase.to_string();
                self.stage = state.stage.clone();
                false
            },
            _ => false,
        }
    }

    /// Record the result of checking the hooks configuration for the
    /// current port; without a port nothing changes.
    pub fn apply_hooks_check(&mut self, status: HookConfigStatus)
        ensures
            final(self)@ == match old(self)@.hooks_port {
                Some(p) => AppV { hook_setup: setup_for(status, p, old(self)@.token), ..old(self)@ },
                None => old(self)@,
            },
    {
        let port = match self.hooks_port {
            Some(p) => p,
            None => {
                return;
            },
        };
        self.hook_setup = match status {
            HookConfigStatus::Configured => HookSetupState::Configured,
            HookConfigStatus::NotConfigured => HookSetupState::NotConfigured {
                snippet: generate_hooks_snippet(port, self.token.as_str()),
            },
            HookConfigStatus::EndpointMismatch { configured_url } => HookSetupState::Mismatch { detail: configured_url },
        };
    }

    /// Show a new flow state.
    pub fn handle_flow_state(&mut self, state: FlowState)
        ensures
            final(self)@ == (AppV {
                phase: phase_label(state@.phase),
                stage: state@.stage,
                workflow_map: WorkflowMapV { flow_state: state@, syncing: false, ..old(self)@.workflow_map },
                ..old(self)@
            }),
    {
        self.phase = state.phase.to_string();
        self.stage = state.stage.clone();
        self.workflow_map.set_flow_state(state);
    }

    /// Show a new git snapshot.
    pub fn handle_git_snapshot(&mut self, snapshot: GitSnapshot)
        ensures
            final(self)@ == (AppV {
                git_status: GitStatusV {
                    snapshot: snapshot@,
                    selected: clamp_selected(old(self)@.git_status.selected, snapshot@.changes.len()),
                },
                ..old(self)@
            }),
    {
        self.git_status.set_snapshot(snapshot);
    }

    /// Periodic work at `now`: time out orphan agents; reports whether any was.
    pub fn on_tick(&mut self, now: u128) -> (r: bool)
        ensures
            final(self)@ == (AppV {
                agent_status: AgentStatusV { agents: mark_timeouts(old(self)@.agent_status.agents, now), ..old(self)@.agent_status },
                ..old(self)@
            }),
    {
        self.agent_status.check_timeouts(now)
    }

    /// A new terminal size: the focus is made valid for the new layout, the
    /// workflow map scrolls back to the top, and the lists keep their
    /// selections in range.
    pub fn on_resize(&mut self, w: u16, h: u16)
        ensures
            final(self)@ == (AppV {
                width: w,
                height: h,
                focus: valid_focus(old(self)@.focus, mode_for(w as int, h as int) == LayoutMode::Wide),
                workflow_map: WorkflowMapV { scroll_offset: 0, ..old(self)@.workflow_map },
                git_status: GitStatusV {
                    selected: clamp_selected(old(self)@.git_status.selected, old(self)@.git_status.snapshot.changes.len()),
                    ..old(self)@.git_status
                },
                agent_status: AgentStatusV {
                    selected: clamp_selected(old(self)@.agent_status.selected, old(self)@.agent_status.agents.len()),
                    ..old(self)@.agent_status
                },
                audit_log: AuditLogV {
                    selected: clamp_selected(old(self)@.audit_log.selected, old(self)@.audit_log.entries.len()),
                    ..old(self)@.audit_log
                },
                ..old(self)@
            }),
    {
        self.layout.on_resize(w, h);
        self.ensure_valid_focus();
        self.workflow_map.scroll_offset = 0;
        self.git_status.clamp_scroll();
        self.agent_status.clamp_scroll();
        self.audit_log.clamp_scroll();
    }

    /// The status bar's location text: the phase, and the stage after ` > `
    /// when there is one.
    pub fn phase_stage(&self) -> (r: String)
        ensures
            r@ == if self.stage@.len() == 0 {
                self.phase@
            } else {
                self.phase@ + " > "@ + self.stage@
            },
    {
        let stage = chars_of(self.stage.as_str());
        let mut v = chars_of(self.phase.as_str());
        if stage.len() > 0 {
            push_str(&mut v, " > ");
            push_all(&mut v, &stage);
        }
        string_of(&v)
    }

    /// The banner shown above the panels while the hooks are not set up
    /// as they should be.
    pub fn setup_banner(&self) -> (r: Option<&'static str>)
        ensures
            match r {
                Some(m) => match self.hook_setup@ {
                    HookSetupV::NotConfigured(_) => m@ == " ⚠ Hooks 미설정 — c 키로 설정 JSON 복사"@,
                    HookSetupV::Mismatch(_) => m@ == " ⚠ Hooks 설정 불일치 — c 키로 새 설정 복사"@,
                    _ => false,
                },
                None => self.hook_setup@ is Unknown || self.hook_setup@ is Configured,
            },
    {
        match &self.hook_setup {
            HookSetupState::NotConfigured { .. } => Some(" ⚠ Hooks 미설정 — c 키로 설정 JSON 복사"),
            HookSetupState::Mismatch { .. } => Some(" ⚠ Hooks 설정 불일치 — c 키로 새 설정 복사"),
            _ => None,
        }
    }
}

} // verus!
