//! Artifact preview panel: a list of documents with a selection that
//! always designates one of them, and a preview pane for the selected one.
//! Opening a document is requested from the application, which reads it
//! and hands the lines back.

use vstd::prelude::*;

use crate::action::Action;
use crate::event::AppEvent;
use crate::input::{KeyCode, KeyEvent};
use crate::panel::workflow_map::{is_down, is_up};
use crate::parser::models::{artifact_views, ArtifactFile, ArtifactFileV};
use crate::parser::section::join_lines;
use crate::service::sanitizer::{strip_ansi_chars, strip_ansi_spec};
use crate::text::{chars_of, opt_str, push_all, push_str, string_of};

verus! {

broadcast use vstd::seq_lib::group_seq_properties;

/// At most this many lines of a document are previewed.
pub const MAX_PREVIEW_LINES: usize = 1000;

#[derive(Debug, Clone, Copy, PartialEq, Eq, Structural)]
pub enum ActivePane {
    FileList,
    Preview,
}

pub struct ArtifactPreviewPanel {
    files: Vec<ArtifactFile>,
    selected: usize,
    preview: Option<String>,
    active_pane: ActivePane,
    scroll_offset: usize,
    pending_load: Option<String>,
}

pub ghost struct ArtifactPreviewV {
    pub files: Seq<ArtifactFileV>,
    pub selected: usize,
    pub preview: Option<Seq<char>>,
    pub active_pane: ActivePane,
    pub scroll_offset: usize,
    pub pending_load: Option<Seq<char>>,
}

impl View for ArtifactPreviewPanel {
    type V = ArtifactPreviewV;

    closed spec fn view(&self) -> ArtifactPreviewV {
        ArtifactPreviewV {
            files: artifact_views(self.files@),
            selected: self.selected,
            preview: opt_str(self.preview),
            active_pane: self.active_pane,
            scroll_offset: self.scroll_offset,
            pending_load: opt_str(self.pending_load),
        }
    }
}

/// The selection designates an existing file, or is 0 when there is none.
pub open spec fn selection_valid(p: ArtifactPreviewV) -> bool {
    if p.files.len() == 0 {
        p.selected == 0
    } else {
        p.selected < p.files.len()
    }
}

/// The selection after the list is replaced: kept when still in range,
/// otherwise moved to the last file (or 0 when the list is empty).
pub open spec fn clamp_selection(selected: usize, len: nat) -> usize {
    if len == 0 {
        0
    } else if selected >= len {
        (len - 1) as usize
    } else {
        selected
    }
}

/// The preview of a document's lines: joined by newlines, escape sequences removed.
pub open spec fn preview_text(lines: Seq<Seq<char>>) -> Seq<char> {
    strip_ansi_spec(join_lines(lines))
}

/// The lines a preview shows at most: the first `MAX_PREVIEW_LINES`.
pub open spec fn first_lines<A>(v: Seq<A>) -> Seq<A> {
    if v.len() > MAX_PREVIEW_LINES {
        v.take(MAX_PREVIEW_LINES as int)
    } else {
        v
    }
}

/// The lines read successfully, in order.
pub open spec fn read_lines(v: Seq<Option<Seq<char>>>) -> Seq<Seq<char>>
    decreases v.len(),
{
    if v.len() == 0 {
        Seq::empty()
    } else {
        match v.last() {
            Some(l) => read_lines(v.drop_last()).push(l),
            None => read_lines(v.drop_last()),
        }
    }
}

pub open spec fn opt_strs(v: Seq<Option<String>>) -> Seq<Option<Seq<char>>> {
    v.map_values(|o: Option<String>| opt_str(o))
}

/// How a key changes the panel.
pub open spec fn artifact_on_key(p: ArtifactPreviewV, k: KeyCode) -> ArtifactPreviewV {
    if k == KeyCode::Tab {
        ArtifactPreviewV {
            active_pane: if p.active_pane == ActivePane::FileList {
                ActivePane::Preview
            } else {
                ActivePane::FileList
            },
            ..p
        }
    } else if is_down(k) {
        if p.active_pane == ActivePane::FileList {
            if p.files.len() > 0 && p.selected < p.files.len() - 1 {
                ArtifactPreviewV { selected: (p.selected + 1) as usize, ..p }
            } else {
                p
            }
        } else {
            ArtifactPreviewV {
                scroll_offset: if p.scroll_offset == usize::MAX {
                    usize::MAX
                } else {
                    (p.scroll_offset + 1) as usize
                },
                ..p
            }
        }
    } else if is_up(k) {
        if p.active_pane == ActivePane::FileList {
            ArtifactPreviewV {
                selected: if p.selected == 0 {
                    0
                } else {
                    (p.selected - 1) as usize
                },
                ..p
            }
        } else {
            ArtifactPreviewV {
                scroll_offset: if p.scroll_offset == 0 {
                    0
                } else {
                    (p.scroll_offset - 1) as usize
                },
                ..p
            }
        }
    } else if k == KeyCode::Enter {
        ArtifactPreviewV {
            pending_load: if p.selected < p.files.len() {
                Some(p.files[p.selected as int].path)
            } else {
                p.pending_load
            },
            scroll_offset: 0,
            active_pane: ActivePane::Preview,
            ..p
        }
    } else {
        p
    }
}

impl ArtifactPreviewPanel {
    #[verifier::type_invariant]
    spec fn selection_in_range(self) -> bool {
        selection_valid(self@)
    }

    pub fn new() -> (r: Self)
        ensures
            r@ == (ArtifactPreviewV {
                files: Seq::empty(),
                selected: 0,
                preview: None,
                active_pane: ActivePane::FileList,
                scroll_offset: 0,
                pending_load: None,
            }),
    {
        let r = ArtifactPreviewPanel {
            files: Vec::new(),
            selected: 0,
            preview: None,
            active_pane: ActivePane::FileList,
            scroll_offset: 0,
            pending_load: None,
        };
        assert(r@.files =~= Seq::<ArtifactFileV>::empty());
        r
    }

    pub fn files(&self) -> (r: &Vec<ArtifactFile>)
        ensures
            artifact_views(r@) == self@.files,
    {
        &self.files
    }

    /// The selected file's position; it designates an existing file, or is 0 when there is none.
    pub fn selected_index(&self) -> (r: usize)
        ensures
            r == self@.selected,
            selection_valid(self@),
    {
        proof {
            use_type_invariant(self);
        }
        self.selected
    }

    pub fn preview_content(&self) -> (r: Option<&String>)
        ensures
            match r {
                Some(s) => self@.preview == Some(s@),
                None => self@.preview is None,
            },
    {
        match &self.preview {
            Some(s) => Some(s),
            None => None,
        }
    }

    pub fn active_pane(&self) -> (r: ActivePane)
        ensures
            r == self@.active_pane,
    {
        self.active_pane
    }

    pub fn preview_scroll(&self) -> (r: usize)
        ensures
            r == self@.scroll_offset,
    {
        self.scroll_offset
    }

    /// The document the panel asked to open, if any; the request is cleared.
    pub fn take_pending_load(&mut self) -> (r: Option<String>)
        ensures
            opt_str(r) == old(self)@.pending_load,
            final(self)@ == (ArtifactPreviewV { pending_load: None, ..old(self)@ }),
    {
        proof {
            use_type_invariant(&*self);
        }
        let r = match &self.pending_load {
            Some(p) => Some(p.clone()),
            None => None,
        };
        self.pending_load = None;
        r
    }

    /// Show what reading the requested document gave: its first
    /// `MAX_PREVIEW_LINES` lines (`None` for a line that could not be read,
    /// which is left out), or the error that prevented opening it.
    pub fn finish_load(&mut self, result: Result<Vec<Option<String>>, String>)
        ensures
            final(self)@ == (ArtifactPreviewV {
                preview: Some(
                    match result {
                        Ok(v) => preview_text(read_lines(first_lines(opt_strs(v@)))),
                        Err(e) => "Error: "@ + e@,
                    },
                ),
                ..old(self)@
            }),
    {
        proof {
            use_type_invariant(&*self);
        }
        match result {
            Ok(v) => {
                let ghost vs = opt_strs(v@);
                let n = if v.len() < MAX_PREVIEW_LINES {
                    v.len()
                } else {
                    MAX_PREVIEW_LINES
                };
                let mut acc: Vec<char> = Vec::new();
                let mut first = true;
                let mut i: usize = 0;
                while i < n
                    invariant
                        n <= v@.len(),
                        i <= n,
                        vs == opt_strs(v@),
                        acc@ == join_lines(read_lines(vs.take(i as int))),
                        first == (read_lines(vs.take(i as int)).len() == 0),
                    decreases v.len() - i,
                {
                    proof {
                        assert(vs.take(i + 1).drop_last() =~= vs.take(i as int));
                        assert(vs[i as int] == opt_str(v@[i as int]));
                    }
                    match &v[i] {
                        Some(line) => {
                            let lc = chars_of(line.as_str());
                            proof {
                                let p = read_lines(vs.take(i as int));
                                assert(p.push(lc@).drop_last() =~= p);
                                if p.len() == 0 {
                                    assert(p.push(lc@)[0] == lc@);
                                }
                            }
                            if !first {
                                acc.push('\n');
                            }
                            push_all(&mut acc, &lc);
                            first = false;
                        },
                        None => {},
                    }
                    i = i + 1;
                }
                proof {
                    assert(vs.take(i as int) =~= first_lines(vs));
                }
                let clean = strip_ansi_chars(&acc);
                self.preview = Some(string_of(&clean));
            },
            Err(e) => {
                let mut m = chars_of("Error: ");
                push_str(&mut m, e.as_str());
                self.preview = Some(string_of(&m));
            },
        }
    }

    /// Tab switches panes; j/Down and k/Up move the selection (file list)
    /// or scroll (preview); Enter asks to open the selected file and shows
    /// the preview pane from its top. No key yields an action.
    pub fn handle_key(&mut self, key: KeyEvent) -> (r: Option<Action>)
        ensures
            r is None,
            final(self)@ == artifact_on_key(old(self)@, key.code),
            selection_valid(final(self)@),
    {
        proof {
            use_type_invariant(&*self);
        }
        match key.code {
            KeyCode::Tab => {
                self.active_pane = match self.active_pane {
                    ActivePane::FileList => ActivePane::Preview,
                    ActivePane::Preview => ActivePane::FileList,
                };
            },
            KeyCode::Char('j') | KeyCode::Down => {
                match self.active_pane {
                    ActivePane::FileList => {
                        if self.files.len() > 0 && self.selected < self.files.len() - 1 {
                            self.selected = self.selected + 1;
                        }
                    },
                    ActivePane::Preview => {
                        self.scroll_offset = self.scroll_offset.saturating_add(1);
                    },
                }
            },
            KeyCode::Char('k') | KeyCode::Up => {
                match self.active_pane {
                    ActivePane::FileList => {
                        self.selected = self.selected.saturating_sub(1);
                    },
                    ActivePane::Preview => {
                        self.scroll_offset = self.scroll_offset.saturating_sub(1);
                    },
                }
            },
            KeyCode::Enter => {
                if self.selected < self.files.len() {
                    self.pending_load = Some(self.files[self.selected].path.clone());
                }
                self.scroll_offset = 0;
                self.active_pane = ActivePane::Preview;
            },
            _ => {},
        }
        None
    }

    /// A new file list replaces the old one; the selection is clamped into it.
    pub fn handle_event(&mut self, event: &AppEvent)
        ensures
            match *event {
                AppEvent::ArtifactListChanged(files) => final(self)@ == (ArtifactPreviewV {
                    files: artifact_views(files@),
                    selected: clamp_selection(old(self)@.selected, files@.len()),
                    ..old(self)@
                }),
                _ => final(self)@ == old(self)@,
            },
            selection_valid(final(self)@),
    {
        proof {
            use_type_invariant(&*self);
        }
        if let AppEvent::ArtifactListChanged(files) = event {
            let new_files = files.clone();
            assert(artifact_views(new_files@) =~= artifact_views(files@));
            let sel = if new_files.len() == 0 {
                0
            } else if self.selected >= new_files.len() {
                new_files.len() - 1
            } else {
                self.selected
            };
            let mut prev = ArtifactPreviewPanel::new();
            core::mem::swap(self, &mut prev);
            let ArtifactPreviewPanel {
                files: _,
                selected: _,
                preview,
                active_pane,
                scroll_offset,
                pending_load,
            } = prev;
            *self = ArtifactPreviewPanel {
                files: new_files,
                selected: sel,
                preview,
                active_pane,
                scroll_offset,
                pending_load,
            };
        }
    }
}

impl Default for ArtifactPreviewPanel {
    fn default() -> (r: Self)
        ensures
            r@ == (ArtifactPreviewV {
                files: Seq::empty(),
                selected: 0,
                preview: None,
                active_pane: ActivePane::FileList,
                scroll_offset: 0,
                pending_load: None,
            }),
    {
        ArtifactPreviewPanel::new()
    }
}

} // verus!
