//! Data model of the workflow documents, the audit log, git state and
//! token usage, with the mathematical view of each type.

use vstd::prelude::*;

use crate::text::{
    chars_of, clone_opt, clone_strings, eq_chars, str_views, lowercase_chars, opt_str, owned, spec_to_lowercase,
    spec_to_uppercase, string_of, trim, trimmed, uppercase_chars,
};

verus! {

// ── Phase & Complexity ──

#[derive(Debug, Clone, Copy, PartialEq, Eq, Structural)]
pub enum Phase {
    Inception,
    Construction,
    Complete,
    Finished,
}

impl Default for Phase {
    fn default() -> (r: Phase)
        ensures
            r == Phase::Inception,
    {
        Phase::Inception
    }
}

/// How a phase is displayed.
pub open spec fn phase_label(p: Phase) -> Seq<char> {
    match p {
        Phase::Inception => "INCEPTION"@,
        Phase::Construction => "CONSTRUCTION"@,
        Phase::Complete => "complete"@,
        Phase::Finished => "finished"@,
    }
}

/// The phase named by an upper-cased name.
pub open spec fn phase_of_upper(u: Seq<char>) -> Option<Phase> {
    if u == "INCEPTION"@ {
        Some(Phase::Inception)
    } else if u == "CONSTRUCTION"@ {
        Some(Phase::Construction)
    } else if u == "COMPLETE"@ {
        Some(Phase::Complete)
    } else if u == "FINISHED"@ {
        Some(Phase::Finished)
    } else {
        None
    }
}

/// The phase a text names: trimmed, upper-cased, then matched.
pub open spec fn phase_parse(s: Seq<char>) -> Option<Phase> {
    phase_of_upper(spec_to_uppercase(trim(s)))
}

/// Error returned when parsing an unknown phase string.
#[derive(Debug, Clone, PartialEq, Eq)]
pub struct ParsePhaseError(pub String);

impl ParsePhaseError {
    /// The error message: `unknown phase: '<text>'`.
    pub fn message(&self) -> (r: String)
        ensures
            r@ == "unknown phase: '"@ + self.0@ + "'"@,
    {
        let mut v = chars_of("unknown phase: '");
        let mut t = chars_of(self.0.as_str());
        v.append(&mut t);
        let mut q = chars_of("'");
        v.append(&mut q);
        string_of(&v)
    }
}

impl Phase {
    /// Display text: `INCEPTION`, `CONSTRUCTION`, `complete`, `finished`.
    pub fn to_string(&self) -> (r: String)
        ensures
            r@ == phase_label(*self),
    {
        match self {
            Phase::Inception => owned("INCEPTION"),
            Phase::Construction => owned("CONSTRUCTION"),
            Phase::Complete => owned("complete"),
            Phase::Finished => owned("finished"),
        }
    }

    /// Parse a phase name, ignoring case and surrounding whitespace.
    pub fn parse_str(s: &str) -> (r: Result<Phase, ParsePhaseError>)
        ensures
            match r {
                Ok(p) => phase_parse(s@) == Some(p),
                Err(e) => phase_parse(s@) is None && e.0@ == trim(s@),
            },
    {
        let v = chars_of(s);
        let t = trimmed(&v);
        let u = uppercase_chars(&t);
        match Phase::from_upper(&u) {
            Some(p) => Ok(p),
            None => Err(ParsePhaseError(string_of(&t))),
        }
    }

    /// The phase an upper-cased name names, if any.
    pub fn from_upper(u: &[char]) -> (r: Option<Phase>)
        ensures
            r == phase_of_upper(u@),
    {
        if eq_chars(u, &chars_of("INCEPTION")) {
            Some(Phase::Inception)
        } else if eq_chars(u, &chars_of("CONSTRUCTION")) {
            Some(Phase::Construction)
        } else if eq_chars(u, &chars_of("COMPLETE")) {
            Some(Phase::Complete)
        } else if eq_chars(u, &chars_of("FINISHED")) {
            Some(Phase::Finished)
        } else {
            None
        }
    }
}

impl core::str::FromStr for Phase {
    type Err = ParsePhaseError;

    fn from_str(s: &str) -> (r: Result<Self, Self::Err>)
        ensures
            match r {
                Ok(p) => phase_parse(s@) == Some(p),
                Err(e) => phase_parse(s@) is None && e.0@ == trim(s@),
            },
    {
        Phase::parse_str(s)
    }
}

#[derive(Debug, Clone, Copy, PartialEq, Eq, Structural)]
pub enum Complexity {
    Minimal,
    Standard,
    Comprehensive,
}

impl Default for Complexity {
    fn default() -> (r: Complexity)
        ensures
            r == Complexity::Standard,
    {
        Complexity::Standard
    }
}

pub open spec fn complexity_label(c: Complexity) -> Seq<char> {
    match c {
        Complexity::Minimal => "Minimal"@,
        Complexity::Standard => "Standard"@,
        Complexity::Comprehensive => "Comprehensive"@,
    }
}

/// The complexity named by a lower-cased name.
pub open spec fn complexity_of_lower(u: Seq<char>) -> Option<Complexity> {
    if u == "minimal"@ {
        Some(Complexity::Minimal)
    } else if u == "standard"@ {
        Some(Complexity::Standard)
    } else if u == "comprehensive"@ {
        Some(Complexity::Comprehensive)
    } else {
        None
    }
}

/// The complexity a text names: trimmed, lower-cased, then matched.
pub open spec fn complexity_parse(s: Seq<char>) -> Option<Complexity> {
    complexity_of_lower(spec_to_lowercase(trim(s)))
}

/// Error returned when parsing an unknown complexity string.
#[derive(Debug, Clone, PartialEq, Eq)]
pub struct ParseComplexityError(pub String);

impl ParseComplexityError {
    /// The error message: `unknown complexity: '<text>'`.
    pub fn message(&self) -> (r: String)
        ensures
            r@ == "unknown complexity: '"@ + self.0@ + "'"@,
    {
        let mut v = chars_of("unknown complexity: '");
        let mut t = chars_of(self.0.as_str());
        v.append(&mut t);
        let mut q = chars_of("'");
        v.append(&mut q);
        string_of(&v)
    }
}

impl Complexity {
    /// Display text: `Minimal`, `Standard`, `Comprehensive`.
    pub fn to_string(&self) -> (r: String)
        ensures
            r@ == complexity_label(*self),
    {
        match self {
            Complexity::Minimal => owned("Minimal"),
            Complexity::Standard => owned("Standard"),
            Complexity::Comprehensive => owned("Comprehensive"),
        }
    }

    /// Parse a complexity name, ignoring case and surrounding whitespace.
    pub fn parse_str(s: &str) -> (r: Result<Complexity, ParseComplexityError>)
        ensures
            match r {
                Ok(c) => complexity_parse(s@) == Some(c),
                Err(e) => complexity_parse(s@) is None && e.0@ == trim(s@),
            },
    {
        let v = chars_of(s);
        let t = trimmed(&v);
        let u = lowercase_chars(&t);
        match Complexity::from_lower(&u) {
            Some(c) => Ok(c),
            None => Err(ParseComplexityError(string_of(&t))),
        }
    }

    /// The complexity a lower-cased name names, if any.
    pub fn from_lower(u: &[char]) -> (r: Option<Complexity>)
        ensures
            r == complexity_of_lower(u@),
    {
        if eq_chars(u, &chars_of("minimal")) {
            Some(Complexity::Minimal)
        } else if eq_chars(u, &chars_of("standard")) {
            Some(Complexity::Standard)
        } else if eq_chars(u, &chars_of("comprehensive")) {
            Some(Complexity::Comprehensive)
        } else {
            None
        }
    }
}

impl core::str::FromStr for Complexity {
    type Err = ParseComplexityError;

    fn from_str(s: &str) -> (r: Result<Self, Self::Err>)
        ensures
            match r {
                Ok(c) => complexity_parse(s@) == Some(c),
                Err(e) => complexity_parse(s@) is None && e.0@ == trim(s@),
            },
    {
        Complexity::parse_str(s)
    }
}

// ── Stage Status ──

#[derive(Debug, Clone, Copy, PartialEq, Eq, Structural)]
pub enum StageStatus {
    Active,
    Completed,
    Waiting,
    Skipped,
    Deferred,
}

impl Default for StageStatus {
    fn default() -> (r: StageStatus)
        ensures
            r == StageStatus::Waiting,
    {
        StageStatus::Waiting
    }
}

// ── Work Marker ──

#[derive(Debug, Clone, Copy, PartialEq, Eq, Structural)]
pub enum WorkMarker {
    /// `[x]`
    Done,
    /// `[~]`
    InProgress,
    /// `[ ]`
    Pending,
}

pub open spec fn work_marker_icon(m: WorkMarker) -> Seq<char> {
    match m {
        WorkMarker::Done => "✓"@,
        WorkMarker::InProgress => "◐"@,
        WorkMarker::Pending => "○"@,
    }
}

impl WorkMarker {
    pub fn icon(&self) -> (r: &'static str)
        ensures
            r@ == work_marker_icon(*self),
    {
        match self {
            WorkMarker::Done => "✓",
            WorkMarker::InProgress => "◐",
            WorkMarker::Pending => "○",
        }
    }
}

// ── FlowState ──

#[derive(Debug)]
pub struct CompletedStage {
    pub name: String,
    pub timestamp: Option<String>,
}

pub ghost struct CompletedStageV {
    pub name: Seq<char>,
    pub timestamp: Option<Seq<char>>,
}

impl View for CompletedStage {
    type V = CompletedStageV;

    open spec fn view(&self) -> CompletedStageV {
        CompletedStageV { name: self.name@, timestamp: opt_str(self.timestamp) }
    }
}

impl Clone for CompletedStage {
    fn clone(&self) -> (r: Self)
        ensures
            r@ == self@,
    {
        CompletedStage { name: self.name.clone(), timestamp: clone_opt(&self.timestamp) }
    }
}

#[derive(Debug)]
pub struct ApprovedStage {
    pub name: String,
    pub depth: Option<String>,
}

pub ghost struct ApprovedStageV {
    pub name: Seq<char>,
    pub depth: Option<Seq<char>>,
}

impl View for ApprovedStage {
    type V = ApprovedStageV;

    open spec fn view(&self) -> ApprovedStageV {
        ApprovedStageV { name: self.name@, depth: opt_str(self.depth) }
    }
}

impl Clone for ApprovedStage {
    fn clone(&self) -> (r: Self)
        ensures
            r@ == self@,
    {
        ApprovedStage { name: self.name.clone(), depth: clone_opt(&self.depth) }
    }
}

/// A stage with an optional reason (skipped or deferred stages).
pub ghost struct ReasonedStageV {
    pub name: Seq<char>,
    pub reason: Option<Seq<char>>,
}

#[derive(Debug)]
pub struct SkippedStage {
    pub name: String,
    pub reason: Option<String>,
}

impl View for SkippedStage {
    type V = ReasonedStageV;

    open spec fn view(&self) -> ReasonedStageV {
        ReasonedStageV { name: self.name@, reason: opt_str(self.reason) }
    }
}

impl Clone for SkippedStage {
    fn clone(&self) -> (r: Self)
        ensures
            r@ == self@,
    {
        SkippedStage { name: self.name.clone(), reason: clone_opt(&self.reason) }
    }
}

#[derive(Debug)]
pub struct DeferredStage {
    pub name: String,
    pub reason: Option<String>,
}

impl View for DeferredStage {
    type V = ReasonedStageV;

    open spec fn view(&self) -> ReasonedStageV {
        ReasonedStageV { name: self.name@, reason: opt_str(self.reason) }
    }
}

impl Clone for DeferredStage {
    fn clone(&self) -> (r: Self)
        ensures
            r@ == self@,
    {
        DeferredStage { name: self.name.clone(), reason: clone_opt(&self.reason) }
    }
}

#[derive(Debug)]
pub struct WorktreeInfo {
    pub branch: Option<String>,
    pub path: Option<String>,
}

pub ghost struct WorktreeInfoV {
    pub branch: Option<Seq<char>>,
    pub path: Option<Seq<char>>,
}

impl View for WorktreeInfo {
    type V = WorktreeInfoV;

    open spec fn view(&self) -> WorktreeInfoV {
        WorktreeInfoV { branch: opt_str(self.branch), path: opt_str(self.path) }
    }
}

impl Clone for WorktreeInfo {
    fn clone(&self) -> (r: Self)
        ensures
            r@ == self@,
    {
        WorktreeInfo { branch: clone_opt(&self.branch), path: clone_opt(&self.path) }
    }
}

impl Default for WorktreeInfo {
    fn default() -> (r: Self)
        ensures
            r@.branch is None,
            r@.path is None,
    {
        WorktreeInfo { branch: None, path: None }
    }
}

// ── Extra (non-standard) sections ──

/// One `## Section` of a state file that has no dedicated field.
#[derive(Debug)]
pub struct FieldEntry {
    pub key: String,
    pub value: String,
}

impl Clone for FieldEntry {
    fn clone(&self) -> (r: Self)
        ensures
            r.key@ == self.key@,
            r.value@ == self.value@,
    {
        FieldEntry { key: self.key.clone(), value: self.value.clone() }
    }
}

pub open spec fn entry_views(s: Seq<FieldEntry>) -> Seq<(Seq<char>, Seq<char>)> {
    s.map_values(|e: FieldEntry| (e.key@, e.value@))
}

/// The map that inserting each pair in order builds.
pub open spec fn map_of(s: Seq<(Seq<char>, Seq<char>)>) -> Map<Seq<char>, Seq<char>>
    decreases s.len(),
{
    if s.len() == 0 {
        Map::empty()
    } else {
        map_of(s.drop_last()).insert(s.last().0, s.last().1)
    }
}

pub open spec fn keys_distinct(s: Seq<(Seq<char>, Seq<char>)>) -> bool {
    forall|i: int, j: int| 0 <= i < j < s.len() ==> s[i].0 != s[j].0
}

pub proof fn lemma_map_of(s: Seq<(Seq<char>, Seq<char>)>)
    requires
        keys_distinct(s),
    ensures
        forall|i: int|
            0 <= i < s.len() ==> #[trigger] map_of(s).contains_key(s[i].0) && map_of(s)[s[i].0]
                == s[i].1,
        forall|k: Seq<char>| #[trigger]
            map_of(s).contains_key(k) ==> exists|i: int| 0 <= i < s.len() && s[i].0 == k,
    decreases s.len(),
{
    if s.len() > 0 {
        let t = s.drop_last();
        assert(keys_distinct(t)) by {
            assert forall|a: int, b: int| 0 <= a < b < t.len() implies t[a].0 != t[b].0 by {
                assert(t[a] == s[a]);
                assert(t[b] == s[b]);
            }
        }
        lemma_map_of(t);
        assert forall|i: int| 0 <= i < s.len() implies #[trigger] map_of(s).contains_key(s[i].0)
            && map_of(s)[s[i].0] == s[i].1 by {
            if i < s.len() - 1 {
                assert(t[i] == s[i]);
                assert(s[i].0 != s[s.len() - 1].0);
                assert(map_of(t).contains_key(t[i].0));
            }
        }
        assert forall|k: Seq<char>| #[trigger]
            map_of(s).contains_key(k) implies exists|i: int| 0 <= i < s.len() && s[i].0 == k by {
            if k != s.last().0 {
                assert(map_of(t).contains_key(k));
                let i = choose|i: int| 0 <= i < t.len() && t[i].0 == k;
                assert(s[i] == t[i]);
            } else {
                assert(s[s.len() - 1].0 == k);
            }
        }
    }
}

/// Sections of a state file without a dedicated field, by section name.
/// Behaves as a map: inserting an existing name replaces its value.
#[derive(Debug)]
pub struct ExtraFields {
    entries: Vec<FieldEntry>,
}

impl ExtraFields {
    #[verifier::type_invariant]
    spec fn keys_unique(self) -> bool {
        keys_distinct(entry_views(self.entries@))
    }

    pub closed spec fn as_map(self) -> Map<Seq<char>, Seq<char>> {
        map_of(entry_views(self.entries@))
    }

    pub fn new() -> (r: Self)
        ensures
            r@ == Map::<Seq<char>, Seq<char>>::empty(),
    {
        let r = ExtraFields { entries: Vec::new() };
        assert(entry_views(r.entries@) =~= Seq::empty());
        r
    }

    pub fn len(&self) -> (r: usize)
        ensures
            r == self@.dom().len(),
    {
        proof {
            use_type_invariant(self);
            self.lemma_dom_len();
        }
        self.entries.len()
    }

    pub fn is_empty(&self) -> (r: bool)
        ensures
            r == (self@ == Map::<Seq<char>, Seq<char>>::empty()),
    {
        proof {
            use_type_invariant(self);
            lemma_map_of(entry_views(self.entries@));
            if self.entries@.len() > 0 {
                let e = entry_views(self.entries@);
                assert(self@.contains_key(e[0].0));
            } else {
                assert(self@ =~= Map::<Seq<char>, Seq<char>>::empty());
            }
        }
        self.entries.len() == 0
    }

    proof fn lemma_dom_len(&self)
        requires
            keys_distinct(entry_views(self.entries@)),
        ensures
            self@.dom().finite(),
            self@.dom().len() == self.entries@.len(),
        decreases self.entries@.len(),
    {
        lemma_dom_len_of(entry_views(self.entries@));
    }

    /// The value stored under `key`.
    pub fn get(&self, key: &str) -> (r: Option<&String>)
        ensures
            match r {
                Some(v) => self@.contains_key(key@) && self@[key@] == v@,
                None => !self@.contains_key(key@),
            },
    {
        proof {
            use_type_invariant(self);
            lemma_map_of(entry_views(self.entries@));
        }
        let k = chars_of(key);
        let mut i: usize = 0;
        while i < self.entries.len()
            invariant
                i <= self.entries@.len(),
                k@ == key@,
                forall|j: int| 0 <= j < i ==> self.entries@[j].key@ != key@,
            decreases self.entries.len() - i,
        {
            let kc = chars_of(self.entries[i].key.as_str());
            if eq_chars(&kc, &k) {
                let ghost e = entry_views(self.entries@);
                proof {
                    use_type_invariant(self);
                    lemma_map_of(e);
                }
                assert(e[i as int].0 == key@);
                assert(map_of(e).contains_key(e[i as int].0));
                return Some(&self.entries[i].value);
            }
            i = i + 1;
        }
        proof {
            if self@.contains_key(key@) {
                let e = entry_views(self.entries@);
                let j = choose|j: int| 0 <= j < e.len() && e[j].0 == key@;
                assert(self.entries@[j].key@ == key@);
            }
        }
        None
    }

    /// Store `value` under `key`, replacing any earlier value.
    pub fn insert(&mut self, key: String, value: String)
        ensures
            final(self)@ == old(self)@.insert(key@, value@),
    {
        proof {
            use_type_invariant(&*self);
        }
        let k = chars_of(key.as_str());
        let ghost old_e = entry_views(self.entries@);
        let mut i: usize = 0;
        let mut found: Option<usize> = None;
        while i < self.entries.len()
            invariant
                i <= self.entries@.len(),
                entry_views(self.entries@) == old_e,
                k@ == key@,
                found is None ==> forall|j: int| 0 <= j < i ==> old_e[j].0 != key@,
                found matches Some(f) ==> f < self.entries@.len() && old_e[f as int].0 == key@,
            decreases self.entries.len() - i,
        {
            if found.is_none() {
                let kc = chars_of(self.entries[i].key.as_str());
                if eq_chars(&kc, &k) {
                    assert(old_e[i as int].0 == self.entries@[i as int].key@);
                    found = Some(i);
                }
            }
            i = i + 1;
        }
        let mut entries: Vec<FieldEntry> = Vec::new();
        core::mem::swap(&mut entries, &mut self.entries);
        let ghost mid: Seq<(Seq<char>, Seq<char>)>;
        match found {
            Some(f) => {
                entries.remove(f);
                proof {
                    mid = old_e.remove(f as int);
                    assert(entry_views(entries@) =~= mid);
                }
            },
            None => {
                proof {
                    mid = old_e;
                }
            },
        }
        let ghost new_pair = (key@, value@);
        entries.push(FieldEntry { key, value });
        proof {
            let ne = entry_views(entries@);
            assert(ne =~= mid.push(new_pair));
            assert forall|j: int| 0 <= j < mid.len() implies mid[j].0 != key@ by {
                match found {
                    Some(f) => {
                        if j < f {
                            assert(mid[j] == old_e[j]);
                        } else {
                            assert(mid[j] == old_e[j + 1]);
                        }
                    },
                    None => {},
                }
            }
            assert(keys_distinct(mid)) by {
                assert forall|a: int, b: int| 0 <= a < b < mid.len() implies mid[a].0 != mid[b].0 by {
                    match found {
                        Some(f) => {
                            let a2 = if a < f { a } else { a + 1 };
                            let b2 = if b < f { b } else { b + 1 };
                            assert(mid[a] == old_e[a2]);
                            assert(mid[b] == old_e[b2]);
                        },
                        None => {},
                    }
                }
            }
            assert(keys_distinct(ne));
            lemma_map_of(old_e);
            lemma_map_of(mid);
            lemma_map_of(ne);
            let target = map_of(old_e).insert(key@, value@);
            assert forall|kk: Seq<char>| #[trigger] map_of(ne).contains_key(kk) <==> target.contains_key(kk) by {
                if map_of(ne).contains_key(kk) && kk != key@ {
                    let j = choose|j: int| 0 <= j < ne.len() && ne[j].0 == kk;
                    match found {
                        Some(f) => {
                            let j2 = if j < f { j } else { j + 1 };
                            assert(old_e[j2] == mid[j]);
                            assert(map_of(old_e).contains_key(old_e[j2].0));
                        },
                        None => {
                            assert(map_of(old_e).contains_key(old_e[j].0));
                        },
                    }
                }
                if target.contains_key(kk) && kk != key@ {
                    let j = choose|j: int| 0 <= j < old_e.len() && old_e[j].0 == kk;
                    match found {
                        Some(f) => {
                            assert(j != f);
                            let j2 = if j < f { j } else { j - 1 };
                            assert(mid[j2] == old_e[j]);
                            assert(ne[j2] == mid[j2]);
                            assert(map_of(ne).contains_key(ne[j2].0));
                        },
                        None => {
                            assert(ne[j] == old_e[j]);
                            assert(map_of(ne).contains_key(ne[j].0));
                        },
                    }
                }
                if kk == key@ {
                    assert(ne[ne.len() - 1].0 == key@);
                    assert(map_of(ne).contains_key(ne[ne.len() - 1].0));
                }
            }
            assert forall|kk: Seq<char>| #[trigger] map_of(ne).contains_key(kk) implies map_of(ne)[kk]
                == target[kk] by {
                let j = choose|j: int| 0 <= j < ne.len() && ne[j].0 == kk;
                if kk == key@ {
                    assert(ne[ne.len() - 1].0 == key@);
                    if j != ne.len() - 1 {
                        assert(ne[j].0 != ne[ne.len() - 1].0);
                    }
                } else {
                    match found {
                        Some(f) => {
                            let j2 = if j < f { j } else { j + 1 };
                            assert(old_e[j2] == mid[j]);
                            assert(map_of(old_e)[old_e[j2].0] == old_e[j2].1);
                        },
                        None => {
                            assert(old_e[j] == ne[j]);
                            assert(map_of(old_e)[old_e[j].0] == old_e[j].1);
                        },
                    }
                }
            }
            assert(map_of(ne) =~= target);
        }
        self.entries = entries;
    }
}

proof fn lemma_dom_len_of(s: Seq<(Seq<char>, Seq<char>)>)
    requires
        keys_distinct(s),
    ensures
        map_of(s).dom().finite(),
        map_of(s).dom().len() == s.len(),
    decreases s.len(),
{
    if s.len() > 0 {
        let t = s.drop_last();
        assert(keys_distinct(t));
        lemma_dom_len_of(t);
        lemma_map_of(t);
        if map_of(t).contains_key(s.last().0) {
            let i = choose|i: int| 0 <= i < t.len() && t[i].0 == s.last().0;
            assert(s[i].0 == s[s.len() - 1].0);
        }
    }
}

impl View for ExtraFields {
    type V = Map<Seq<char>, Seq<char>>;

    open spec fn view(&self) -> Map<Seq<char>, Seq<char>> {
        self.as_map()
    }
}

impl Clone for ExtraFields {
    fn clone(&self) -> (r: Self)
        ensures
            r@ == self@,
    {
        proof {
            use_type_invariant(self);
        }
        let entries = self.entries.clone();
        assert(entry_views(entries@) =~= entry_views(self.entries@));
        ExtraFields { entries }
    }
}

impl Default for ExtraFields {
    fn default() -> (r: Self)
        ensures
            r@ == Map::<Seq<char>, Seq<char>>::empty(),
    {
        ExtraFields::new()
    }
}

// ── FlowState ──

/// Parsed `devflow-state.md`.
#[derive(Debug)]
pub struct FlowState {
    pub phase: Phase,
    pub stage: String,
    pub complexity: Complexity,
    pub selected_approach: Option<String>,
    pub completed_stages: Vec<CompletedStage>,
    pub approved_stages: Vec<ApprovedStage>,
    pub skipped_stages: Vec<SkippedStage>,
    pub deferred_stages: Vec<DeferredStage>,
    pub active_unit: Option<String>,
    pub completed_units: Vec<String>,
    pub worktree: WorktreeInfo,
    pub extra_fields: ExtraFields,
}

pub ghost struct FlowStateV {
    pub phase: Phase,
    pub stage: Seq<char>,
    pub complexity: Complexity,
    pub selected_approach: Option<Seq<char>>,
    pub completed_stages: Seq<CompletedStageV>,
    pub approved_stages: Seq<ApprovedStageV>,
    pub skipped_stages: Seq<ReasonedStageV>,
    pub deferred_stages: Seq<ReasonedStageV>,
    pub active_unit: Option<Seq<char>>,
    pub completed_units: Seq<Seq<char>>,
    pub worktree: WorktreeInfoV,
    pub extra_fields: Map<Seq<char>, Seq<char>>,
}

pub open spec fn completed_views(v: Seq<CompletedStage>) -> Seq<CompletedStageV> {
    v.map_values(|c: CompletedStage| c@)
}

pub open spec fn approved_views(v: Seq<ApprovedStage>) -> Seq<ApprovedStageV> {
    v.map_values(|c: ApprovedStage| c@)
}

pub open spec fn skipped_views(v: Seq<SkippedStage>) -> Seq<ReasonedStageV> {
    v.map_values(|c: SkippedStage| c@)
}

pub open spec fn deferred_views(v: Seq<DeferredStage>) -> Seq<ReasonedStageV> {
    v.map_values(|c: DeferredStage| c@)
}

impl View for FlowState {
    type V = FlowStateV;

    open spec fn view(&self) -> FlowStateV {
        FlowStateV {
            phase: self.phase,
            stage: self.stage@,
            complexity: self.complexity,
            selected_approach: opt_str(self.selected_approach),
            completed_stages: completed_views(self.completed_stages@),
            approved_stages: approved_views(self.approved_stages@),
            skipped_stages: skipped_views(self.skipped_stages@),
            deferred_stages: deferred_views(self.deferred_stages@),
            active_unit: opt_str(self.active_unit),
            completed_units: str_views(self.completed_units@),
            worktree: self.worktree@,
            extra_fields: self.extra_fields@,
        }
    }
}

/// The state of an empty file: every field at its default.
pub open spec fn default_flow_state() -> FlowStateV {
    FlowStateV {
        phase: Phase::Inception,
        stage: Seq::empty(),
        complexity: Complexity::Standard,
        selected_approach: None,
        completed_stages: Seq::empty(),
        approved_stages: Seq::empty(),
        skipped_stages: Seq::empty(),
        deferred_stages: Seq::empty(),
        active_unit: None,
        completed_units: Seq::empty(),
        worktree: WorktreeInfoV { branch: None, path: None },
        extra_fields: Map::empty(),
    }
}

impl Default for FlowState {
    fn default() -> (r: Self)
        ensures
            r@ == default_flow_state(),
    {
        let r = FlowState {
            phase: Phase::Inception,
            stage: String::new(),
            complexity: Complexity::Standard,
            selected_approach: None,
            completed_stages: Vec::new(),
            approved_stages: Vec::new(),
            skipped_stages: Vec::new(),
            deferred_stages: Vec::new(),
            active_unit: None,
            completed_units: Vec::new(),
            worktree: WorktreeInfo::default(),
            extra_fields: ExtraFields::new(),
        };
        assert(r@.completed_stages =~= Seq::<CompletedStageV>::empty());
        assert(r@.approved_stages =~= Seq::<ApprovedStageV>::empty());
        assert(r@.skipped_stages =~= Seq::<ReasonedStageV>::empty());
        assert(r@.deferred_stages =~= Seq::<ReasonedStageV>::empty());
        assert(r@.completed_units =~= Seq::<Seq<char>>::empty());
        r
    }
}

impl Clone for FlowState {
    fn clone(&self) -> (r: Self)
        ensures
            r@ == self@,
    {
        let completed_stages = self.completed_stages.clone();
        let approved_stages = self.approved_stages.clone();
        let skipped_stages = self.skipped_stages.clone();
        let deferred_stages = self.deferred_stages.clone();
        let r = FlowState {
            phase: self.phase,
            stage: self.stage.clone(),
            complexity: self.complexity,
            selected_approach: clone_opt(&self.selected_approach),
            completed_stages,
            approved_stages,
            skipped_stages,
            deferred_stages,
            active_unit: clone_opt(&self.active_unit),
            completed_units: clone_strings(&self.completed_units),
            worktree: self.worktree.clone(),
            extra_fields: self.extra_fields.clone(),
        };
        assert(r@.completed_stages =~= self@.completed_stages);
        assert(r@.approved_stages =~= self@.approved_stages);
        assert(r@.skipped_stages =~= self@.skipped_stages);
        assert(r@.deferred_stages =~= self@.deferred_stages);
        r
    }
}

// ── SessionSummary ──

#[derive(Debug)]
pub struct WorkItem {
    pub text: String,
    pub marker: WorkMarker,
}

pub ghost struct WorkItemV {
    pub text: Seq<char>,
    pub marker: WorkMarker,
}

impl View for WorkItem {
    type V = WorkItemV;

    open spec fn view(&self) -> WorkItemV {
        WorkItemV { text: self.text@, marker: self.marker }
    }
}

impl Clone for WorkItem {
    fn clone(&self) -> (r: Self)
        ensures
            r@ == self@,
    {
        WorkItem { text: self.text.clone(), marker: self.marker }
    }
}

pub open spec fn work_item_views(v: Seq<WorkItem>) -> Seq<WorkItemV> {
    v.map_values(|w: WorkItem| w@)
}

/// Parsed `session-summary.md`.
#[derive(Debug)]
pub struct SessionSummary {
    pub last_updated: Option<String>,
    pub commit: Option<String>,
    pub phase: Option<Phase>,
    pub stage: Option<String>,
    pub complexity: Option<Complexity>,
    pub key_decisions: Vec<String>,
    pub completed_work: Vec<WorkItem>,
    pub next_steps: Vec<String>,
    pub for_next_session: Vec<String>,
}

pub ghost struct SessionSummaryV {
    pub last_updated: Option<Seq<char>>,
    pub commit: Option<Seq<char>>,
    pub phase: Option<Phase>,
    pub stage: Option<Seq<char>>,
    pub complexity: Option<Complexity>,
    pub key_decisions: Seq<Seq<char>>,
    pub completed_work: Seq<WorkItemV>,
    pub next_steps: Seq<Seq<char>>,
    pub for_next_session: Seq<Seq<char>>,
}

impl View for SessionSummary {
    type V = SessionSummaryV;

    open spec fn view(&self) -> SessionSummaryV {
        SessionSummaryV {
            last_updated: opt_str(self.last_updated),
            commit: opt_str(self.commit),
            phase: self.phase,
            stage: opt_str(self.stage),
            complexity: self.complexity,
            key_decisions: str_views(self.key_decisions@),
            completed_work: work_item_views(self.completed_work@),
            next_steps: str_views(self.next_steps@),
            for_next_session: str_views(self.for_next_session@),
        }
    }
}

pub open spec fn default_session_summary() -> SessionSummaryV {
    SessionSummaryV {
        last_updated: None,
        commit: None,
        phase: None,
        stage: None,
        complexity: None,
        key_decisions: Seq::empty(),
        completed_work: Seq::empty(),
        next_steps: Seq::empty(),
        for_next_session: Seq::empty(),
    }
}

impl Default for SessionSummary {
    fn default() -> (r: Self)
        ensures
            r@ == default_session_summary(),
    {
        let r = SessionSummary {
            last_updated: None,
            commit: None,
            phase: None,
            stage: None,
            complexity: None,
            key_decisions: Vec::new(),
            completed_work: Vec::new(),
            next_steps: Vec::new(),
            for_next_session: Vec::new(),
        };
        assert(r@.key_decisions =~= Seq::<Seq<char>>::empty());
        assert(r@.completed_work =~= Seq::<WorkItemV>::empty());
        assert(r@.next_steps =~= Seq::<Seq<char>>::empty());
        assert(r@.for_next_session =~= Seq::<Seq<char>>::empty());
        r
    }
}

impl Clone for SessionSummary {
    fn clone(&self) -> (r: Self)
        ensures
            r@ == self@,
    {
        let completed_work = self.completed_work.clone();
        let r = SessionSummary {
            last_updated: clone_opt(&self.last_updated),
            commit: clone_opt(&self.commit),
            phase: self.phase,
            stage: clone_opt(&self.stage),
            complexity: self.complexity,
            key_decisions: clone_strings(&self.key_decisions),
            completed_work,
            next_steps: clone_strings(&self.next_steps),
            for_next_session: clone_strings(&self.for_next_session),
        };
        assert(r@.completed_work =~= self@.completed_work);
        r
    }
}

// ── AuditEntry ──

/// One entry of the audit log. Brief entries keep their source line in
/// `raw_line`; detailed entries have an empty `raw_line`; unrecognised
/// lines have only `raw_line`.
#[derive(Debug)]
pub struct AuditEntry {
    pub timestamp: Option<String>,
    pub stage: Option<String>,
    pub choice: Option<String>,
    pub raw_line: String,
}

pub ghost struct AuditEntryV {
    pub timestamp: Option<Seq<char>>,
    pub stage: Option<Seq<char>>,
    pub choice: Option<Seq<char>>,
    pub raw_line: Seq<char>,
}

impl View for AuditEntry {
    type V = AuditEntryV;

    open spec fn view(&self) -> AuditEntryV {
        AuditEntryV {
            timestamp: opt_str(self.timestamp),
            stage: opt_str(self.stage),
            choice: opt_str(self.choice),
            raw_line: self.raw_line@,
        }
    }
}

impl Clone for AuditEntry {
    fn clone(&self) -> (r: Self)
        ensures
            r@ == self@,
    {
        AuditEntry {
            timestamp: clone_opt(&self.timestamp),
            stage: clone_opt(&self.stage),
            choice: clone_opt(&self.choice),
            raw_line: self.raw_line.clone(),
        }
    }
}

pub open spec fn audit_views(v: Seq<AuditEntry>) -> Seq<AuditEntryV> {
    v.map_values(|e: AuditEntry| e@)
}

// ── ArtifactFile ──

/// A markdown file under the docs directory: its path and display name.
#[derive(Debug)]
pub struct ArtifactFile {
    pub path: String,
    pub name: String,
}

pub ghost struct ArtifactFileV {
    pub path: Seq<char>,
    pub name: Seq<char>,
}

impl View for ArtifactFile {
    type V = ArtifactFileV;

    open spec fn view(&self) -> ArtifactFileV {
        ArtifactFileV { path: self.path@, name: self.name@ }
    }
}

impl Clone for ArtifactFile {
    fn clone(&self) -> (r: Self)
        ensures
            r@ == self@,
    {
        ArtifactFile { path: self.path.clone(), name: self.name.clone() }
    }
}

pub open spec fn artifact_views(v: Seq<ArtifactFile>) -> Seq<ArtifactFileV> {
    v.map_values(|a: ArtifactFile| a@)
}

// ── Git Models ──

#[derive(Debug, Clone, Copy, PartialEq, Eq, Structural)]
pub enum GitChangeStatus {
    Staged,
    Unstaged,
    Untracked,
    Conflict,
}

#[derive(Debug)]
pub struct GitChange {
    pub status: GitChangeStatus,
    pub path: String,
    pub additions: Option<u32>,
    pub deletions: Option<u32>,
}

pub ghost struct GitChangeV {
    pub status: GitChangeStatus,
    pub path: Seq<char>,
    pub additions: Option<u32>,
    pub deletions: Option<u32>,
}

impl View for GitChange {
    type V = GitChangeV;

    open spec fn view(&self) -> GitChangeV {
        GitChangeV {
            status: self.status,
            path: self.path@,
            additions: self.additions,
            deletions: self.deletions,
        }
    }
}

impl Clone for GitChange {
    fn clone(&self) -> (r: Self)
        ensures
            r@ == self@,
    {
        GitChange {
            status: self.status,
            path: self.path.clone(),
            additions: self.additions,
            deletions: self.deletions,
        }
    }
}

#[derive(Debug)]
pub struct GitCommit {
    pub hash: String,
    pub message: String,
}

pub ghost struct GitCommitV {
    pub hash: Seq<char>,
    pub message: Seq<char>,
}

impl View for GitCommit {
    type V = GitCommitV;

    open spec fn view(&self) -> GitCommitV {
        GitCommitV { hash: self.hash@, message: self.message@ }
    }
}

impl Clone for GitCommit {
    fn clone(&self) -> (r: Self)
        ensures
            r@ == self@,
    {
        GitCommit { hash: self.hash.clone(), message: self.message.clone() }
    }
}

#[derive(Debug)]
pub struct GitWorktree {
    pub path: String,
    pub branch: Option<String>,
    pub is_current: bool,
}

pub ghost struct GitWorktreeV {
    pub path: Seq<char>,
    pub branch: Option<Seq<char>>,
    pub is_current: bool,
}

impl View for GitWorktree {
    type V = GitWorktreeV;

    open spec fn view(&self) -> GitWorktreeV {
        GitWorktreeV { path: self.path@, branch: opt_str(self.branch), is_current: self.is_current }
    }
}

impl Clone for GitWorktree {
    fn clone(&self) -> (r: Self)
        ensures
            r@ == self@,
    {
        GitWorktree {
            path: self.path.clone(),
            branch: clone_opt(&self.branch),
            is_current: self.is_current,
        }
    }
}

#[derive(Debug, Clone, Copy, PartialEq, Eq, Structural)]
pub struct DiffStat {
    pub additions: u32,
    pub deletions: u32,
}

impl Default for DiffStat {
    fn default() -> (r: Self)
        ensures
            r.additions == 0,
            r.deletions == 0,
    {
        DiffStat { additions: 0, deletions: 0 }
    }
}

pub open spec fn change_views(v: Seq<GitChange>) -> Seq<GitChangeV> {
    v.map_values(|c: GitChange| c@)
}

pub open spec fn commit_views(v: Seq<GitCommit>) -> Seq<GitCommitV> {
    v.map_values(|c: GitCommit| c@)
}

pub open spec fn worktree_views(v: Seq<GitWorktree>) -> Seq<GitWorktreeV> {
    v.map_values(|w: GitWorktree| w@)
}

/// Everything one git poll learns about the repository.
#[derive(Debug)]
pub struct GitSnapshot {
    pub branch: String,
    pub head: String,
    pub changes: Vec<GitChange>,
    pub commits: Vec<GitCommit>,
    pub worktrees: Vec<GitWorktree>,
    pub diff_stat: DiffStat,
}

pub ghost struct GitSnapshotV {
    pub branch: Seq<char>,
    pub head: Seq<char>,
    pub changes: Seq<GitChangeV>,
    pub commits: Seq<GitCommitV>,
    pub worktrees: Seq<GitWorktreeV>,
    pub diff_stat: DiffStat,
}

impl View for GitSnapshot {
    type V = GitSnapshotV;

    open spec fn view(&self) -> GitSnapshotV {
        GitSnapshotV {
            branch: self.branch@,
            head: self.head@,
            changes: change_views(self.changes@),
            commits: commit_views(self.commits@),
            worktrees: worktree_views(self.worktrees@),
            diff_stat: self.diff_stat,
        }
    }
}

/// The snapshot before any poll: everything empty.
pub open spec fn default_git_snapshot() -> GitSnapshotV {
    GitSnapshotV {
        branch: Seq::empty(),
        head: Seq::empty(),
        changes: Seq::empty(),
        commits: Seq::empty(),
        worktrees: Seq::empty(),
        diff_stat: DiffStat { additions: 0, deletions: 0 },
    }
}

impl Default for GitSnapshot {
    fn default() -> (r: Self)
        ensures
            r@ == default_git_snapshot(),
    {
        let r = GitSnapshot {
            branch: String::new(),
            head: String::new(),
            changes: Vec::new(),
            commits: Vec::new(),
            worktrees: Vec::new(),
            diff_stat: DiffStat::default(),
        };
        assert(r@.changes =~= Seq::<GitChangeV>::empty());
        assert(r@.commits =~= Seq::<GitCommitV>::empty());
        assert(r@.worktrees =~= Seq::<GitWorktreeV>::empty());
        r
    }
}

impl Clone for GitSnapshot {
    fn clone(&self) -> (r: Self)
        ensures
            r@ == self@,
    {
        let changes = self.changes.clone();
        let commits = self.commits.clone();
        let worktrees = self.worktrees.clone();
        let r = GitSnapshot {
            branch: self.branch.clone(),
            head: self.head.clone(),
            changes,
            commits,
            worktrees,
            diff_stat: self.diff_stat,
        };
        assert(r@.changes =~= self@.changes);
        assert(r@.commits =~= self@.commits);
        assert(r@.worktrees =~= self@.worktrees);
        r
    }
}

// ── Token usage ──

/// Token counts of one assistant turn, or their running totals.
#[derive(Debug, Clone, Copy, PartialEq, Eq, Structural)]
pub struct TokenRecord {
    pub input_tokens: u64,
    pub output_tokens: u64,
    pub cache_creation_input_tokens: u64,
    pub cache_read_input_tokens: u64,
}

/// `a + b`, or `u64::MAX` where that does not fit.
pub open spec fn sat_add(a: int, b: int) -> int {
    if a + b > u64::MAX {
        u64::MAX as int
    } else {
        a + b
    }
}

/// Tokens one turn consumed: input, output and cache creation (cache reads excluded).
pub open spec fn record_total(r: TokenRecord) -> int {
    sat_add(sat_add(r.input_tokens as int, r.output_tokens as int), r.cache_creation_input_tokens as int)
}

impl Default for TokenRecord {
    fn default() -> (r: Self)
        ensures
            r == (TokenRecord {
                input_tokens: 0,
                output_tokens: 0,
                cache_creation_input_tokens: 0,
                cache_read_input_tokens: 0,
            }),
    {
        TokenRecord {
            input_tokens: 0,
            output_tokens: 0,
            cache_creation_input_tokens: 0,
            cache_read_input_tokens: 0,
        }
    }
}

impl TokenRecord {
    /// Input + output + cache-creation tokens, saturating at `u64::MAX`.
    pub fn total(&self) -> (r: u64)
        ensures
            r == record_total(*self),
    {
        self.input_tokens.saturating_add(self.output_tokens).saturating_add(
            self.cache_creation_input_tokens,
        )
    }
}

/// Tokens of one turn and when it happened, as the date-time library gives
/// it: whole seconds since the Unix epoch and nanoseconds past that second
/// (at or above 10^9 during a leap second).
#[derive(Debug, Clone, Copy, PartialEq, Eq, Structural)]
pub struct TimestampedTokens {
    pub secs: i64,
    pub nanos: u32,
    pub tokens: u64,
}

/// Running token usage of a session.
#[derive(Debug)]
pub struct TokenSnapshot {
    pub cumulative: TokenRecord,
    pub turn_count: u32,
    pub recent_turns: Vec<TimestampedTokens>,
}

pub ghost struct TokenSnapshotV {
    pub cumulative: TokenRecord,
    pub turn_count: u32,
    pub recent_turns: Seq<TimestampedTokens>,
}

impl View for TokenSnapshot {
    type V = TokenSnapshotV;

    open spec fn view(&self) -> TokenSnapshotV {
        TokenSnapshotV {
            cumulative: self.cumulative,
            turn_count: self.turn_count,
            recent_turns: self.recent_turns@,
        }
    }
}

impl Default for TokenSnapshot {
    fn default() -> (r: Self)
        ensures
            r@.cumulative == (TokenRecord {
                input_tokens: 0,
                output_tokens: 0,
                cache_creation_input_tokens: 0,
                cache_read_input_tokens: 0,
            }),
            r@.turn_count == 0,
            r@.recent_turns.len() == 0,
    {
        TokenSnapshot { cumulative: TokenRecord::default(), turn_count: 0, recent_turns: Vec::new() }
    }
}

impl Clone for TokenSnapshot {
    fn clone(&self) -> (r: Self)
        ensures
            r@ == self@,
    {
        let recent_turns = self.recent_turns.clone();
        assert(recent_turns@ =~= self.recent_turns@);
        TokenSnapshot { cumulative: self.cumulative, turn_count: self.turn_count, recent_turns }
    }
}

impl TokenSnapshot {
    /// Billable tokens: input + cache creation + output, saturating.
    pub fn total_billable(&self) -> (r: u64)
        ensures
            r == sat_add(
                sat_add(
                    self.cumulative.input_tokens as int,
                    self.cumulative.cache_creation_input_tokens as int,
                ),
                self.cumulative.output_tokens as int,
            ),
    {
        self.cumulative.input_tokens.saturating_add(
            self.cumulative.cache_creation_input_tokens,
        ).saturating_add(self.cumulative.output_tokens)
    }

    /// All input tokens, cached or not: input + cache creation + cache read, saturating.
    pub fn total_input_display(&self) -> (r: u64)
        ensures
            r == sat_add(
                sat_add(
                    self.cumulative.input_tokens as int,
                    self.cumulative.cache_creation_input_tokens as int,
                ),
                self.cumulative.cache_read_input_tokens as int,
            ),
    {
        self.cumulative.input_tokens.saturating_add(
            self.cumulative.cache_creation_input_tokens,
        ).saturating_add(self.cumulative.cache_read_input_tokens)
    }
}

} // verus!
