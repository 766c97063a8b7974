//! Layout mode selection by terminal size, and the screen areas of each
//! mode as the terminal library's layout solver divides them.

use vstd::prelude::*;

verus! {

/// Layout mode determined by terminal size.
#[derive(Debug, Clone, Copy, PartialEq, Eq, Structural)]
pub enum LayoutMode {
    /// Under 80 columns or 24 rows.
    TooSmall,
    /// From 80x24 up to 119 columns or 29 rows.
    Compact,
    /// From 120x30 up to 199 columns or 49 rows.
    Standard,
    /// 200x50 and larger.
    Wide,
}

/// The mode for a `width` x `height` terminal: the largest whose minimum
/// size (80x24, 120x30, 200x50) both dimensions reach.
pub open spec fn mode_for(width: int, height: int) -> LayoutMode {
    if width < 80 || height < 24 {
        LayoutMode::TooSmall
    } else if width < 120 || height < 30 {
        LayoutMode::Compact
    } else if width < 200 || height < 50 {
        LayoutMode::Standard
    } else {
        LayoutMode::Wide
    }
}

/// Modes ordered from smallest to largest.
pub open spec fn mode_rank(m: LayoutMode) -> int {
    match m {
        LayoutMode::TooSmall => 0,
        LayoutMode::Compact => 1,
        LayoutMode::Standard => 2,
        LayoutMode::Wide => 3,
    }
}

/// Growing the terminal never selects a smaller layout.
pub proof fn lemma_mode_monotone(w1: int, h1: int, w2: int, h2: int)
    requires
        w1 <= w2,
        h1 <= h2,
    ensures
        mode_rank(mode_for(w1, h1)) <= mode_rank(mode_for(w2, h2)),
{
}

/// Tracks the terminal size and derives the layout mode from it.
pub struct LayoutManager {
    width: u16,
    height: u16,
}

impl LayoutManager {
    pub closed spec fn width_spec(&self) -> u16 {
        self.width
    }

    pub closed spec fn height_spec(&self) -> u16 {
        self.height
    }

    pub fn new(width: u16, height: u16) -> (r: Self)
        ensures
            r.width_spec() == width,
            r.height_spec() == height,
    {
        LayoutManager { width, height }
    }

    pub fn on_resize(&mut self, width: u16, height: u16)
        ensures
            final(self).width_spec() == width,
            final(self).height_spec() == height,
    {
        self.width = width;
        self.height = height;
    }

    pub fn mode(&self) -> (r: LayoutMode)
        ensures
            r == mode_for(self.width_spec() as int, self.height_spec() as int),
    {
        if self.width < 80 || self.height < 24 {
            LayoutMode::TooSmall
        } else if self.width < 120 || self.height < 30 {
            LayoutMode::Compact
        } else if self.width < 200 || self.height < 50 {
            LayoutMode::Standard
        } else {
            LayoutMode::Wide
        }
    }

    /// Terminal width in columns.
    pub fn width(&self) -> (r: u16)
        ensures
            r == self.width_spec(),
    {
        self.width
    }

    /// Terminal height in rows.
    pub fn height(&self) -> (r: u16)
        ensures
            r == self.height_spec(),
    {
        self.height
    }
}

// ---------------------------------------------------------------------
// Screen areas
// ---------------------------------------------------------------------

/// A rectangle of terminal cells.
#[derive(Debug, Clone, Copy, PartialEq, Eq, Structural)]
pub struct Area {
    pub x: u16,
    pub y: u16,
    pub width: u16,
    pub height: u16,
}

/// How much of an area a part asks for.
#[derive(Debug, Clone, Copy, PartialEq, Eq, Structural)]
pub enum Constraint {
    /// Exactly this many cells.
    Length(u16),
    /// This percentage of the area.
    Percentage(u16),
    /// A share of what the other parts leave.
    Fill(u16),
}

/// The length that ratatui's `Rect::new` keeps of a side starting at
/// `start`: shortened so that the far edge stays within `u16`.
pub open spec fn fit_len(start: u16, len: u16) -> u16 {
    if start + len > u16::MAX {
        (u16::MAX - start) as u16
    } else {
        len
    }
}

/// `a` lies inside `b` as `Rect::new` keeps `b` (see `fit_len`).
pub open spec fn within(a: Area, b: Area) -> bool {
    &&& b.x <= a.x
    &&& a.x + a.width <= b.x + fit_len(b.x, b.width)
    &&& b.y <= a.y
    &&& a.y + a.height <= b.y + fit_len(b.y, b.height)
}

/// `a` spans all of `b`'s rows: same top row, same height (as kept by `Rect::new`).
pub open spec fn spans_rows(a: Area, b: Area) -> bool {
    a.y == b.y && a.height == fit_len(b.y, b.height)
}

/// `a` spans all of `b`'s columns: same left column, same width (as kept by `Rect::new`).
pub open spec fn spans_columns(a: Area, b: Area) -> bool {
    a.x == b.x && a.width == fit_len(b.x, b.width)
}

/// What a constraint asks of an axis `len` cells long, in hundredths of a
/// cell (the unit of the layout solver): a length, a percentage of the
/// axis, or nothing fixed for a fill.
pub open spec fn fixed_size(c: Constraint, len: int) -> int {
    match c {
        Constraint::Length(n) => 100 * n,
        Constraint::Percentage(p) => p * len,
        Constraint::Fill(_) => 0,
    }
}

/// What the lengths and percentages of `cs` ask together, in hundredths.
pub open spec fn fixed_total(cs: Seq<Constraint>, len: int) -> int
    decreases cs.len(),
{
    if cs.len() == 0 {
        0
    } else {
        fixed_total(cs.drop_last(), len) + fixed_size(cs.last(), len)
    }
}

/// How many fills `cs` holds.
pub open spec fn fill_count(cs: Seq<Constraint>) -> nat
    decreases cs.len(),
{
    if cs.len() == 0 {
        0
    } else {
        fill_count(cs.drop_last()) + if cs.last() is Fill { 1nat } else { 0nat }
    }
}

/// The size part `i` gets, in hundredths: its length or percentage, or,
/// for a fill, what the others leave of the axis.
pub open spec fn part_size(cs: Seq<Constraint>, i: int, len: int) -> int {
    if cs[i] is Fill {
        100 * len - fixed_total(cs, len)
    } else {
        fixed_size(cs[i], len)
    }
}

/// Where part `k` starts (and part `k - 1` ends), in hundredths from the
/// start of the axis: the sizes of the parts before it, in order.
pub open spec fn edge(cs: Seq<Constraint>, k: int, len: int) -> int
    decreases k,
{
    if k <= 0 {
        0
    } else {
        edge(cs, k - 1, len) + part_size(cs, k - 1, len)
    }
}

/// The constraints can all be met on an axis of `len` cells: at most one
/// fill, and the lengths and percentages fit.
pub open spec fn solvable(cs: Seq<Constraint>, len: int) -> bool {
    fill_count(cs) <= 1 && fixed_total(cs, len) <= 100 * len
}

/// A cell boundary at `cells` is the nearest one to `hundredths`.
pub open spec fn near(cells: int, hundredths: int) -> bool {
    -50 <= 100 * cells - hundredths <= 50
}

/// Where the parts of a split lie along the axis, when the constraints can
/// all be met: each part's edges are the cell boundaries nearest to where
/// the constraints put them (`edge`), and each part starts where the one
/// before it ends.
pub open spec fn parts_placed(starts: Seq<int>, ends: Seq<int>, cs: Seq<Constraint>, len: int) -> bool {
    &&& forall|i: int| 0 <= i < starts.len() ==> near(#[trigger] starts[i], edge(cs, i, len))
    &&& forall|i: int| 0 <= i < ends.len() ==> near(#[trigger] ends[i], edge(cs, i + 1, len))
    &&& forall|i: int| 0 <= i < ends.len() - 1 ==> #[trigger] ends[i] == starts[i + 1]
}

/// Offsets of the parts' left edges from the area's left edge.
pub open spec fn left_offsets(r: Seq<Area>, area: Area) -> Seq<int> {
    Seq::new(r.len(), |i: int| r[i].x - area.x)
}

/// Offsets of the parts' right edges from the area's left edge.
pub open spec fn right_offsets(r: Seq<Area>, area: Area) -> Seq<int> {
    Seq::new(r.len(), |i: int| r[i].x + r[i].width - area.x)
}

/// Offsets of the parts' top edges from the area's top edge.
pub open spec fn top_offsets(r: Seq<Area>, area: Area) -> Seq<int> {
    Seq::new(r.len(), |i: int| r[i].y - area.y)
}

/// Offsets of the parts' bottom edges from the area's top edge.
pub open spec fn bottom_offsets(r: Seq<Area>, area: Area) -> Seq<int> {
    Seq::new(r.len(), |i: int| r[i].y + r[i].height - area.y)
}

/// `ratatui::layout::Layout::horizontal(..).split(..)` on
/// `Rect::new(area..)`, with the default flex (`Start`) and no spacing.
/// Trusted: one part per constraint, each spanning the area's rows and
/// lying within its columns (required solver constraints keep every edge
/// between the area's edges). Where the constraints can all be met
/// (`solvable`), the parts lie side by side in order and each edge is the
/// cell boundary nearest to where the constraints put it: lengths and
/// percentages are strong constraints that the solver meets exactly, a
/// single fill (medium strength) takes what is left before the trailing
/// spacer (weaker) can, and each edge is rounded to the nearest cell.
/// Where they cannot all be met, the solver's compromise is not stated.
#[verifier::external_body]
fn split_horizontal(area: Area, constraints: &Vec<Constraint>) -> (r: Vec<Area>)
    ensures
        r@.len() == constraints@.len(),
        forall|i: int| 0 <= i < r@.len() ==> spans_rows(#[trigger] r@[i], area) && within(r@[i], area),
        solvable(constraints@, fit_len(area.x, area.width) as int) ==> parts_placed(
            left_offsets(r@, area),
            right_offsets(r@, area),
            constraints@,
            fit_len(area.x, area.width) as int,
        ),
{
    let cs = constraints.iter().map(|c| match *c {
        Constraint::Length(n) => ratatui::layout::Constraint::Length(n),
        Constraint::Percentage(n) => ratatui::layout::Constraint::Percentage(n),
        Constraint::Fill(n) => ratatui::layout::Constraint::Fill(n),
    });
    let rect = ratatui::layout::Rect::new(area.x, area.y, area.width, area.height);
    let parts = ratatui::layout::Layout::horizontal(cs).split(rect);
    parts.iter().map(|r| Area { x: r.x, y: r.y, width: r.width, height: r.height }).collect()
}

/// `ratatui::layout::Layout::vertical(..).split(..)` on
/// `Rect::new(area..)`, with the default flex (`Start`) and no spacing.
/// Trusted: one part per constraint, each spanning the area's columns and
/// lying within its rows. Where the constraints can all be met
/// (`solvable`), the parts lie one below the other in order and each edge
/// is the cell boundary nearest to where the constraints put it (as for
/// `split_horizontal`). Where they cannot all be met, the solver's
/// compromise is not stated.
#[verifier::external_body]
fn split_vertical(area: Area, constraints: &Vec<Constraint>) -> (r: Vec<Area>)
    ensures
        r@.len() == constraints@.len(),
        forall|i: int| 0 <= i < r@.len() ==> spans_columns(#[trigger] r@[i], area) && within(r@[i], area),
        solvable(constraints@, fit_len(area.y, area.height) as int) ==> parts_placed(
            top_offsets(r@, area),
            bottom_offsets(r@, area),
            constraints@,
            fit_len(area.y, area.height) as int,
        ),
{
    let cs = constraints.iter().map(|c| match *c {
        Constraint::Length(n) => ratatui::layout::Constraint::Length(n),
        Constraint::Percentage(n) => ratatui::layout::Constraint::Percentage(n),
        Constraint::Fill(n) => ratatui::layout::Constraint::Fill(n),
    });
    let rect = ratatui::layout::Rect::new(area.x, area.y, area.width, area.height);
    let parts = ratatui::layout::Layout::vertical(cs).split(rect);
    parts.iter().map(|r| Area { x: r.x, y: r.y, width: r.width, height: r.height }).collect()
}

/// Sizes and edges of three constraints.
proof fn lemma_three_edges(a: Constraint, b: Constraint, c: Constraint, len: int)
    ensures
        fixed_total(seq![a, b, c], len) == fixed_size(a, len) + fixed_size(b, len) + fixed_size(c, len),
        fill_count(seq![a, b, c]) == (if a is Fill { 1nat } else { 0nat }) + (if b is Fill { 1nat } else { 0nat }) + (
        if c is Fill { 1nat } else { 0nat }),
        edge(seq![a, b, c], 0, len) == 0,
        edge(seq![a, b, c], 1, len) == part_size(seq![a, b, c], 0, len),
        edge(seq![a, b, c], 2, len) == part_size(seq![a, b, c], 0, len) + part_size(seq![a, b, c], 1, len),
        edge(seq![a, b, c], 3, len) == part_size(seq![a, b, c], 0, len) + part_size(seq![a, b, c], 1, len)
            + part_size(seq![a, b, c], 2, len),
{
    let s = seq![a, b, c];
    assert(s.drop_last() =~= seq![a, b]);
    assert(seq![a, b].drop_last() =~= seq![a]);
    assert(seq![a].drop_last() =~= Seq::<Constraint>::empty());
    reveal_with_fuel(fixed_total, 4);
    reveal_with_fuel(fill_count, 4);
    reveal_with_fuel(edge, 4);
}

/// Sizes and edges of two constraints.
proof fn lemma_two_edges(a: Constraint, b: Constraint, len: int)
    ensures
        fixed_total(seq![a, b], len) == fixed_size(a, len) + fixed_size(b, len),
        fill_count(seq![a, b]) == (if a is Fill { 1nat } else { 0nat }) + (if b is Fill { 1nat } else { 0nat }),
        edge(seq![a, b], 0, len) == 0,
        edge(seq![a, b], 1, len) == part_size(seq![a, b], 0, len),
        edge(seq![a, b], 2, len) == part_size(seq![a, b], 0, len) + part_size(seq![a, b], 1, len),
{
    assert(seq![a, b].drop_last() =~= seq![a]);
    assert(seq![a].drop_last() =~= Seq::<Constraint>::empty());
    reveal_with_fuel(fixed_total, 3);
    reveal_with_fuel(fill_count, 3);
    reveal_with_fuel(edge, 3);
}

fn two(a: Constraint, b: Constraint) -> (r: Vec<Constraint>)
    ensures
        r@ == seq![a, b],
{
    let mut v: Vec<Constraint> = Vec::new();
    v.push(a);
    v.push(b);
    assert(v@ =~= seq![a, b]);
    v
}

fn three(a: Constraint, b: Constraint, c: Constraint) -> (r: Vec<Constraint>)
    ensures
        r@ == seq![a, b, c],
{
    let mut v: Vec<Constraint> = Vec::new();
    v.push(a);
    v.push(b);
    v.push(c);
    assert(v@ =~= seq![a, b, c]);
    v
}

/// Header row, body and status row of the screen.
#[derive(Debug, Clone, Copy, PartialEq, Eq, Structural)]
pub struct LayoutAreas {
    pub header: Area,
    pub body: Area,
    pub status_bar: Area,
}

/// Where each panel goes within the body.
#[derive(Debug, Clone, Copy, PartialEq, Eq, Structural)]
pub enum PanelAreas {
    /// Too small for panels: a message fills the body.
    TooSmall { message: Area },
    /// One panel fills the body.
    Compact { panel: Area },
    /// The workflow map on the left; git status above agents and the audit log on the right.
    Standard { workflow_map: Area, git_status: Area, agent_status: Area, audit_log: Area },
    /// Two rows of three panels.
    Wide {
        workflow_map: Area,
        git_status: Area,
        artifacts: Area,
        agent_status: Area,
        audit_log: Area,
        gate_alert: Area,
    },
}

/// The standard division of `body` (`w` columns and `h` rows as kept):
/// the workflow map takes the left 40% of the columns over all rows; git
/// status takes the top half of the rest; below it the agents take the
/// left 40% and the audit log the rest. Edges are the nearest cell
/// boundaries, and neighbouring panels meet.
pub open spec fn standard_fit(body: Area, w: int, h: int, wm: Area, gs: Area, ag: Area, al: Area) -> bool {
    &&& wm.x == body.x && spans_rows(wm, body)
    &&& near(wm.x + wm.width - body.x, 40 * w)
    &&& gs.x == wm.x + wm.width && gs.x + gs.width == body.x + w
    &&& gs.y == body.y && near(gs.y + gs.height - body.y, 50 * h)
    &&& ag.x == gs.x && ag.y == gs.y + gs.height && ag.y + ag.height == body.y + h
    &&& near(ag.x + ag.width - gs.x, 40 * gs.width)
    &&& al.x == ag.x + ag.width && al.x + al.width == gs.x + gs.width
    &&& al.y == ag.y && al.height == ag.height
}

/// One row of the wide division: three panels side by side over the row's
/// rows, the first two taking 33% and 34% of the `w` columns and the last
/// the rest.
pub open spec fn wide_row_fit(body: Area, w: int, row_y: u16, row_h: u16, a: Area, b: Area, c: Area) -> bool {
    &&& a.y == row_y && b.y == row_y && c.y == row_y
    &&& a.height == row_h && b.height == row_h && c.height == row_h
    &&& a.x == body.x && near(a.x + a.width - body.x, 33 * w)
    &&& b.x == a.x + a.width && near(b.x + b.width - body.x, 67 * w)
    &&& c.x == b.x + b.width && c.x + c.width == body.x + w
}

/// What every division of the body for `mode` satisfies: the message or
/// single panel is the body itself; the standard and wide layouts place
/// each panel in its slot (see `standard_fit` and `wide_row_fit`), the
/// wide one with its top row over the upper half of the body's rows and
/// its bottom row over the rest.
pub open spec fn panel_areas_fit(mode: LayoutMode, body: Area, r: PanelAreas) -> bool {
    let w = fit_len(body.x, body.width) as int;
    let h = fit_len(body.y, body.height) as int;
    match mode {
        LayoutMode::TooSmall => r == PanelAreas::TooSmall { message: body },
        LayoutMode::Compact => r == PanelAreas::Compact { panel: body },
        LayoutMode::Standard => match r {
            PanelAreas::Standard { workflow_map, git_status, agent_status, audit_log } => standard_fit(
                body,
                w,
                h,
                workflow_map,
                git_status,
                agent_status,
                audit_log,
            ),
            _ => false,
        },
        LayoutMode::Wide => match r {
            PanelAreas::Wide { workflow_map, git_status, artifacts, agent_status, audit_log, gate_alert } => {
                &&& workflow_map.y == body.y && near(workflow_map.y + workflow_map.height - body.y, 50 * h)
                &&& wide_row_fit(body, w, workflow_map.y, workflow_map.height, workflow_map, git_status, artifacts)
                &&& agent_status.y == workflow_map.y + workflow_map.height
                &&& agent_status.y + agent_status.height == body.y + h
                &&& wide_row_fit(body, w, agent_status.y, agent_status.height, agent_status, audit_log, gate_alert)
            },
            _ => false,
        },
    }
}

/// Parts of a split into 40% or 50% and a fill: where the first ends.
proof fn lemma_pct_fill(p: u16, len: int)
    requires
        p <= 100,
        len >= 0,
    ensures
        solvable(seq![Constraint::Percentage(p), Constraint::Fill(1)], len),
        edge(seq![Constraint::Percentage(p), Constraint::Fill(1)], 0, len) == 0,
        edge(seq![Constraint::Percentage(p), Constraint::Fill(1)], 1, len) == p * len,
        edge(seq![Constraint::Percentage(p), Constraint::Fill(1)], 2, len) == 100 * len,
{
    lemma_two_edges(Constraint::Percentage(p), Constraint::Fill(1), len);
    assert(p * len <= 100 * len) by (nonlinear_arith)
        requires
            p <= 100,
            len >= 0,
    ;
}

fn standard_panels(body: Area) -> (r: PanelAreas)
    ensures
        panel_areas_fit(LayoutMode::Standard, body, r),
{
    let ghost w = fit_len(body.x, body.width) as int;
    let ghost h = fit_len(body.y, body.height) as int;
    proof {
        lemma_pct_fill(40, w);
    }
    let lr = split_horizontal(body, &two(Constraint::Percentage(40), Constraint::Fill(1)));
    proof {
        assert(left_offsets(lr@, body)[0] == lr@[0].x - body.x);
        assert(right_offsets(lr@, body)[0] == lr@[0].x + lr@[0].width - body.x);
        assert(left_offsets(lr@, body)[1] == lr@[1].x - body.x);
        assert(right_offsets(lr@, body)[1] == lr@[1].x + lr@[1].width - body.x);
        assert(fit_len(lr@[1].y, lr@[1].height) == h);
        lemma_pct_fill(50, h);
    }
    let right = split_vertical(lr[1], &two(Constraint::Percentage(50), Constraint::Fill(1)));
    let ghost gw = right@[1].width as int;
    proof {
        assert(top_offsets(right@, lr@[1])[0] == right@[0].y - body.y);
        assert(bottom_offsets(right@, lr@[1])[0] == right@[0].y + right@[0].height - body.y);
        assert(top_offsets(right@, lr@[1])[1] == right@[1].y - body.y);
        assert(bottom_offsets(right@, lr@[1])[1] == right@[1].y + right@[1].height - body.y);
        assert(fit_len(lr@[1].x, lr@[1].width) == lr@[1].width);
        assert(fit_len(right@[1].x, right@[1].width) == gw);
        lemma_pct_fill(40, gw);
    }
    let bottom = split_horizontal(right[1], &two(Constraint::Percentage(40), Constraint::Fill(1)));
    proof {
        assert(left_offsets(bottom@, right@[1])[0] == bottom@[0].x - right@[1].x);
        assert(right_offsets(bottom@, right@[1])[0] == bottom@[0].x + bottom@[0].width - right@[1].x);
        assert(left_offsets(bottom@, right@[1])[1] == bottom@[1].x - right@[1].x);
        assert(right_offsets(bottom@, right@[1])[1] == bottom@[1].x + bottom@[1].width - right@[1].x);
        assert(fit_len(right@[1].y, right@[1].height) == right@[1].height);
    }
    PanelAreas::Standard { workflow_map: lr[0], git_status: right[0], agent_status: bottom[0], audit_log: bottom[1] }
}

/// Parts of a split into 33%, 34% and a fill: where each ends.
proof fn lemma_thirds(len: int)
    requires
        len >= 0,
    ensures
        ({
            let cs = seq![Constraint::Percentage(33), Constraint::Percentage(34), Constraint::Fill(1)];
            &&& solvable(cs, len)
            &&& edge(cs, 0, len) == 0
            &&& edge(cs, 1, len) == 33 * len
            &&& edge(cs, 2, len) == 67 * len
            &&& edge(cs, 3, len) == 100 * len
        }),
{
    lemma_three_edges(Constraint::Percentage(33), Constraint::Percentage(34), Constraint::Fill(1), len);
}

fn wide_row(row: Area, body: Area) -> (r: Vec<Area>)
    requires
        row.x == body.x,
        row.width == fit_len(body.x, body.width),
        within(row, body),
    ensures
        r@.len() == 3,
        wide_row_fit(body, fit_len(body.x, body.width) as int, row.y, fit_len(row.y, row.height), r@[0], r@[1], r@[2]),
{
    let ghost w = fit_len(body.x, body.width) as int;
    proof {
        assert(fit_len(row.x, row.width) == w);
        lemma_thirds(w);
    }
    let p = split_horizontal(
        row,
        &three(Constraint::Percentage(33), Constraint::Percentage(34), Constraint::Fill(1)),
    );
    proof {
        assert(left_offsets(p@, row)[0] == p@[0].x - body.x);
        assert(right_offsets(p@, row)[0] == p@[0].x + p@[0].width - body.x);
        assert(left_offsets(p@, row)[1] == p@[1].x - body.x);
        assert(right_offsets(p@, row)[1] == p@[1].x + p@[1].width - body.x);
        assert(left_offsets(p@, row)[2] == p@[2].x - body.x);
        assert(right_offsets(p@, row)[2] == p@[2].x + p@[2].width - body.x);
        assert(spans_rows(p@[0], row) && spans_rows(p@[1], row) && spans_rows(p@[2], row));
    }
    p
}

fn wide_panels(body: Area) -> (r: PanelAreas)
    ensures
        panel_areas_fit(LayoutMode::Wide, body, r),
{
    let ghost h = fit_len(body.y, body.height) as int;
    proof {
        lemma_pct_fill(50, h);
    }
    let rows = split_vertical(body, &two(Constraint::Percentage(50), Constraint::Fill(1)));
    proof {
        assert(top_offsets(rows@, body)[0] == rows@[0].y - body.y);
        assert(bottom_offsets(rows@, body)[0] == rows@[0].y + rows@[0].height - body.y);
        assert(top_offsets(rows@, body)[1] == rows@[1].y - body.y);
        assert(bottom_offsets(rows@, body)[1] == rows@[1].y + rows@[1].height - body.y);
        assert(fit_len(rows@[0].y, rows@[0].height) == rows@[0].height);
        assert(fit_len(rows@[1].y, rows@[1].height) == rows@[1].height);
    }
    let top = wide_row(rows[0], body);
    let bottom = wide_row(rows[1], body);
    PanelAreas::Wide {
        workflow_map: top[0],
        git_status: top[1],
        artifacts: top[2],
        agent_status: bottom[0],
        audit_log: bottom[1],
        gate_alert: bottom[2],
    }
}

impl LayoutManager {
    /// The header row, body and status row of a frame: each spans the
    /// frame's columns and lies within its rows. Where the frame has two
    /// rows or more, the header is its first row, the status bar its last,
    /// and the body all the rows between.
    pub fn areas(&self, frame: Area) -> (r: LayoutAreas)
        ensures
            spans_columns(r.header, frame) && within(r.header, frame),
            spans_columns(r.body, frame) && within(r.body, frame),
            spans_columns(r.status_bar, frame) && within(r.status_bar, frame),
            fit_len(frame.y, frame.height) >= 2 ==> {
                &&& r.header.y == frame.y && r.header.height == 1
                &&& r.body.y == frame.y + 1 && r.body.y + r.body.height == frame.y + fit_len(frame.y, frame.height) - 1
                &&& r.status_bar.y == frame.y + fit_len(frame.y, frame.height) - 1 && r.status_bar.height == 1
            },
    {
        let ghost h = fit_len(frame.y, frame.height) as int;
        proof {
            lemma_three_edges(Constraint::Length(1), Constraint::Fill(1), Constraint::Length(1), h);
        }
        let p = split_vertical(frame, &three(Constraint::Length(1), Constraint::Fill(1), Constraint::Length(1)));
        proof {
            assert(spans_columns(p@[0], frame) && within(p@[0], frame));
            assert(spans_columns(p@[1], frame) && within(p@[1], frame));
            assert(spans_columns(p@[2], frame) && within(p@[2], frame));
            assert(top_offsets(p@, frame)[0] == p@[0].y - frame.y);
            assert(bottom_offsets(p@, frame)[0] == p@[0].y + p@[0].height - frame.y);
            assert(top_offsets(p@, frame)[1] == p@[1].y - frame.y);
            assert(bottom_offsets(p@, frame)[1] == p@[1].y + p@[1].height - frame.y);
            assert(top_offsets(p@, frame)[2] == p@[2].y - frame.y);
            assert(bottom_offsets(p@, frame)[2] == p@[2].y + p@[2].height - frame.y);
        }
        LayoutAreas { header: p[0], body: p[1], status_bar: p[2] }
    }

    /// Where the panels of the current mode go within the body.
    pub fn panel_areas(&self, body: Area) -> (r: PanelAreas)
        ensures
            panel_areas_fit(mode_for(self.width_spec() as int, self.height_spec() as int), body, r),
    {
        match self.mode() {
            LayoutMode::TooSmall => PanelAreas::TooSmall { message: body },
            LayoutMode::Compact => PanelAreas::Compact { panel: body },
            LayoutMode::Standard => standard_panels(body),
            LayoutMode::Wide => wide_panels(body),
        }
    }
}

/// The margin percentage on each side of a centred part of `p` percent
/// (capped at 100).
pub open spec fn margin_pct(p: u16) -> int {
    (100 - if p > 100 { 100int } else { p as int }) / 2
}

/// The share of a centred part of `p` percent, capped at 100.
pub open spec fn capped_pct(p: u16) -> int {
    if p > 100 { 100 } else { p as int }
}

/// A part of the area centred in it, `percent_x` of its width and
/// `percent_y` of its height (each capped at 100): each edge is the cell
/// boundary nearest to a margin of half the rest, so the part lies within
/// the area.
pub fn centered_rect(percent_x: u16, percent_y: u16, area: Area) -> (r: Area)
    ensures
        within(r, area),
        near(r.x - area.x, margin_pct(percent_x) * fit_len(area.x, area.width)),
        near(r.x + r.width - area.x, (margin_pct(percent_x) + capped_pct(percent_x)) * fit_len(area.x, area.width)),
        near(r.y - area.y, margin_pct(percent_y) * fit_len(area.y, area.height)),
        near(r.y + r.height - area.y, (margin_pct(percent_y) + capped_pct(percent_y)) * fit_len(area.y, area.height)),
{
    let px = if percent_x > 100 { 100 } else { percent_x };
    let py = if percent_y > 100 { 100 } else { percent_y };
    let ghost w = fit_len(area.x, area.width) as int;
    let ghost h = fit_len(area.y, area.height) as int;
    let cy = three(Constraint::Percentage((100 - py) / 2), Constraint::Percentage(py), Constraint::Percentage((100 - py) / 2));
    proof {
        let my = (100 - py) / 2;
        lemma_three_edges(Constraint::Percentage(my as u16), Constraint::Percentage(py), Constraint::Percentage(my as u16), h);
        assert((2 * my + py) * h <= 100 * h) by (nonlinear_arith)
            requires
                2 * my + py <= 100,
                h >= 0,
        ;
        assert(my * h + py * h + my * h == (2 * my + py) * h) by (nonlinear_arith);
    }
    let v = split_vertical(area, &cy);
    let cx = three(Constraint::Percentage((100 - px) / 2), Constraint::Percentage(px), Constraint::Percentage((100 - px) / 2));
    proof {
        let mx = (100 - px) / 2;
        assert(v@[1].x == area.x && v@[1].width == w);
        assert(fit_len(v@[1].x, v@[1].width) == w);
        lemma_three_edges(Constraint::Percentage(mx as u16), Constraint::Percentage(px), Constraint::Percentage(mx as u16), w);
        assert((2 * mx + px) * w <= 100 * w) by (nonlinear_arith)
            requires
                2 * mx + px <= 100,
                w >= 0,
        ;
        assert(mx * w + px * w + mx * w == (2 * mx + px) * w) by (nonlinear_arith);
    }
    let hs = split_horizontal(v[1], &cx);
    proof {
        assert(within(v@[1], area));
        assert(within(hs@[1], v@[1]));
        assert(top_offsets(v@, area)[1] == v@[1].y - area.y);
        assert(bottom_offsets(v@, area)[1] == v@[1].y + v@[1].height - area.y);
        assert(left_offsets(hs@, v@[1])[1] == hs@[1].x - area.x);
        assert(right_offsets(hs@, v@[1])[1] == hs@[1].x + hs@[1].width - area.x);
        assert(hs@[1].y == v@[1].y);
        assert(hs@[1].height == fit_len(v@[1].y, v@[1].height));
        assert(fit_len(v@[1].y, v@[1].height) == v@[1].height);
        assert(margin_pct(percent_y) * h + capped_pct(percent_y) * h == (margin_pct(percent_y) + capped_pct(percent_y)) * h) by (nonlinear_arith);
        assert(margin_pct(percent_x) * w + capped_pct(percent_x) * w == (margin_pct(percent_x) + capped_pct(percent_x)) * w) by (nonlinear_arith);
    }
    hs[1]
}

} // verus!
