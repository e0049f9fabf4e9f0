//! Placement of panels on Grafana's 24-column grid.
//!
//! Panels of a row flow left to right and wrap to a new line below the
//! tallest panel of the current line. Each row header takes one line; an
//! expanded row's panels follow it, a collapsed row's panels do not take
//! any room.

use vstd::prelude::*;
use crate::dashboard::{Datasource, Panel, Row};
use crate::validation::{panels_error, rows_error, GRID};

verus! {

/// The layout state inside one row: the next free column, the top of the
/// current line, the tallest panel on it, and the lowest edge so far.
pub struct LineState {
    pub x: int,
    pub y: int,
    pub line_height: int,
    pub bottom: int,
}

/// Where panel `p` starts: on the current line if it fits in
/// the grid, else at the start of a new line below the tallest panel.
pub open spec fn wrap(st: LineState, p: Panel) -> LineState {
    if st.x + p.width > GRID {
        LineState { x: 0, y: st.y + st.line_height, line_height: 0, bottom: st.bottom }
    } else {
        st
    }
}

/// The state after placing `p`.
pub open spec fn advance(st: LineState, p: Panel) -> LineState {
    let w = wrap(st, p);
    LineState {
        x: w.x + p.width,
        y: w.y,
        line_height: if w.line_height >= p.height { w.line_height } else { p.height as int },
        bottom: if w.bottom >= w.y + p.height { w.bottom } else { w.y + p.height },
    }
}

/// The state after placing every panel of `ps`, starting at `start_y`.
pub open spec fn line_state(ps: Seq<Panel>, start_y: int) -> LineState
    decreases ps.len(),
{
    if ps.len() == 0 {
        LineState { x: 0, y: start_y, line_height: 0, bottom: start_y }
    } else {
        advance(line_state(ps.drop_last(), start_y), ps.last())
    }
}

/// The grid position `(x, y)` of the `k`-th panel of a row.
pub open spec fn panel_place(ps: Seq<Panel>, k: int, start_y: int) -> (int, int) {
    let w = wrap(line_state(ps.take(k), start_y), ps[k]);
    (w.x, w.y)
}

/// The lowest edge of a row's panels, or `start_y` when it has none.
pub open spec fn row_bottom(ps: Seq<Panel>, start_y: int) -> int {
    line_state(ps, start_y).bottom
}

/// The cursor line and the next panel id after laying out `rows`.
pub open spec fn rows_layout(rows: Seq<Row>) -> (int, int)
    decreases rows.len(),
{
    if rows.len() == 0 {
        (0, 1)
    } else {
        let before = rows_layout(rows.drop_last());
        let r = rows.last();
        let cursor = if r.collapsed {
            before.0 + 1
        } else {
            row_bottom(r.panels@, before.0 + 1)
        };
        (cursor, before.1 + r.panels@.len() + 1)
    }
}

/// Every panel of the row ends within the `u16` line numbers.
pub open spec fn line_fits(ps: Seq<Panel>, start_y: int) -> bool {
    forall|k: int| 0 <= k < ps.len() ==> #[trigger] panel_place(ps, k, start_y).1 + ps[k].height <= u16::MAX
}

/// A row laid out from cursor `c` with next id `n` stays within the `u16`
/// grid coordinates and the `u32` panel ids.
pub open spec fn row_fits(at: (int, int), r: Row) -> bool {
    &&& at.0 + 1 <= u16::MAX
    &&& line_fits(r.panels@, at.0 + 1)
    &&& at.1 + r.panels@.len() + 1 <= u32::MAX
}

/// The whole layout stays within the integer widths of the wire format.
pub open spec fn layout_fits(rows: Seq<Row>) -> bool {
    forall|i: int| 0 <= i < rows.len() ==> #[trigger] row_fits(rows_layout(rows.take(i)), rows[i])
}

/// Every panel width is within the grid.
pub open spec fn widths_valid(ps: Seq<Panel>) -> bool {
    forall|k: int| 0 <= k < ps.len() ==> #[trigger] ps[k].width <= GRID
}

/// A dashboard that passes validation has only panels within the grid.
pub proof fn lemma_valid_widths(ds: Seq<Datasource>, rows: Seq<Row>)
    requires
        rows_error(ds, rows) is None,
    ensures
        forall|i: int| 0 <= i < rows.len() ==> #[trigger] widths_valid(rows[i].panels@),
    decreases rows.len(),
{
    if rows.len() > 0 {
        lemma_valid_widths(ds, rows.drop_last());
        lemma_valid_panel_widths(ds, rows.last().panels@);
        assert forall|i: int| 0 <= i < rows.len() implies #[trigger] widths_valid(rows[i].panels@) by {
            if i < rows.len() - 1 {
                assert(rows.drop_last()[i] == rows[i]);
            }
        }
    }
}

proof fn lemma_valid_panel_widths(ds: Seq<Datasource>, ps: Seq<Panel>)
    requires
        panels_error(ds, ps) is None,
    ensures
        widths_valid(ps),
    decreases ps.len(),
{
    if ps.len() > 0 {
        lemma_valid_panel_widths(ds, ps.drop_last());
        assert forall|k: int| 0 <= k < ps.len() implies #[trigger] ps[k].width <= GRID by {
            if k < ps.len() - 1 {
                assert(ps.drop_last()[k] == ps[k]);
            }
        }
    }
}

/// The state after a prefix stays within the grid and below the start.
pub proof fn lemma_line_state_bounds(ps: Seq<Panel>, start_y: int, i: int)
    requires
        widths_valid(ps),
        0 <= i <= ps.len(),
    ensures
        0 <= line_state(ps.take(i), start_y).x <= GRID,
        start_y <= line_state(ps.take(i), start_y).y <= line_state(ps.take(i), start_y).bottom,
        line_state(ps.take(i), start_y).line_height >= 0,
    decreases i,
{
    if i > 0 {
        lemma_line_state_bounds(ps, start_y, i - 1);
        assert(ps.take(i).drop_last() =~= ps.take(i - 1));
    }
}

/// What holds of every panel placed so far: it sits on the current line,
/// left of the cursor and no taller than the line, or it ends above the
/// current line.
pub open spec fn settled(ps: Seq<Panel>, start_y: int, i: int, j: int) -> bool {
    let st = line_state(ps.take(i), start_y);
    let at = panel_place(ps, j, start_y);
    ||| (at.1 == st.y && at.0 + ps[j].width <= st.x && ps[j].height <= st.line_height)
    ||| at.1 + ps[j].height <= st.y
}

proof fn lemma_settled(ps: Seq<Panel>, start_y: int, i: int)
    requires
        0 <= i <= ps.len(),
    ensures
        line_state(ps.take(i), start_y).line_height >= 0,
        line_state(ps.take(i), start_y).x >= 0,
        forall|j: int| 0 <= j < i ==> #[trigger] settled(ps, start_y, i, j),
    decreases i,
{
    if i > 0 {
        lemma_settled(ps, start_y, i - 1);
        assert(ps.take(i).drop_last() =~= ps.take(i - 1));
        assert forall|j: int| 0 <= j < i implies #[trigger] settled(ps, start_y, i, j) by {
            if j < i - 1 {
                assert(settled(ps, start_y, i - 1, j));
            }
        }
    }
}

/// Law: with every width within the grid, every panel lies inside the
/// 24 columns, at or below the row's first line.
pub proof fn law_panels_stay_inside_the_grid(ps: Seq<Panel>, start_y: int, k: int)
    requires
        widths_valid(ps),
        0 <= k < ps.len(),
    ensures
        0 <= panel_place(ps, k, start_y).0,
        panel_place(ps, k, start_y).0 + ps[k].width <= GRID,
        start_y <= panel_place(ps, k, start_y).1,
{
    lemma_line_state_bounds(ps, start_y, k);
}

/// Law: panels of a row never overlap. A later panel starts on the same
/// line to the right of an earlier one, or entirely below it.
pub proof fn law_panels_do_not_overlap(ps: Seq<Panel>, start_y: int, j: int, k: int)
    requires
        0 <= j < k < ps.len(),
    ensures
        ({
            let a = panel_place(ps, j, start_y);
            let b = panel_place(ps, k, start_y);
            ||| a.1 + ps[j].height <= b.1
            ||| (a.1 == b.1 && a.0 + ps[j].width <= b.0)
        }),
{
    lemma_settled(ps, start_y, k);
    assert(settled(ps, start_y, k, j));
}

proof fn lemma_bottom_grows(ps: Seq<Panel>, start_y: int, i: int)
    requires
        0 <= i <= ps.len(),
    ensures
        line_state(ps.take(i), start_y).bottom <= row_bottom(ps, start_y),
    decreases ps.len() - i,
{
    if i < ps.len() {
        lemma_bottom_grows(ps, start_y, i + 1);
        assert(ps.take(i + 1).drop_last() =~= ps.take(i));
    } else {
        assert(ps.take(i) =~= ps);
    }
}

proof fn lemma_bottom_at_least_start(ps: Seq<Panel>, start_y: int)
    ensures
        start_y <= row_bottom(ps, start_y),
{
    lemma_bottom_grows(ps, start_y, 0);
    assert(ps.take(0) =~= Seq::<Panel>::empty());
}

/// Law: the bottom of a row lies at or below its first line and below
/// every one of its panels.
pub proof fn law_row_bottom_is_below_its_panels(ps: Seq<Panel>, start_y: int, k: int)
    requires
        0 <= k < ps.len(),
    ensures
        start_y <= row_bottom(ps, start_y),
        panel_place(ps, k, start_y).1 + ps[k].height <= row_bottom(ps, start_y),
{
    lemma_bottom_grows(ps, start_y, k + 1);
    lemma_bottom_at_least_start(ps, start_y);
    assert(ps.take(k + 1).drop_last() =~= ps.take(k));
    assert(ps.take(k + 1).last() == ps[k]);
}

/// Law: each row header takes a line of its own, and the next row starts
/// below every panel of an expanded row; a collapsed row takes only its
/// header line. Panel ids advance by one per panel and one per header.
pub proof fn law_rows_stack_downwards(rows: Seq<Row>, i: int, k: int)
    requires
        0 <= i < rows.len(),
    ensures
        rows_layout(rows.take(i + 1)).0 >= rows_layout(rows.take(i)).0 + 1,
        rows[i].collapsed ==> rows_layout(rows.take(i + 1)).0 == rows_layout(rows.take(i)).0 + 1,
        rows_layout(rows.take(i + 1)).1 == rows_layout(rows.take(i)).1 + rows[i].panels@.len() + 1,
        !rows[i].collapsed && 0 <= k < rows[i].panels@.len() ==> panel_place(
            rows[i].panels@,
            k,
            rows_layout(rows.take(i)).0 + 1,
        ).1 + rows[i].panels@[k].height <= rows_layout(rows.take(i + 1)).0,
{
    assert(rows.take(i + 1).drop_last() =~= rows.take(i));
    assert(rows.take(i + 1).last() == rows[i]);
    let ps = rows[i].panels@;
    let start = rows_layout(rows.take(i)).0 + 1;
    lemma_bottom_at_least_start(ps, start);
    if 0 <= k < ps.len() {
        law_row_bottom_is_below_its_panels(ps, start, k);
    }
}

/// Law: a later row starts strictly below an earlier one, and its panel
/// ids come after all of the earlier row's ids (children and header), so
/// no two panels of a document share an id.
pub proof fn law_layout_is_monotone(rows: Seq<Row>, i: int, j: int)
    requires
        0 <= i < j <= rows.len(),
    ensures
        rows_layout(rows.take(i)).0 < rows_layout(rows.take(j)).0,
        rows_layout(rows.take(i)).1 + rows[i].panels@.len() + 1 <= rows_layout(rows.take(j)).1,
    decreases j - i,
{
    law_rows_stack_downwards(rows, i, 0);
    if j > i + 1 {
        law_layout_is_monotone(rows, i + 1, j);
    }
}

/// Lay a row's panels out from `start_y`, in wide arithmetic: the bottom
/// of the row when every panel ends within `u16` lines, `None` otherwise.
fn line_bottom_within_limits(ps: &Vec<Panel>, start_y: u64) -> (r: Option<u64>)
    requires
        start_y <= u16::MAX,
    ensures
        r is Some <==> line_fits(ps@, start_y as int),
        r matches Some(b) ==> b == row_bottom(ps@, start_y as int) && b <= u16::MAX,
{
    let ghost sy = start_y as int;
    let mut x: u64 = 0;
    let mut y: u64 = start_y;
    let mut line_height: u64 = 0;
    let mut bottom: u64 = start_y;
    let mut i: usize = 0;
    assert(ps@.take(0) =~= Seq::<Panel>::empty());
    while i < ps.len()
        invariant
            sy == start_y as int,
            i <= ps@.len(),
            x <= u16::MAX,
            y <= u16::MAX,
            line_height <= u16::MAX,
            bottom <= u16::MAX,
            x as int == line_state(ps@.take(i as int), sy).x,
            y as int == line_state(ps@.take(i as int), sy).y,
            line_height as int == line_state(ps@.take(i as int), sy).line_height,
            bottom as int == line_state(ps@.take(i as int), sy).bottom,
            forall|j: int| 0 <= j < i ==> #[trigger] panel_place(ps@, j, sy).1 + ps@[j].height <= u16::MAX,
        decreases ps@.len() - i,
    {
        let w = ps[i].width as u64;
        let h = ps[i].height as u64;
        if x + w > GRID as u64 {
            y = y + line_height;
            x = 0;
            line_height = 0;
        }
        if y + h > u16::MAX as u64 {
            assert(!(panel_place(ps@, i as int, sy).1 + ps@[i as int].height <= u16::MAX));
            return None;
        }
        x = x + w;
        if h > line_height {
            line_height = h;
        }
        if y + h > bottom {
            bottom = y + h;
        }
        assert(ps@.take(i + 1).drop_last() =~= ps@.take(i as int));
        i = i + 1;
    }
    assert(ps@.take(i as int) =~= ps@);
    Some(bottom)
}

/// Whether laying `rows` out keeps every coordinate within `u16` and every
/// panel id within `u32`.
pub fn layout_within_limits(rows: &Vec<Row>) -> (r: bool)
    ensures
        r == layout_fits(rows@),
{
    let mut cursor: u64 = 0;
    let mut next_id: u64 = 1;
    let mut i: usize = 0;
    assert(rows@.take(0) =~= Seq::<Row>::empty());
    while i < rows.len()
        invariant
            i <= rows@.len(),
            cursor <= u16::MAX,
            next_id <= u32::MAX,
            (cursor as int, next_id as int) == rows_layout(rows@.take(i as int)),
            forall|k: int| 0 <= k < i ==> #[trigger] row_fits(rows_layout(rows@.take(k)), rows@[k]),
        decreases rows@.len() - i,
    {
        let row = &rows[i];
        let count = row.panels.len() as u64;
        assert(rows@.take(i + 1).drop_last() =~= rows@.take(i as int));
        if cursor + 1 > u16::MAX as u64 || count >= u32::MAX as u64 - next_id {
            assert(!row_fits(rows_layout(rows@.take(i as int)), rows@[i as int]));
            return false;
        }
        match line_bottom_within_limits(&row.panels, cursor + 1) {
            None => {
                assert(!row_fits(rows_layout(rows@.take(i as int)), rows@[i as int]));
                return false;
            },
            Some(bottom) => {
                cursor = if row.collapsed { cursor + 1 } else { bottom };
            },
        }
        next_id = next_id + count + 1;
        i = i + 1;
    }
    true
}

} // verus!
