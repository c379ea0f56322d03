//! What a running count of equal marks knows while a line is walked cell by
//! cell, and why the walk finds a run exactly where there is one.

use vstd::prelude::*;
use crate::grid::{at, has_run, on_grid, run_at, side, Line};
use crate::mark::State;

verus! {

/// The state of a walk along `line` after `seen` cells: the last `count`
/// cells held `mark`, the cell before them did not, and no run of `criteria`
/// marks ends among the cells seen. With `criteria` 0 nothing can have been
/// seen, since the first cell already ends the walk.
pub open spec fn scanned(
    cells: Seq<State>,
    line: Line,
    mark: State,
    criteria: int,
    seen: int,
    count: int,
) -> bool {
    &&& 0 <= count <= seen <= side(cells)
    &&& criteria > 0 || seen == 0
    &&& criteria > 0 ==> count < criteria
    &&& forall|t: int| seen - count <= t < seen ==> at(cells, line, t) == mark
    &&& count < seen ==> at(cells, line, seen - count - 1) != mark
    &&& criteria > 0 ==> forall|start: int|
        start + criteria <= seen ==> !#[trigger] run_at(cells, line, start, criteria, mark)
}

/// The count after one more cell: one longer where the cell holds `mark`,
/// back to zero where it does not.
pub open spec fn count_after(cells: Seq<State>, line: Line, mark: State, seen: int, count: int) -> int {
    if at(cells, line, seen) == mark {
        count + 1
    } else {
        0
    }
}

/// A walk starts with nothing seen and nothing counted.
pub proof fn lemma_scan_start(cells: Seq<State>, line: Line, mark: State, criteria: int)
    requires
        0 <= criteria,
    ensures
        scanned(cells, line, mark, criteria, 0, 0),
{
}

/// One step of a walk: either the new count reaches `criteria` and the cells
/// just counted are a run, or the walk goes on one cell further.
pub proof fn lemma_scan_step(
    cells: Seq<State>,
    line: Line,
    mark: State,
    criteria: int,
    seen: int,
    count: int,
)
    requires
        0 <= criteria,
        on_grid(cells, line),
        seen < side(cells),
        scanned(cells, line, mark, criteria, seen, count),
    ensures
        count_after(cells, line, mark, seen, count) >= criteria ==> has_run(cells, mark, criteria),
        count_after(cells, line, mark, seen, count) < criteria ==> scanned(
            cells,
            line,
            mark,
            criteria,
            seen + 1,
            count_after(cells, line, mark, seen, count),
        ),
{
    let next = count_after(cells, line, mark, seen, count);
    if next >= criteria {
        assert(run_at(cells, line, seen + 1 - criteria, criteria, mark));
    } else {
        assert forall|start: int| start + criteria <= seen + 1 implies !#[trigger] run_at(
            cells,
            line,
            start,
            criteria,
            mark,
        ) by {
            if start + criteria == seen + 1 && 0 <= start {
                if at(cells, line, seen) == mark {
                    assert(at(cells, line, seen - count - 1) != mark);
                }
            }
        }
    }
}

/// A walk that reached the end of its line found no run on it.
pub proof fn lemma_scan_end(cells: Seq<State>, line: Line, mark: State, criteria: int, count: int)
    requires
        scanned(cells, line, mark, criteria, side(cells) as int, count),
    ensures
        forall|start: int| !#[trigger] run_at(cells, line, start, criteria, mark),
{
}

/// No run on any row, any column or either diagonal means no run at all.
pub proof fn lemma_no_run(cells: Seq<State>, mark: State, criteria: int)
    requires
        forall|y: int, start: int|
            0 <= y < side(cells) ==> !#[trigger] run_at(cells, Line::Row(y), start, criteria, mark),
        forall|x: int, start: int|
            0 <= x < side(cells) ==> !#[trigger] run_at(cells, Line::Column(x), start, criteria, mark),
        forall|start: int| !#[trigger] run_at(cells, Line::Diagonal, start, criteria, mark),
        forall|start: int| !#[trigger] run_at(cells, Line::AntiDiagonal, start, criteria, mark),
    ensures
        !has_run(cells, mark, criteria),
{
    assert forall|line: Line, start: int| !#[trigger] run_at(cells, line, start, criteria, mark) by {
        match line {
            Line::Row(y) => {},
            Line::Column(x) => {},
            Line::Diagonal => {},
            Line::AntiDiagonal => {},
        }
    }
}

} // verus!
