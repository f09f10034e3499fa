//! Clearing of full rows: which rows are full, and where the cells that
//! stay come to rest.
//!
//! The settled cells are a list, and one pass over the list clears all
//! full rows at once (`detect_complete_lines`). The same can be done on a
//! board, row by row (`clear_full_lines`); `lemma_one_pass_is_row_by_row`
//! shows that both leave the same occupancy.

use vstd::prelude::*;

use crate::board::{
    holds_cell, in_bounds, occupancy, row_full, without_row, Board, BoardPosition, BOARD_HEIGHT,
    BOARD_WIDTH,
};
use crate::score::LinesCompletedEvent;

verus! {

/// The full rows among the rows `1..=top`, from the bottom up.
pub open spec fn full_rows(occupied: Set<(int, int)>, top: int) -> Seq<int>
    decreases top,
{
    if top < 1 {
        Seq::empty()
    } else if row_full(occupied, top) {
        full_rows(occupied, top - 1).push(top)
    } else {
        full_rows(occupied, top - 1)
    }
}

/// Number of full rows of the playfield strictly below row `y`.
pub open spec fn full_rows_below(occupied: Set<(int, int)>, y: int) -> int {
    full_rows(occupied, if y - 1 < BOARD_HEIGHT { y - 1 } else { BOARD_HEIGHT as int }).len() as int
}

/// What becomes of a cell when the full rows are cleared: a cell in a full
/// row is gone, any other drops by the number of full rows below it.
pub open spec fn settled_cell(occupied: Set<(int, int)>, cell: BoardPosition) -> Option<
    BoardPosition,
> {
    if row_full(occupied, cell.y as int) {
        None
    } else {
        Some(
            BoardPosition {
                x: cell.x,
                y: (cell.y - full_rows_below(occupied, cell.y as int)) as i32,
            },
        )
    }
}

/// The cells that are left when the full rows are cleared, each at its new
/// place, in their old order.
pub open spec fn settled(occupied: Set<(int, int)>, cells: Seq<BoardPosition>) -> Seq<
    BoardPosition,
> {
    cells.filter_map(|cell: BoardPosition| settled_cell(occupied, cell))
}

/// The rows as mathematical integers.
pub open spec fn rows(lines: Seq<i32>) -> Seq<int> {
    lines.map_values(|line: i32| line as int)
}

/// Number of entries of `lines` that are less than `y`.
pub open spec fn count_below(lines: Seq<int>, y: int) -> int {
    lines.filter(|line: int| line < y).len() as int
}

/// What becomes of a cell when the rows listed in `lines` are cleared.
pub open spec fn settled_among(lines: Seq<int>, cell: BoardPosition) -> Option<BoardPosition> {
    if lines.contains(cell.y as int) {
        None
    } else {
        Some(BoardPosition { x: cell.x, y: (cell.y - count_below(lines, cell.y as int)) as i32 })
    }
}

/// The occupancy after the full rows among `low..=BOARD_HEIGHT` have been
/// removed one at a time, the highest first. Which rows are full is judged
/// on `occupied`, before anything is removed.
pub open spec fn cleared_row_by_row(occupied: Set<(int, int)>, low: int) -> Set<(int, int)>
    decreases BOARD_HEIGHT + 1 - low,
{
    if low > BOARD_HEIGHT {
        occupied
    } else if row_full(occupied, low) {
        without_row(cleared_row_by_row(occupied, low + 1), low)
    } else {
        cleared_row_by_row(occupied, low + 1)
    }
}

/// The full rows of the board, from the bottom up.
pub fn full_lines(board: &Board) -> (lines: Vec<i32>)
    ensures
        rows(lines@) == full_rows(board@, BOARD_HEIGHT as int),
{
    let mut lines: Vec<i32> = Vec::new();
    let mut y: i32 = 1;
    while y <= BOARD_HEIGHT
        invariant
            1 <= y <= BOARD_HEIGHT + 1,
            rows(lines@) == full_rows(board@, y - 1),
        decreases BOARD_HEIGHT + 1 - y,
    {
        if board.is_line_full(y) {
            lines.push(y);
        }
        y += 1;
    }
    lines
}

/// Is `y` among `lines`?
pub fn is_completed(lines: &Vec<i32>, y: i32) -> (found: bool)
    ensures
        found == rows(lines@).contains(y as int),
{
    let mut i: usize = 0;
    while i < lines.len()
        invariant
            i <= lines.len(),
            forall|k: int| 0 <= k < i ==> lines[k] != y,
        decreases lines.len() - i,
    {
        if lines[i] == y {
            assert(rows(lines@)[i as int] == y);
            return true;
        }
        i += 1;
    }
    false
}

/// How many of `lines` lie below row `y`?
pub fn completed_below(lines: &Vec<i32>, y: i32) -> (count: usize)
    ensures
        count == count_below(rows(lines@), y as int),
{
    let ghost below_y = |line: int| line < y;
    let mut count: usize = 0;
    let mut i: usize = 0;
    while i < lines.len()
        invariant
            i <= lines.len(),
            below_y == |line: int| line < y,
            count == rows(lines@).take(i as int).filter(below_y).len(),
            count <= i,
        decreases lines.len() - i,
    {
        proof {
            let seen = rows(lines@).take(i as int);
            assert(rows(lines@).take(i + 1) =~= seen.push(lines[i as int] as int));
            seen.lemma_filter_len_push(below_y, lines[i as int] as int);
        }
        if lines[i] < y {
            count += 1;
        }
        i += 1;
    }
    assert(rows(lines@).take(lines.len() as int) =~= rows(lines@));
    count
}

/// What becomes of `cell` when the rows listed in `lines` are cleared: `None`
/// when its row is among them, else the cell moved down by the number of
/// listed rows below it.
pub fn settle_cell(lines: &Vec<i32>, cell: BoardPosition) -> (out: Option<BoardPosition>)
    requires
        cell.y - count_below(rows(lines@), cell.y as int) >= i32::MIN,
    ensures
        out == settled_among(rows(lines@), cell),
{
    if is_completed(lines, cell.y) {
        None
    } else {
        let below = completed_below(lines, cell.y);
        Some(BoardPosition::new(cell.x, ((cell.y as i64) - (below as i64)) as i32))
    }
}

/// One pass of line clearing over the settled cells: the full rows are
/// found first, on a snapshot of the cells; then every cell in a full row
/// is dropped and every other cell moves down by the number of full rows
/// below it. Returns the cells that are left, in their old order, and the
/// number of rows cleared.
pub fn detect_complete_lines(cells: &Vec<BoardPosition>) -> (out: (
    Vec<BoardPosition>,
    LinesCompletedEvent,
))
    ensures
        out.0@ == settled(occupancy(cells@), cells@),
        out.1.0 == full_rows(occupancy(cells@), BOARD_HEIGHT as int).len(),
{
    let board = Board::from_cells(cells.as_slice());
    let lines = full_lines(&board);
    let ghost occupied = occupancy(cells@);
    let ghost fate = |cell: BoardPosition| settled_cell(occupied, cell);
    let mut left: Vec<BoardPosition> = Vec::new();
    let mut i: usize = 0;
    while i < cells.len()
        invariant
            i <= cells.len(),
            occupied == occupancy(cells@),
            fate == |cell: BoardPosition| settled_cell(occupied, cell),
            rows(lines@) == full_rows(occupied, BOARD_HEIGHT as int),
            left@ == cells@.take(i as int).filter_map(fate),
        decreases cells.len() - i,
    {
        let cell = cells[i];
        proof {
            lemma_settled_among_full_rows(occupied, cell);
            cells@.lemma_filter_map_take_succ(fate, i as int);
        }
        match settle_cell(&lines, cell) {
            Some(moved) => {
                left.push(moved);
            },
            None => {},
        }
        i += 1;
    }
    assert(cells@.take(cells.len() as int) =~= cells@);
    (left, LinesCompletedEvent(lines.len()))
}

/// Clears the full rows of the board one at a time, the highest first, each
/// time moving the rows above down by one. Returns the number of rows
/// cleared.
pub fn clear_full_lines(board: &mut Board) -> (completed: LinesCompletedEvent)
    ensures
        final(board)@ == cleared_row_by_row(old(board)@, 1),
        completed.0 == full_rows(old(board)@, BOARD_HEIGHT as int).len(),
{
    let ghost before = board@;
    let mut count: usize = 0;
    let mut y: i32 = BOARD_HEIGHT;
    proof {
        board.lemma_view_in_bounds();
    }
    while y >= 1
        invariant
            0 <= y <= BOARD_HEIGHT,
            forall|x: int, y: int| before.contains((x, y)) ==> in_bounds(x, y),
            board@ == cleared_row_by_row(before, y + 1),
            count == full_rows(before, BOARD_HEIGHT as int).len() - full_rows(
                before,
                y as int,
            ).len(),
            count <= BOARD_HEIGHT - y,
        decreases y,
    {
        proof {
            assert forall|x: int|
                #![trigger board@.contains((x, y as int))]
                #![trigger before.contains((x, y as int))]
                board@.contains((x, y as int)) <==> before.contains((x, y as int)) by {
                lemma_row_by_row_leaves_below(before, y + 1, x, y as int);
            }
        }
        if board.is_line_full(y) {
            board.clear_row_and_shift(y);
            count += 1;
        }
        y -= 1;
    }
    LinesCompletedEvent(count)
}

/// Clearing when no row is full changes nothing: every cell stays where it
/// is, so the occupancy is the same, and the number of rows cleared is zero.
pub proof fn lemma_clear_without_full_row(cells: Seq<BoardPosition>)
    requires
        forall|y: int| 1 <= y <= BOARD_HEIGHT ==> !row_full(occupancy(cells), y),
    ensures
        full_rows(occupancy(cells), BOARD_HEIGHT as int).len() == 0,
        settled(occupancy(cells), cells) == cells,
        occupancy(settled(occupancy(cells), cells)) == occupancy(cells),
{
    let occupied = occupancy(cells);
    let fate = |cell: BoardPosition| settled_cell(occupied, cell);
    lemma_no_full_row_below(occupied, BOARD_HEIGHT as int);
    assert forall|i: int| 0 <= i < cells.len() implies fate(#[trigger] cells[i]) == Some(
        cells[i],
    ) by {
        let y = cells[i].y as int;
        lemma_no_full_row_below(
            occupied,
            if y - 1 < BOARD_HEIGHT { y - 1 } else { BOARD_HEIGHT as int },
        );
        if row_full(occupied, y) {
            assert(occupied.contains((1, y)));
        }
    }
    lemma_filter_map_keeps(cells, fate);
}

/// Row by row, too, clearing when no row is full changes nothing.
pub proof fn lemma_row_by_row_without_full_row(occupied: Set<(int, int)>, low: int)
    requires
        forall|y: int| 1 <= y <= BOARD_HEIGHT ==> !row_full(occupied, y),
        1 <= low,
    ensures
        cleared_row_by_row(occupied, low) == occupied,
    decreases BOARD_HEIGHT + 1 - low,
{
    if low <= BOARD_HEIGHT {
        lemma_row_by_row_without_full_row(occupied, low + 1);
    }
}

/// What a pass of line clearing leaves, column by column: when row `y` is not
/// full, the place to which it comes down holds a cell after the pass exactly
/// if row `y` held a cell in that column before; and every cell that is left
/// came down from a row that was not full.
pub proof fn lemma_settled_rows(cells: Seq<BoardPosition>, x: int, y: int)
    ensures
        !row_full(occupancy(cells), y) ==> (holds_cell(
            settled(occupancy(cells), cells),
            x,
            y - full_rows_below(occupancy(cells), y),
        ) <==> holds_cell(cells, x, y)),
        holds_cell(settled(occupancy(cells), cells), x, y) ==> exists|from: int|
            #![trigger holds_cell(cells, x, from)]
            holds_cell(cells, x, from) && !row_full(occupancy(cells), from) && y == from
                - full_rows_below(occupancy(cells), from),
{
    let occupied = occupancy(cells);
    let fate = |cell: BoardPosition| settled_cell(occupied, cell);
    let left = settled(occupied, cells);
    let down = y - full_rows_below(occupied, y);
    if !row_full(occupied, y) && holds_cell(cells, x, y) {
        let i = choose|i: int|
            0 <= i < cells.len() && (#[trigger] cells[i]).x == x && cells[i].y == y;
        lemma_settled_among_full_rows(occupied, cells[i]);
        lemma_filter_map_holds(cells, fate, i);
    }
    if !row_full(occupied, y) && holds_cell(left, x, down) {
        let k = choose|k: int|
            0 <= k < left.len() && (#[trigger] left[k]).x == x && left[k].y == down;
        cells.lemma_filter_map_contains(fate, left[k]);
        let cell = choose|cell: BoardPosition| #[trigger]
            cells.contains(cell) && fate(cell) == Some(left[k]);
        lemma_settled_among_full_rows(occupied, cell);
        if cell.y < y {
            lemma_rows_keep_their_order(occupied, cell.y as int, y);
        } else if y < cell.y {
            lemma_rows_keep_their_order(occupied, y, cell.y as int);
        }
    }
    if holds_cell(left, x, y) {
        let k = choose|k: int| 0 <= k < left.len() && (#[trigger] left[k]).x == x && left[k].y == y;
        cells.lemma_filter_map_contains(fate, left[k]);
        let cell = choose|cell: BoardPosition| #[trigger]
            cells.contains(cell) && fate(cell) == Some(left[k]);
        lemma_settled_among_full_rows(occupied, cell);
        assert(holds_cell(cells, x, cell.y as int));
    }
}

/// Rows that stay keep their order: of two rows, the upper comes to rest
/// above the place of the lower, if the lower stays.
pub proof fn lemma_rows_keep_their_order(occupied: Set<(int, int)>, lower: int, upper: int)
    requires
        lower < upper,
        !row_full(occupied, lower),
    ensures
        lower - full_rows_below(occupied, lower) < upper - full_rows_below(occupied, upper),
{
    let top = BOARD_HEIGHT as int;
    let under_upper = if upper - 1 < top { upper - 1 } else { top };
    if lower <= top {
        // Row `lower` itself lies between the two counts, and is not full.
        lemma_full_rows_growth(occupied, lower, under_upper);
    }
}

/// After a pass of line clearing over cells that all lie inside the
/// playfield, no row is full.
pub proof fn lemma_no_full_row_is_left(cells: Seq<BoardPosition>, y: int)
    requires
        forall|i: int| 0 <= i < cells.len() ==> (#[trigger] cells[i]).inside(),
    ensures
        !row_full(occupancy(settled(occupancy(cells), cells)), y),
{
    let occupied = occupancy(cells);
    let left = settled(occupied, cells);
    if row_full(occupancy(left), y) {
        assert(occupancy(left).contains((1, y)));
        lemma_settled_rows(cells, 1, y);
        let from = choose|from: int|
            #![trigger holds_cell(cells, 1, from)]
            holds_cell(cells, 1, from) && !row_full(occupied, from) && y == from - full_rows_below(
                occupied,
                from,
            );
        assert forall|x: int| 1 <= x <= BOARD_WIDTH implies occupied.contains((x, from)) by {
            assert(occupancy(left).contains((x, y)));
            lemma_settled_rows(cells, x, from);
        }
    }
}

/// One pass is as good as row by row: over cells that all lie inside the
/// playfield, what the pass of line clearing leaves is what is left when the
/// full rows are removed one at a time, the highest first, each time moving
/// the rows above down by one.
pub proof fn lemma_one_pass_is_row_by_row(cells: Seq<BoardPosition>)
    requires
        forall|i: int| 0 <= i < cells.len() ==> (#[trigger] cells[i]).inside(),
    ensures
        occupancy(settled(occupancy(cells), cells)) == cleared_row_by_row(occupancy(cells), 1),
{
    let occupied = occupancy(cells);
    let left = occupancy(settled(occupied, cells));
    let one_by_one = cleared_row_by_row(occupied, 1);
    assert forall|p: (int, int)| left.contains(p) <==> one_by_one.contains(p) by {
        let (x, y) = p;
        if left.contains(p) {
            lemma_settled_rows(cells, x, y);
            let row = choose|row: int|
                #![trigger holds_cell(cells, x, row)]
                holds_cell(cells, x, row) && !row_full(occupied, row) && y == row
                    - full_rows_below(occupied, row);
            lemma_row_by_row_keeps(occupied, 1, x, row);
        }
        if one_by_one.contains(p) {
            let row = lemma_row_by_row_source(occupied, 1, x, y);
            lemma_settled_rows(cells, x, row);
        }
    }
}

/// The full rows among `1..=top` lie in that range, in rising order, and
/// every full row of the range is among them.
pub proof fn lemma_full_rows(occupied: Set<(int, int)>, top: int)
    ensures
        full_rows(occupied, top).len() <= if top < 0 { 0 } else { top },
        forall|k: int|
            0 <= k < full_rows(occupied, top).len() ==> 1 <= #[trigger] full_rows(
                occupied,
                top,
            )[k] <= top && row_full(occupied, full_rows(occupied, top)[k]),
        forall|j: int, k: int|
            0 <= j < k < full_rows(occupied, top).len() ==> full_rows(occupied, top)[j]
                < full_rows(occupied, top)[k],
        forall|y: int|
            1 <= y <= top && #[trigger] row_full(occupied, y) ==> full_rows(
                occupied,
                top,
            ).contains(y),
    decreases top,
{
    if top >= 1 {
        lemma_full_rows(occupied, top - 1);
        let below = full_rows(occupied, top - 1);
        let all = full_rows(occupied, top);
        assert forall|y: int| 1 <= y <= top && row_full(occupied, y) implies all.contains(y) by {
            if y < top {
                let k = choose|k: int| 0 <= k < below.len() && below[k] == y;
                assert(all[k] == y);
            } else {
                assert(all[all.len() - 1] == y);
            }
        }
    }
}

/// Counting the entries below `y` in the list of full rows gives the number
/// of full rows below `y`.
pub proof fn lemma_count_below_full_rows(occupied: Set<(int, int)>, top: int, y: int)
    ensures
        count_below(full_rows(occupied, top), y) == full_rows(
            occupied,
            if y - 1 < top { y - 1 } else { top },
        ).len(),
    decreases top,
{
    let below_y = |line: int| line < y;
    if top >= 1 {
        lemma_count_below_full_rows(occupied, top - 1, y);
        if row_full(occupied, top) {
            full_rows(occupied, top - 1).lemma_filter_len_push(below_y, top);
        }
    }
}

/// Clearing the rows that the list of full rows names is clearing the full
/// rows; and a cell that stays does not leave the range of `i32`.
pub proof fn lemma_settled_among_full_rows(occupied: Set<(int, int)>, cell: BoardPosition)
    requires
        forall|x: int, y: int| occupied.contains((x, y)) ==> in_bounds(x, y),
    ensures
        settled_among(full_rows(occupied, BOARD_HEIGHT as int), cell) == settled_cell(
            occupied,
            cell,
        ),
        count_below(full_rows(occupied, BOARD_HEIGHT as int), cell.y as int) == full_rows_below(
            occupied,
            cell.y as int,
        ),
        0 <= full_rows_below(occupied, cell.y as int) <= BOARD_HEIGHT,
        cell.y >= 1 ==> full_rows_below(occupied, cell.y as int) < cell.y,
        cell.y < 1 ==> full_rows_below(occupied, cell.y as int) == 0,
{
    let y = cell.y as int;
    let below = if y - 1 < BOARD_HEIGHT { y - 1 } else { BOARD_HEIGHT as int };
    lemma_full_rows(occupied, BOARD_HEIGHT as int);
    lemma_full_rows(occupied, below);
    lemma_count_below_full_rows(occupied, BOARD_HEIGHT as int, y);
    if row_full(occupied, y) {
        assert(in_bounds(1, y));
    }
}

/// Between two rows, the number of full rows grows by no more than the
/// number of rows.
proof fn lemma_full_rows_growth(occupied: Set<(int, int)>, low: int, high: int)
    requires
        low <= high,
    ensures
        full_rows(occupied, low).len() <= full_rows(occupied, high).len(),
        full_rows(occupied, high).len() - full_rows(occupied, low).len() <= high - low,
        full_rows(occupied, high).len() <= if high < 0 { 0 } else { high },
    decreases high - low,
{
    lemma_full_rows(occupied, high);
    if low < high {
        lemma_full_rows_growth(occupied, low, high - 1);
    }
}

/// Where no row up to `top` is full, the list of full rows is empty.
proof fn lemma_no_full_row_below(occupied: Set<(int, int)>, top: int)
    requires
        forall|y: int| 1 <= y <= BOARD_HEIGHT ==> !row_full(occupied, y),
        top <= BOARD_HEIGHT,
    ensures
        full_rows(occupied, top).len() == 0,
    decreases top,
{
    if top >= 1 {
        lemma_no_full_row_below(occupied, top - 1);
    }
}

/// A pass that maps every element to itself keeps the sequence.
proof fn lemma_filter_map_keeps<A>(s: Seq<A>, f: spec_fn(A) -> Option<A>)
    requires
        forall|i: int| 0 <= i < s.len() ==> f(#[trigger] s[i]) == Some(s[i]),
    ensures
        s.filter_map(f) == s,
    decreases s.len(),
{
    if s.len() > 0 {
        lemma_filter_map_keeps(s.drop_last(), f);
    }
}

/// An element that the pass keeps is found in what the pass leaves.
proof fn lemma_filter_map_holds<A, B>(s: Seq<A>, f: spec_fn(A) -> Option<B>, i: int)
    requires
        0 <= i < s.len(),
        f(s[i]) is Some,
    ensures
        exists|k: int|
            0 <= k < s.filter_map(f).len() && Some(#[trigger] s.filter_map(f)[k]) == f(s[i]),
    decreases s.len(),
{
    let rest = s.drop_last();
    let kept = s.filter_map(f);
    if i == s.len() - 1 {
        assert(Some(kept[kept.len() - 1]) == f(s[i]));
    } else {
        lemma_filter_map_holds(rest, f, i);
        let k = choose|k: int|
            0 <= k < rest.filter_map(f).len() && Some(#[trigger] rest.filter_map(f)[k]) == f(
                rest[i],
            );
        assert(kept[k] == rest.filter_map(f)[k]);
    }
}

/// Number of full rows among `low..row`.
spec fn full_rows_between(occupied: Set<(int, int)>, low: int, row: int) -> int {
    if row > low {
        full_rows(occupied, row - 1).len() - full_rows(occupied, low - 1).len()
    } else {
        0
    }
}

/// Below the rows that were removed, nothing has changed.
proof fn lemma_row_by_row_leaves_below(occupied: Set<(int, int)>, low: int, x: int, y: int)
    requires
        forall|x: int, y: int| occupied.contains((x, y)) ==> in_bounds(x, y),
        1 <= low <= BOARD_HEIGHT + 1,
        y < low,
    ensures
        cleared_row_by_row(occupied, low).contains((x, y)) <==> occupied.contains((x, y)),
    decreases BOARD_HEIGHT + 1 - low,
{
    if low <= BOARD_HEIGHT {
        lemma_row_by_row_leaves_below(occupied, low + 1, x, y);
    }
}

/// Where a row that stays has come to when the full rows from `low` up are
/// removed: down by the number of those that lay below it.
proof fn lemma_row_by_row_keeps(occupied: Set<(int, int)>, low: int, x: int, row: int)
    requires
        forall|x: int, y: int| occupied.contains((x, y)) ==> in_bounds(x, y),
        1 <= low <= BOARD_HEIGHT + 1,
        in_bounds(x, row),
        row < low || !row_full(occupied, row),
    ensures
        cleared_row_by_row(occupied, low).contains(
            (x, row - full_rows_between(occupied, low, row)),
        ) <==> occupied.contains((x, row)),
        row < low ==> full_rows_between(occupied, low, row) == 0,
        row >= low ==> low <= row - full_rows_between(occupied, low, row) <= row,
    decreases BOARD_HEIGHT + 1 - low,
{
    if low <= BOARD_HEIGHT {
        lemma_row_by_row_keeps(occupied, low + 1, x, row);
    }
}

/// Where a cell that is there after the full rows from `low` up were removed
/// has come from: a row that stayed, which held a cell in that column.
proof fn lemma_row_by_row_source(occupied: Set<(int, int)>, low: int, x: int, y: int) -> (row: int)
    requires
        forall|x: int, y: int| occupied.contains((x, y)) ==> in_bounds(x, y),
        1 <= low <= BOARD_HEIGHT + 1,
        cleared_row_by_row(occupied, low).contains((x, y)),
    ensures
        in_bounds(x, row),
        in_bounds(x, y),
        row < low || !row_full(occupied, row),
        y == row - full_rows_between(occupied, low, row),
        occupied.contains((x, row)),
    decreases BOARD_HEIGHT + 1 - low,
{
    if low > BOARD_HEIGHT {
        y
    } else {
        let above = if row_full(occupied, low) && y >= low { y + 1 } else { y };
        let row = lemma_row_by_row_source(occupied, low + 1, x, above);
        if row > low {
            lemma_full_rows_growth(occupied, low, row - 1);
        }
        row
    }
}

} // verus!
