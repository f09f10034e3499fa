//! The playfield: grid coordinates and the occupancy grid of settled cells.

use vstd::prelude::*;

verus! {

/// Number of columns of the playfield.
pub const BOARD_WIDTH: i32 = 10;

/// Number of rows of the playfield.
pub const BOARD_HEIGHT: i32 = 25;

/// Number of cells of the playfield.
pub const BOARD_CELLS: usize = 250;

/// A grid coordinate. Columns `1..=BOARD_WIDTH` and rows `1..=BOARD_HEIGHT`
/// lie inside the playfield; column `0`, column `BOARD_WIDTH + 1` and row `0`
/// are the walls and the floor; rows above `BOARD_HEIGHT` are open headroom.
#[derive(Clone, Copy, Debug, PartialEq, Eq, Structural)]
pub struct BoardPosition {
    pub x: i32,
    pub y: i32,
}

impl BoardPosition {
    /// The position in column `x` and row `y`.
    pub fn new(x: i32, y: i32) -> (pos: Self)
        ensures
            pos.x == x,
            pos.y == y,
    {
        Self { x, y }
    }

    /// `(self.x, self.y)` lies inside the playfield.
    pub open spec fn inside(self) -> bool {
        in_bounds(self.x as int, self.y as int)
    }

    /// Row-major index of a position inside the playfield.
    pub fn into_idx(self) -> (idx: usize)
        requires
            self.inside(),
        ensures
            idx == cell_index(self.x as int, self.y as int),
            idx < BOARD_CELLS,
    {
        (self.x - 1 + (self.y - 1) * BOARD_WIDTH) as usize
    }
}

impl core::ops::Add<(i32, i32)> for BoardPosition {
    type Output = BoardPosition;

    fn add(self, rhs: (i32, i32)) -> (out: BoardPosition) {
        BoardPosition { x: self.x + rhs.0, y: self.y + rhs.1 }
    }
}

impl vstd::std_specs::ops::AddSpecImpl<(i32, i32)> for BoardPosition {
    open spec fn obeys_add_spec() -> bool {
        true
    }

    open spec fn add_req(self, rhs: (i32, i32)) -> bool {
        &&& i32::MIN <= self.x + rhs.0 <= i32::MAX
        &&& i32::MIN <= self.y + rhs.1 <= i32::MAX
    }

    open spec fn add_spec(self, rhs: (i32, i32)) -> BoardPosition {
        BoardPosition { x: (self.x + rhs.0) as i32, y: (self.y + rhs.1) as i32 }
    }
}

impl core::ops::Sub<(i32, i32)> for BoardPosition {
    type Output = BoardPosition;

    fn sub(self, rhs: (i32, i32)) -> (out: BoardPosition) {
        BoardPosition { x: self.x - rhs.0, y: self.y - rhs.1 }
    }
}

impl vstd::std_specs::ops::SubSpecImpl<(i32, i32)> for BoardPosition {
    open spec fn obeys_sub_spec() -> bool {
        true
    }

    open spec fn sub_req(self, rhs: (i32, i32)) -> bool {
        &&& i32::MIN <= self.x - rhs.0 <= i32::MAX
        &&& i32::MIN <= self.y - rhs.1 <= i32::MAX
    }

    open spec fn sub_spec(self, rhs: (i32, i32)) -> BoardPosition {
        BoardPosition { x: (self.x - rhs.0) as i32, y: (self.y - rhs.1) as i32 }
    }
}

impl core::ops::Add<BoardPosition> for (i32, i32) {
    type Output = (i32, i32);

    fn add(self, rhs: BoardPosition) -> (out: (i32, i32)) {
        (self.0 + rhs.x, self.1 + rhs.y)
    }
}

impl vstd::std_specs::ops::AddSpecImpl<BoardPosition> for (i32, i32) {
    open spec fn obeys_add_spec() -> bool {
        true
    }

    open spec fn add_req(self, rhs: BoardPosition) -> bool {
        &&& i32::MIN <= self.0 + rhs.x <= i32::MAX
        &&& i32::MIN <= self.1 + rhs.y <= i32::MAX
    }

    open spec fn add_spec(self, rhs: BoardPosition) -> (i32, i32) {
        ((self.0 + rhs.x) as i32, (self.1 + rhs.y) as i32)
    }
}

impl core::ops::Sub<BoardPosition> for (i32, i32) {
    type Output = (i32, i32);

    fn sub(self, rhs: BoardPosition) -> (out: (i32, i32)) {
        (self.0 - rhs.x, self.1 - rhs.y)
    }
}

impl vstd::std_specs::ops::SubSpecImpl<BoardPosition> for (i32, i32) {
    open spec fn obeys_sub_spec() -> bool {
        true
    }

    open spec fn sub_req(self, rhs: BoardPosition) -> bool {
        &&& i32::MIN <= self.0 - rhs.x <= i32::MAX
        &&& i32::MIN <= self.1 - rhs.y <= i32::MAX
    }

    open spec fn sub_spec(self, rhs: BoardPosition) -> (i32, i32) {
        ((self.0 - rhs.x) as i32, (self.1 - rhs.y) as i32)
    }
}

impl From<(i32, i32)> for BoardPosition {
    fn from(pair: (i32, i32)) -> (pos: BoardPosition) {
        BoardPosition { x: pair.0, y: pair.1 }
    }
}

impl vstd::std_specs::convert::FromSpecImpl<(i32, i32)> for BoardPosition {
    open spec fn obeys_from_spec() -> bool {
        true
    }

    open spec fn from_spec(pair: (i32, i32)) -> BoardPosition {
        BoardPosition { x: pair.0, y: pair.1 }
    }
}

/// A coordinate inside the playfield.
pub open spec fn in_bounds(x: int, y: int) -> bool {
    1 <= x <= BOARD_WIDTH && 1 <= y <= BOARD_HEIGHT
}

/// A coordinate on the left wall, the right wall or the floor.
pub open spec fn is_wall(x: int, y: int) -> bool {
    x == 0 || x == BOARD_WIDTH + 1 || y == 0
}

/// Row-major index of a coordinate inside the playfield.
pub open spec fn cell_index(x: int, y: int) -> int {
    (x - 1) + (y - 1) * BOARD_WIDTH
}

/// Some cell of `cells` sits at `(x, y)`.
pub open spec fn holds_cell(cells: Seq<BoardPosition>, x: int, y: int) -> bool {
    exists|i: int| 0 <= i < cells.len() && (#[trigger] cells[i]).x == x && cells[i].y == y
}

/// The coordinates inside the playfield at which a cell of `cells` sits.
/// Cells outside the playfield leave no mark.
pub open spec fn occupancy(cells: Seq<BoardPosition>) -> Set<(int, int)> {
    Set::new(|p: (int, int)| in_bounds(p.0, p.1) && holds_cell(cells, p.0, p.1))
}

/// The single collision oracle: walls, floor and occupied cells are solid,
/// everything else (the headroom above the playfield included) is free.
pub open spec fn solid(occupied: Set<(int, int)>, x: int, y: int) -> bool {
    is_wall(x, y) || occupied.contains((x, y))
}

/// Every cell of row `y` is occupied.
pub open spec fn row_full(occupied: Set<(int, int)>, y: int) -> bool {
    forall|x: int| 1 <= x <= BOARD_WIDTH ==> occupied.contains((x, y))
}

/// The occupancy after row `line` is removed and every row above it has
/// come down by one.
pub open spec fn without_row(occupied: Set<(int, int)>, line: int) -> Set<(int, int)> {
    Set::new(
        |p: (int, int)|
            in_bounds(p.0, p.1) && occupied.contains((p.0, if p.1 < line { p.1 } else { p.1 + 1 })),
    )
}

/// The playfield as text: the rows below the top row, the highest first,
/// each with `*` for an occupied cell and `.` for a free one, and a line
/// break after each row. The top row, where the pieces enter, is not shown.
pub open spec fn text_of(occupied: Set<(int, int)>) -> Seq<char> {
    Seq::new(
        ((BOARD_HEIGHT - 1) * (BOARD_WIDTH + 1)) as nat,
        |i: int|
            {
                let y = BOARD_HEIGHT - 1 - i / (BOARD_WIDTH + 1);
                let x = i % (BOARD_WIDTH + 1) + 1;
                if x > BOARD_WIDTH {
                    '\n'
                } else if occupied.contains((x, y)) {
                    '*'
                } else {
                    '.'
                }
            },
    )
}

/// Occupancy of the playfield: one flag per cell inside it, row by row from
/// the bottom. Walls and floor are not stored; they are always solid.
pub struct Board {
    inner: [bool; BOARD_CELLS],
}

impl View for Board {
    type V = Set<(int, int)>;

    /// The coordinates of the occupied cells. All of them lie inside the
    /// playfield.
    closed spec fn view(&self) -> Set<(int, int)> {
        Set::new(|p: (int, int)| in_bounds(p.0, p.1) && self.inner@[cell_index(p.0, p.1)])
    }
}

impl Board {
    /// Only cells inside the playfield are ever occupied.
    pub proof fn lemma_view_in_bounds(&self)
        ensures
            forall|x: int, y: int| self@.contains((x, y)) ==> in_bounds(x, y),
    {
    }

    /// The board with no occupied cell.
    pub fn new() -> (board: Board)
        ensures
            board@ == Set::<(int, int)>::empty(),
    {
        Board { inner: [false; BOARD_CELLS] }
    }

    /// Marks the cell at `pos` as occupied.
    pub fn set_occupied(&mut self, pos: BoardPosition)
        requires
            pos.inside(),
        ensures
            final(self)@ == old(self)@.insert((pos.x as int, pos.y as int)),
    {
        let idx = pos.into_idx();
        self.inner[idx] = true;
    }

    /// Removes row `line` and moves every row above it down by one; the top
    /// row becomes empty.
    pub fn clear_row_and_shift(&mut self, line: i32)
        requires
            1 <= line <= BOARD_HEIGHT,
        ensures
            final(self)@ == without_row(old(self)@, line as int),
    {
        let start: usize = ((line - 1) * BOARD_WIDTH) as usize;
        let width: usize = BOARD_WIDTH as usize;
        let mut i: usize = start;
        while i < BOARD_CELLS
            invariant
                start == (line - 1) * BOARD_WIDTH,
                width == BOARD_WIDTH,
                start <= i <= BOARD_CELLS,
                forall|j: int| 0 <= j < start ==> self.inner@[j] == old(self).inner@[j],
                forall|j: int| i <= j < BOARD_CELLS ==> self.inner@[j] == old(self).inner@[j],
                forall|j: int|
                    start <= j < i ==> self.inner@[j] == (j + BOARD_WIDTH < BOARD_CELLS
                        && old(self).inner@[j + BOARD_WIDTH]),
            decreases BOARD_CELLS - i,
        {
            let above: bool = if i + width < BOARD_CELLS {
                self.inner[i + width]
            } else {
                false
            };
            self.inner[i] = above;
            i += 1;
        }
    }

    /// The playfield as text.
    pub fn to_text(&self) -> (text: String)
        ensures
            text@ == text_of(self@),
    {
        // In all, 24 rows of 11 characters each.
        let ghost whole = text_of(self@);
        let mut text = String::new();
        let mut y: i32 = BOARD_HEIGHT - 1;
        while y >= 1
            invariant
                0 <= y <= BOARD_HEIGHT - 1,
                whole == text_of(self@),
                whole.len() == 264,
                text@ == whole.take((24 - y) * 11),
            decreases y,
        {
            let mut x: i32 = 1;
            while x <= BOARD_WIDTH
                invariant
                    1 <= y <= BOARD_HEIGHT - 1,
                    1 <= x <= BOARD_WIDTH + 1,
                    whole == text_of(self@),
                    whole.len() == 264,
                    text@ == whole.take((24 - y) * 11 + x - 1),
                decreases BOARD_WIDTH + 1 - x,
            {
                let ch = if self.inner[BoardPosition::new(x, y).into_idx()] {
                    '*'
                } else {
                    '.'
                };
                text.push(ch);
                x += 1;
            }
            text.push('\n');
            y -= 1;
        }
        text
    }

    /// Is every cell of row `line` occupied?
    pub fn is_line_full(&self, line: i32) -> (full: bool)
        requires
            1 <= line <= BOARD_HEIGHT,
        ensures
            full == row_full(self@, line as int),
    {
        let mut x: i32 = 1;
        while x <= BOARD_WIDTH
            invariant
                1 <= x <= BOARD_WIDTH + 1,
                1 <= line <= BOARD_HEIGHT,
                forall|k: int| 1 <= k < x ==> self@.contains((k, line as int)),
            decreases BOARD_WIDTH + 1 - x,
        {
            if !self.inner[BoardPosition::new(x, line).into_idx()] {
                assert(!self@.contains((x as int, line as int)));
                return false;
            }
            x += 1;
        }
        true
    }

    /// Is `bp` in a wall, in the floor or in a settled cell?
    pub fn is_concrete(&self, bp: BoardPosition) -> (solid: bool)
        ensures
            solid == self::solid(self@, bp.x as int, bp.y as int),
            is_wall(bp.x as int, bp.y as int) ==> solid,
    {
        if bp.x == 0 || bp.x == BOARD_WIDTH + 1 || bp.y == 0 {
            true
        } else if bp.x < 1 || bp.x > BOARD_WIDTH || bp.y < 1 || bp.y > BOARD_HEIGHT {
            false
        } else {
            self.inner[bp.into_idx()]
        }
    }

    /// The board on which exactly those cells of `cells` that lie inside the
    /// playfield are occupied.
    pub fn from_cells(cells: &[BoardPosition]) -> (board: Board)
        ensures
            board@ == occupancy(cells@),
    {
        let mut board = Board::new();
        let mut i: usize = 0;
        while i < cells.len()
            invariant
                i <= cells.len(),
                forall|x: int, y: int| #[trigger]
                    board@.contains((x, y)) <==> in_bounds(x, y) && holds_cell(
                        cells@.take(i as int),
                        x,
                        y,
                    ),
            decreases cells.len() - i,
        {
            let bp = cells[i];
            if bp.x >= 1 && bp.x <= BOARD_WIDTH && bp.y >= 1 && bp.y <= BOARD_HEIGHT {
                board.set_occupied(bp);
            }
            proof {
                let longer = cells@.take(i + 1);
                assert forall|x: int, y: int| #[trigger]
                    board@.contains((x, y)) <==> in_bounds(x, y) && holds_cell(
                        longer,
                        x,
                        y,
                    ) by {
                    if bp.x == x && bp.y == y {
                        assert(longer[i as int] == bp);
                    }
                }
            }
            i += 1;
        }
        assert(cells@.take(cells.len() as int) == cells@);
        board
    }
}

/// `String::push` appends the character to the end of the string.
pub assume_specification[ String::push ](text: &mut String, ch: char)
    ensures
        final(text)@ == old(text)@.push(ch),
;

/// Walls and floor are solid whatever is occupied.
pub proof fn lemma_walls_solid(occupied: Set<(int, int)>, x: int, y: int)
    requires
        is_wall(x, y),
    ensures
        solid(occupied, x, y),
{
}

/// Away from the walls and the floor, nothing outside the playfield is
/// solid on a board: the headroom above the top row is always free.
pub proof fn lemma_outside_free(board: &Board, x: int, y: int)
    requires
        !is_wall(x, y),
        !in_bounds(x, y),
    ensures
        !solid(board@, x, y),
{
}

} // verus!
