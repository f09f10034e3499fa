//! The falling piece: the seven shapes, their four orientations and the
//! cells they cover.

use rand::Rng;
use vstd::prelude::*;

use crate::board::{solid, Board, BoardPosition, BOARD_HEIGHT, BOARD_WIDTH};

verus! {

/// The seven shapes.
#[derive(Clone, Copy, Debug, PartialEq, Eq, Structural)]
pub enum PieceType {
    Square,
    T,
    L,
    InvL,
    Bar,
    S,
    InvS,
}

/// The four orientations, a cycle: clockwise `Up`, `Right`, `Bottom`, `Left`.
#[derive(Clone, Copy, Debug, PartialEq, Eq, Structural)]
pub enum Orientation {
    Up,
    Left,
    Bottom,
    Right,
}

/// A quarter turn.
#[derive(Clone, Copy, Debug, PartialEq, Eq, Structural)]
pub enum Rotation {
    Clock,
    Anti,
}

/// Four cell offsets, one per slot of a shape.
pub type PiecePositions = [(i32, i32); 4];

/// The falling piece: a shape, its orientation and the place of its anchor.
#[derive(Clone, Copy, Debug, PartialEq, Eq, Structural)]
pub struct Piece {
    pub piece_type: PieceType,
    pub orientation: Orientation,
    /// The anchor; the cells are placed relative to it.
    pub position: BoardPosition,
}

/// Column of the anchor of a new piece: the middle of the playfield.
pub const SPAWN_X: i32 = 5;

/// Row of the anchor of a new piece: the top row.
pub const SPAWN_Y: i32 = BOARD_HEIGHT;

/// The offsets of `a` as mathematical pairs.
pub open spec fn offsets(a: PiecePositions) -> Seq<(int, int)> {
    Seq::new(4, |k: int| (a[k].0 as int, a[k].1 as int))
}

/// The positions of `a` as mathematical pairs.
pub open spec fn coords(a: [BoardPosition; 4]) -> Seq<(int, int)> {
    Seq::new(4, |k: int| (a[k].x as int, a[k].y as int))
}

/// `s` moved by `(dx, dy)`.
pub open spec fn shifted(s: Seq<(int, int)>, dx: int, dy: int) -> Seq<(int, int)> {
    Seq::new(s.len(), |k: int| (s[k].0 + dx, s[k].1 + dy))
}

/// The four pairs of `s` differ from one another.
pub open spec fn pairwise_distinct(s: Seq<(int, int)>) -> bool {
    forall|i: int, j: int| 0 <= i < j < s.len() ==> s[i] != s[j]
}

/// Some cell of `cells` is in a wall, in the floor or on an occupied cell.
pub open spec fn collides(occupied: Set<(int, int)>, cells: Seq<(int, int)>) -> bool {
    exists|k: int| 0 <= k < cells.len() && solid(occupied, (#[trigger] cells[k]).0, cells[k].1)
}

/// Where a new piece appears: centred, in the top row, pointing up.
pub open spec fn spawned(piece_type: PieceType) -> Piece {
    Piece {
        piece_type,
        orientation: Orientation::Up,
        position: BoardPosition { x: SPAWN_X, y: SPAWN_Y },
    }
}

/// Cells after a quarter turn clockwise about the origin: what pointed up
/// points right.
pub open spec fn quarter_turn(s: Seq<(int, int)>) -> Seq<(int, int)> {
    Seq::new(s.len(), |k: int| (s[k].1, -s[k].0))
}

/// The least of four numbers.
pub open spec fn least(a: int, b: int, c: int, d: int) -> int {
    let ab = if a <= b { a } else { b };
    let cd = if c <= d { c } else { d };
    if ab <= cd { ab } else { cd }
}

/// Four cells moved together so that their least column and their least row
/// are zero.
pub open spec fn cornered(s: Seq<(int, int)>) -> Seq<(int, int)> {
    shifted(
        s,
        -least(s[0].0, s[1].0, s[2].0, s[3].0),
        -least(s[0].1, s[1].1, s[2].1, s[3].1),
    )
}

/// `p` is one of the four cells of `s`.
pub open spec fn among(s: Seq<(int, int)>, p: (int, int)) -> bool {
    s[0] == p || s[1] == p || s[2] == p || s[3] == p
}

impl PieceType {
    /// Offset that is added to every cell of the shape, whatever the
    /// orientation, so that the shapes turn about a common pivot.
    pub open spec fn spec_anchor(self) -> (int, int) {
        match self {
            PieceType::T | PieceType::L | PieceType::InvL => (-1, 0),
            _ => (0, 0),
        }
    }

    /// The four cells of the shape in the given orientation, by slot.
    pub open spec fn shape(self, orientation: Orientation) -> Seq<(int, int)> {
        match self {
            PieceType::Square => seq![(0, 0), (1, 0), (0, -1), (1, -1)],
            PieceType::T => match orientation {
                Orientation::Up => seq![(1, 0), (0, -1), (1, -1), (2, -1)],
                Orientation::Left => seq![(0, -1), (1, 0), (1, -1), (1, -2)],
                Orientation::Bottom => seq![(0, -1), (1, -1), (2, -1), (1, -2)],
                Orientation::Right => seq![(1, 0), (1, -1), (1, -2), (2, -1)],
            },
            PieceType::L => match orientation {
                Orientation::Up => seq![(0, 0), (1, 0), (2, 0), (2, -1)],
                Orientation::Left => seq![(0, 0), (0, -1), (0, -2), (1, 0)],
                Orientation::Bottom => seq![(0, 0), (0, -1), (1, -1), (2, -1)],
                Orientation::Right => seq![(1, 0), (1, -1), (1, -2), (0, -2)],
            },
            PieceType::InvL => match orientation {
                Orientation::Up => seq![(0, 0), (1, 0), (2, 0), (0, -1)],
                Orientation::Left => seq![(0, 0), (0, -1), (0, -2), (1, -2)],
                Orientation::Bottom => seq![(2, 0), (0, -1), (1, -1), (2, -1)],
                Orientation::Right => seq![(0, 0), (1, 0), (1, -1), (1, -2)],
            },
            PieceType::Bar => match orientation {
                Orientation::Up | Orientation::Bottom => seq![(-1, 0), (0, 0), (1, 0), (2, 0)],
                Orientation::Left | Orientation::Right => seq![(1, 0), (1, 1), (1, 2), (1, 3)],
            },
            PieceType::S => match orientation {
                Orientation::Up | Orientation::Bottom => seq![(1, 0), (2, 0), (0, -1), (1, -1)],
                Orientation::Left | Orientation::Right => seq![(0, 0), (0, -1), (1, -1), (1, -2)],
            },
            PieceType::InvS => match orientation {
                Orientation::Up | Orientation::Bottom => seq![(0, 0), (1, 0), (1, -1), (2, -1)],
                Orientation::Left | Orientation::Right => seq![(0, -1), (0, -2), (1, 0), (1, -1)],
            },
        }
    }

    /// The shape that a draw of `n` stands for.
    pub open spec fn of_draw(n: int) -> PieceType {
        if n == 0 {
            PieceType::Square
        } else if n == 1 {
            PieceType::T
        } else if n == 2 {
            PieceType::L
        } else if n == 3 {
            PieceType::InvL
        } else if n == 4 {
            PieceType::S
        } else if n == 5 {
            PieceType::InvS
        } else {
            PieceType::Bar
        }
    }

    /// The shape that a draw of `n` stands for.
    pub fn from_draw(n: i32) -> (piece_type: PieceType)
        ensures
            piece_type == PieceType::of_draw(n as int),
    {
        match n {
            0 => PieceType::Square,
            1 => PieceType::T,
            2 => PieceType::L,
            3 => PieceType::InvL,
            4 => PieceType::S,
            5 => PieceType::InvS,
            _ => PieceType::Bar,
        }
    }

    /// A shape drawn at random: the shape of some draw among the seven.
    pub fn random() -> (piece_type: PieceType)
        ensures
            exists|n: int| 0 <= n < 7 && piece_type == PieceType::of_draw(n),
    {
        let n = draw_below_seven();
        PieceType::from_draw(n)
    }

    /// The anchor offset of the shape.
    pub fn anchor(&self) -> (pos: BoardPosition)
        ensures
            (pos.x as int, pos.y as int) == self.spec_anchor(),
    {
        match self {
            PieceType::Square => BoardPosition::new(0, 0),
            PieceType::T => BoardPosition::new(-1, 0),
            PieceType::L => BoardPosition::new(-1, 0),
            PieceType::InvL => BoardPosition::new(-1, 0),
            PieceType::Bar => BoardPosition::new(0, 0),
            PieceType::S => BoardPosition::new(0, 0),
            PieceType::InvS => BoardPosition::new(0, 0),
        }
    }

    /// The four cells of the shape in the given orientation, by slot.
    pub fn square_pos(&self, orientation: Orientation) -> (out: PiecePositions)
        ensures
            offsets(out) == self.shape(orientation),
    {
        match self {
            PieceType::Square => [(0, 0), (1, 0), (0, -1), (1, -1)],
            PieceType::T => match orientation {
                Orientation::Up => [(1, 0), (0, -1), (1, -1), (2, -1)],
                Orientation::Left => [(0, -1), (1, 0), (1, -1), (1, -2)],
                Orientation::Bottom => [(0, -1), (1, -1), (2, -1), (1, -2)],
                Orientation::Right => [(1, 0), (1, -1), (1, -2), (2, -1)],
            },
            PieceType::L => match orientation {
                Orientation::Up => [(0, 0), (1, 0), (2, 0), (2, -1)],
                Orientation::Left => [(0, 0), (0, -1), (0, -2), (1, 0)],
                Orientation::Bottom => [(0, 0), (0, -1), (1, -1), (2, -1)],
                Orientation::Right => [(1, 0), (1, -1), (1, -2), (0, -2)],
            },
            PieceType::InvL => match orientation {
                Orientation::Up => [(0, 0), (1, 0), (2, 0), (0, -1)],
                Orientation::Left => [(0, 0), (0, -1), (0, -2), (1, -2)],
                Orientation::Bottom => [(2, 0), (0, -1), (1, -1), (2, -1)],
                Orientation::Right => [(0, 0), (1, 0), (1, -1), (1, -2)],
            },
            PieceType::Bar => match orientation {
                Orientation::Up | Orientation::Bottom => [(-1, 0), (0, 0), (1, 0), (2, 0)],
                Orientation::Left | Orientation::Right => [(1, 0), (1, 1), (1, 2), (1, 3)],
            },
            PieceType::S => match orientation {
                Orientation::Up | Orientation::Bottom => [(1, 0), (2, 0), (0, -1), (1, -1)],
                Orientation::Left | Orientation::Right => [(0, 0), (0, -1), (1, -1), (1, -2)],
            },
            PieceType::InvS => match orientation {
                Orientation::Up | Orientation::Bottom => [(0, 0), (1, 0), (1, -1), (2, -1)],
                Orientation::Left | Orientation::Right => [(0, -1), (0, -2), (1, 0), (1, -1)],
            },
        }
    }
}

impl Orientation {
    /// The neighbour of `self` in the cycle, in the direction of `rotation`.
    pub open spec fn rotated(self, rotation: Rotation) -> Orientation {
        match (self, rotation) {
            (Orientation::Up, Rotation::Clock) => Orientation::Right,
            (Orientation::Right, Rotation::Clock) => Orientation::Bottom,
            (Orientation::Bottom, Rotation::Clock) => Orientation::Left,
            (Orientation::Left, Rotation::Clock) => Orientation::Up,
            (Orientation::Up, Rotation::Anti) => Orientation::Left,
            (Orientation::Left, Rotation::Anti) => Orientation::Bottom,
            (Orientation::Bottom, Rotation::Anti) => Orientation::Right,
            (Orientation::Right, Rotation::Anti) => Orientation::Up,
        }
    }

    /// Place of the orientation in the clockwise cycle, counted from `Up`.
    pub open spec fn quarter_turns(self) -> int {
        match self {
            Orientation::Up => 0,
            Orientation::Right => 1,
            Orientation::Bottom => 2,
            Orientation::Left => 3,
        }
    }

    /// One step along the cycle of orientations.
    pub fn apply_rotation(&self, rotation: Rotation) -> (next: Orientation)
        ensures
            next == self.rotated(rotation),
    {
        match self {
            Orientation::Up => match rotation {
                Rotation::Clock => Orientation::Right,
                Rotation::Anti => Orientation::Left,
            },
            Orientation::Left => match rotation {
                Rotation::Clock => Orientation::Up,
                Rotation::Anti => Orientation::Bottom,
            },
            Orientation::Bottom => match rotation {
                Rotation::Clock => Orientation::Left,
                Rotation::Anti => Orientation::Right,
            },
            Orientation::Right => match rotation {
                Rotation::Clock => Orientation::Bottom,
                Rotation::Anti => Orientation::Up,
            },
        }
    }
}

impl Rotation {
    /// The turn in the other direction.
    pub open spec fn inverse(self) -> Rotation {
        match self {
            Rotation::Clock => Rotation::Anti,
            Rotation::Anti => Rotation::Clock,
        }
    }
}

impl Piece {
    /// The four cells relative to the anchor, by slot: the cells of the
    /// shape, each moved by the anchor offset of the shape.
    pub open spec fn relative_cells(self) -> Seq<(int, int)> {
        shifted(
            self.piece_type.shape(self.orientation),
            self.piece_type.spec_anchor().0,
            self.piece_type.spec_anchor().1,
        )
    }

    /// The four cells that the piece covers, by slot.
    pub open spec fn cells(self) -> Seq<(int, int)> {
        shifted(self.relative_cells(), self.position.x as int, self.position.y as int)
    }

    /// The piece with its anchor moved by `(dx, dy)`. Meant for moves that
    /// keep the anchor within `i32`.
    pub open spec fn moved(self, dx: int, dy: int) -> Piece {
        Piece {
            position: BoardPosition {
                x: (self.position.x + dx) as i32,
                y: (self.position.y + dy) as i32,
            },
            ..self
        }
    }

    /// The piece after a quarter turn about its anchor.
    pub open spec fn turned(self, rotation: Rotation) -> Piece {
        Piece { orientation: self.orientation.rotated(rotation), ..self }
    }

    /// The anchor is far enough from the ends of `i32` for every cell, and
    /// every cell one step away, to be computed.
    pub open spec fn fits(self) -> bool {
        &&& i32::MIN + 8 <= self.position.x <= i32::MAX - 8
        &&& i32::MIN + 8 <= self.position.y <= i32::MAX - 8
    }

    /// Every cell lies between the walls and above the floor, and the
    /// anchor is not above the top row.
    pub open spec fn in_field(self) -> bool {
        &&& self.position.y <= BOARD_HEIGHT
        &&& forall|k: int|
            0 <= k < 4 ==> 1 <= (#[trigger] self.cells()[k]).0 <= BOARD_WIDTH && 1
                <= self.cells()[k].1
    }

    /// The four cells relative to the anchor, by slot.
    pub fn square_pos(&self) -> (out: PiecePositions)
        ensures
            offsets(out) == self.relative_cells(),
    {
        let shape = self.piece_type.square_pos(self.orientation);
        let anchor = self.piece_type.anchor();
        [shape[0] + anchor, shape[1] + anchor, shape[2] + anchor, shape[3] + anchor]
    }

    /// Does the piece touch a wall, the floor or an occupied cell of `board`?
    pub fn collides_with(&self, board: &Board) -> (hit: bool)
        requires
            self.fits(),
        ensures
            hit == collides(board@, self.cells()),
    {
        let cells = self.positions();
        let hit = board.is_concrete(cells[0]) || board.is_concrete(cells[1]) || board.is_concrete(
            cells[2],
        ) || board.is_concrete(cells[3]);
        proof {
            let c = self.cells();
            assert(hit ==> solid(board@, c[0].0, c[0].1) || solid(board@, c[1].0, c[1].1) || solid(
                board@,
                c[2].0,
                c[2].1,
            ) || solid(board@, c[3].0, c[3].1));
        }
        hit
    }

    /// The four cells that the piece covers, by slot. No two are alike.
    pub fn positions(&self) -> (out: [BoardPosition; 4])
        requires
            self.fits(),
        ensures
            coords(out) == self.cells(),
            forall|i: int, j: int| 0 <= i < j < 4 ==> out[i] != out[j],
    {
        let rel = self.square_pos();
        proof {
            // The offsets are small, so the sums below stay within `i32`.
            let near = |p: (int, int)| -2 <= p.0 <= 2 && -2 <= p.1 <= 3;
            assert(near(offsets(rel)[0]) && near(offsets(rel)[1]));
            assert(near(offsets(rel)[2]) && near(offsets(rel)[3]));
        }
        [
            self.position + rel[0],
            self.position + rel[1],
            self.position + rel[2],
            self.position + rel[3],
        ]
    }
}

/// The piece that enters the playfield: of the shape that was announced,
/// or of the shape `drawn` when none was.
pub fn spawn_next_piece(announced: Option<PieceType>, drawn: PieceType) -> (piece: Piece)
    ensures
        piece == spawned(
            match announced {
                Some(piece_type) => piece_type,
                None => drawn,
            },
        ),
{
    let piece_type = match announced {
        Some(piece_type) => piece_type,
        None => drawn,
    };
    Piece {
        piece_type,
        orientation: Orientation::Up,
        position: BoardPosition::new(SPAWN_X, SPAWN_Y),
    }
}

/// `rand::Rng::gen_range` on `rand::thread_rng()`, with the range `0..7`:
/// the number drawn lies in that range. Which number comes is left open.
#[verifier::external_body]
fn draw_below_seven() -> (n: i32)
    ensures
        0 <= n < 7,
{
    rand::thread_rng().gen_range(0..7)
}

/// Every shape in every orientation has exactly four cells, no two alike.
pub proof fn lemma_shape_four_distinct(t: PieceType, o: Orientation)
    ensures
        t.shape(o).len() == 4,
        pairwise_distinct(t.shape(o)),
{
}

/// A piece covers exactly four cells, no two alike, wherever it stands and
/// however it is turned.
pub proof fn lemma_cells_distinct(piece: Piece)
    ensures
        piece.cells().len() == 4,
        pairwise_distinct(piece.cells()),
{
}

/// A turn followed by the opposite turn gives the orientation back.
pub proof fn lemma_rotation_reversible(o: Orientation, r: Rotation)
    ensures
        o.rotated(r).rotated(r.inverse()) == o,
{
}

/// Four turns in one direction give the orientation back.
pub proof fn lemma_rotation_cycle(o: Orientation, r: Rotation)
    ensures
        o.rotated(r).rotated(r).rotated(r).rotated(r) == o,
        o.rotated(r) != o,
        o.rotated(r).rotated(r) != o,
        o.rotated(r).rotated(r).rotated(r) != o,
{
}

/// A step along the cycle moves the place by one, modulo four.
pub proof fn lemma_rotation_steps(o: Orientation, r: Rotation)
    ensures
        o.rotated(r).quarter_turns() == (o.quarter_turns() + (if r == Rotation::Clock {
            1int
        } else {
            3int
        })) % 4,
{
}

/// The four forms of a shape are one form turned: the cells of a shape
/// after a quarter turn clockwise are, up to where they lie, the cells of
/// the shape in the next orientation clockwise. (Each side has four cells,
/// no two alike, so the cells are the same.)
pub proof fn lemma_orientations_are_quarter_turns(t: PieceType, o: Orientation, k: int)
    requires
        0 <= k < 4,
    ensures
        among(
            cornered(t.shape(o.rotated(Rotation::Clock))),
            cornered(quarter_turn(t.shape(o)))[k],
        ),
        among(
            cornered(quarter_turn(t.shape(o))),
            cornered(t.shape(o.rotated(Rotation::Clock)))[k],
        ),
{
}

/// The shapes with a symmetry have two forms, and the square has one.
pub proof fn lemma_symmetric_shapes(t: PieceType, o: Orientation)
    ensures
        t == PieceType::Bar || t == PieceType::S || t == PieceType::InvS ==> t.shape(o)
            == t.shape(o.rotated(Rotation::Clock).rotated(Rotation::Clock)),
        PieceType::Square.shape(o) == PieceType::Square.shape(Orientation::Up),
{
}

/// The cells follow the anchor: moving the piece moves each cell alike.
pub proof fn lemma_moved_cells(piece: Piece, dx: int, dy: int)
    requires
        i32::MIN <= piece.position.x + dx <= i32::MAX,
        i32::MIN <= piece.position.y + dy <= i32::MAX,
    ensures
        piece.moved(dx, dy).cells() == shifted(piece.cells(), dx, dy),
{
}

/// A new piece stands inside the playfield, whatever its shape.
pub proof fn lemma_spawned_in_field(piece_type: PieceType)
    ensures
        spawned(piece_type).in_field(),
        spawned(piece_type).fits(),
{
}

/// The anchor of a piece inside the playfield is near the playfield, and
/// none of its cells is higher than three rows above the top row.
pub proof fn lemma_in_field_bounds(piece: Piece)
    requires
        piece.in_field(),
    ensures
        -1 <= piece.position.x <= BOARD_WIDTH + 2,
        -2 <= piece.position.y <= BOARD_HEIGHT,
        piece.fits(),
        forall|k: int| 0 <= k < 4 ==> (#[trigger] piece.cells()[k]).1 <= BOARD_HEIGHT + 3,
{
    assert(1 <= piece.cells()[0].0 <= BOARD_WIDTH && 1 <= piece.cells()[0].1);
}

/// The walls and the floor keep the piece in: a piece inside the playfield
/// that goes one step down or to the side, to cells of which none is solid,
/// is inside the playfield still.
pub proof fn lemma_step_stays_in_field(occupied: Set<(int, int)>, piece: Piece, dx: int, dy: int)
    requires
        piece.in_field(),
        (dx == 0 && dy == -1) || (dy == 0 && (dx == 1 || dx == -1)),
        !collides(occupied, piece.moved(dx, dy).cells()),
    ensures
        piece.moved(dx, dy).in_field(),
{
    lemma_in_field_bounds(piece);
    let there = piece.moved(dx, dy);
    assert forall|k: int| 0 <= k < 4 implies 1 <= (#[trigger] there.cells()[k]).0 <= BOARD_WIDTH
        && 1 <= there.cells()[k].1 by {
        assert(1 <= piece.cells()[k].0 <= BOARD_WIDTH && 1 <= piece.cells()[k].1);
    }
}

/// The walls and the floor keep the piece in when it turns, too: a piece
/// inside the playfield that turns to cells of which none is solid is
/// inside the playfield still. (The cells of a shape hang together, so
/// a turned piece cannot reach beyond a wall without touching it.)
pub proof fn lemma_turn_stays_in_field(occupied: Set<(int, int)>, piece: Piece, rotation: Rotation)
    requires
        piece.in_field(),
        !collides(occupied, piece.turned(rotation).cells()),
    ensures
        piece.turned(rotation).in_field(),
{
    // Seen cell by cell, each of the fifty-six turns is a matter of sums.
    let here = piece.cells();
    let there = piece.turned(rotation).cells();
    assert(1 <= here[0].0 <= BOARD_WIDTH && 1 <= here[0].1);
    assert(!solid(occupied, there[0].0, there[0].1));
    assert(1 <= here[1].0 <= BOARD_WIDTH && 1 <= here[1].1);
    assert(!solid(occupied, there[1].0, there[1].1));
    assert(1 <= here[2].0 <= BOARD_WIDTH && 1 <= here[2].1);
    assert(!solid(occupied, there[2].0, there[2].1));
    assert(1 <= here[3].0 <= BOARD_WIDTH && 1 <= here[3].1);
    assert(!solid(occupied, there[3].0, there[3].1));
}

} // verus!
