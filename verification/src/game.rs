//! The run of a game: the settled cells, the falling piece, the timers and
//! the counters, and the rules that one tick applies to them.

use vstd::prelude::*;

use crate::board::{occupancy, row_full, Board, BoardPosition, BOARD_HEIGHT, BOARD_WIDTH};
use crate::lines::{
    detect_complete_lines, full_rows, lemma_clear_without_full_row,
    lemma_settled_among_full_rows, settled, settled_cell,
};
use crate::pause::{pause, toggled};
use crate::piece::{
    collides, coords, lemma_in_field_bounds, lemma_step_stays_in_field,
    lemma_turn_stays_in_field, spawn_next_piece, spawned, Piece, PieceType, Rotation,
};
use crate::player::{Action, ActionState};
use crate::score::{
    capped, down_duration, increase_score_and_level, level_for, points, Level, LineCompleted,
    LinesCompletedEvent, Score,
};
use crate::timer::Timer;

verus! {

/// Delay before a held move to the side repeats for the first time, in
/// nanoseconds.
pub const FIRST_REPEAT_DELAY: u64 = 250_000_000;

/// Delay between the later repeats of a held move to the side.
pub const KEY_REPEAT_DELAY: u64 = 100_000_000;

/// Time between two steps of the fall while the soft drop is on.
pub const FAST_DOWN_DELAY: u64 = 30_000_000;

/// Rows of headroom above the playfield that a cell of a piece can reach.
pub const HEADROOM: i32 = 3;

/// The states of a run. `GameOver` is final.
#[derive(Clone, Copy, Debug, PartialEq, Eq, Hash, Structural)]
pub enum GameState {
    GameOver,
    InGame,
    Pause,
}

/// What a tick reports to the outside.
#[derive(Clone, Copy, Debug, PartialEq, Eq, Structural)]
pub enum Event {
    /// The falling piece came to rest and its cells are settled now.
    PieceLocked,
    /// The pass of line clearing that follows a lock is done; so many rows
    /// were cleared (zero is reported too).
    LinesCleared(usize),
    /// The run has ended.
    GameOver,
    /// A new piece entered the playfield.
    PieceSpawned(Piece),
    /// The falling piece has a new place or orientation.
    PieceMoved(Piece),
    /// The run was paused or taken up again.
    StateChanged(GameState),
}

/// What a step of the fall did.
#[derive(Clone, Copy, Debug, PartialEq, Eq, Structural)]
pub enum Descent {
    /// The timer did not fire, or there is no piece.
    Waiting,
    /// The piece went down one row.
    Moved,
    /// The piece could not go further down and was locked.
    Stopped,
    /// The piece sat on settled cells before it even moved: the run is over.
    GameOver,
}

/// The move to the side, if any, that the actions ask for at this tick:
/// a fresh press counts at once, a held key only when the repeat timer
/// fired. Left goes before right.
pub open spec fn side_step(input: ActionState, fired: bool) -> Option<int> {
    if input.just_pressed.has(Action::Left) {
        Some(-1int)
    } else if input.just_pressed.has(Action::Right) {
        Some(1int)
    } else if fired && input.pressed.has(Action::Left) {
        Some(-1int)
    } else if fired && input.pressed.has(Action::Right) {
        Some(1int)
    } else {
        None
    }
}

/// The repeat timer after a tick that brought `elapsed`: a fresh press sets
/// the long first delay and starts anew; when the timer fires on the long
/// delay it changes to the short one and starts anew.
pub open spec fn repeat_timer(timer: Timer, input: ActionState, elapsed: u64) -> Timer {
    let ticked = timer.advanced(elapsed as int);
    if input.just_pressed.has(Action::Left) || input.just_pressed.has(Action::Right) {
        ticked.with_duration(FIRST_REPEAT_DELAY).restarted()
    } else if timer.fires(elapsed as int) && ticked.duration == FIRST_REPEAT_DELAY {
        ticked.with_duration(KEY_REPEAT_DELAY).restarted()
    } else {
        ticked
    }
}

/// The turn, if any, that the actions ask for at this tick. Anticlockwise
/// goes before clockwise.
pub open spec fn turn_asked(input: ActionState) -> Option<Rotation> {
    if input.just_pressed.has(Action::RotateAnti) {
        Some(Rotation::Anti)
    } else if input.just_pressed.has(Action::RotateClock) {
        Some(Rotation::Clock)
    } else {
        None
    }
}

/// The cells of a piece as settled cells, by slot.
pub open spec fn cells_of(piece: Piece) -> Seq<BoardPosition> {
    Seq::new(
        4,
        |k: int|
            BoardPosition { x: piece.cells()[k].0 as i32, y: piece.cells()[k].1 as i32 },
    )
}

/// A settled cell lies between the walls, above the floor and no higher
/// than a piece can reach.
pub open spec fn in_reach(cell: BoardPosition) -> bool {
    1 <= cell.x <= BOARD_WIDTH && 1 <= cell.y <= BOARD_HEIGHT + HEADROOM
}

/// A game as a plain value.
pub struct GameView {
    pub state: GameState,
    /// The settled cells, in the order in which they settled.
    pub squares: Seq<BoardPosition>,
    /// The falling piece. There is none once the run is over.
    pub piece: Option<Piece>,
    /// The shape that comes next.
    pub next_piece: PieceType,
    pub level: Level,
    pub lines: LineCompleted,
    pub score: Score,
    /// Paces the fall.
    pub move_down_timer: Timer,
    /// Paces the repeats of a held move to the side.
    pub move_horizontally_timer: Timer,
}

impl GameView {
    /// What holds of every game that the rules produce.
    pub open spec fn wf(self) -> bool {
        &&& self.level.level == level_for(self.lines.line_completed as int)
        &&& self.move_down_timer.duration == FAST_DOWN_DELAY || self.move_down_timer.duration
            == down_duration(self.level.level as int)
        &&& self.move_horizontally_timer.duration == FIRST_REPEAT_DELAY
            || self.move_horizontally_timer.duration == KEY_REPEAT_DELAY
        &&& self.state == GameState::GameOver ==> self.piece is None
        &&& self.piece matches Some(piece) ==> piece.in_field()
        &&& forall|i: int| 0 <= i < self.squares.len() ==> in_reach(#[trigger] self.squares[i])
    }

    /// The cells of the playfield that are settled.
    pub open spec fn occupied(self) -> Set<(int, int)> {
        occupancy(self.squares)
    }

    /// Would `piece` touch a wall, the floor or a settled cell?
    pub open spec fn blocked(self, piece: Piece) -> bool {
        collides(self.occupied(), piece.cells())
    }

    /// What the step of the fall does when `elapsed` has passed.
    pub open spec fn descent(self, elapsed: u64) -> Descent {
        match self.piece {
            Some(piece) if self.move_down_timer.fires(elapsed as int) => {
                if self.blocked(piece) {
                    Descent::GameOver
                } else if self.blocked(piece.moved(0, -1)) {
                    Descent::Stopped
                } else {
                    Descent::Moved
                }
            },
            _ => Descent::Waiting,
        }
    }

    /// The game after the step of the fall: the timer has gathered
    /// `elapsed`; when it fired, the piece went down one row, or was locked
    /// where it stood because something solid lies below one of its cells,
    /// or, sitting on something solid already, ended the run.
    pub open spec fn after_move_down(self, elapsed: u64) -> GameView {
        let ticked = GameView {
            move_down_timer: self.move_down_timer.advanced(elapsed as int),
            ..self
        };
        match self.descent(elapsed) {
            Descent::Waiting => ticked,
            Descent::Moved => GameView {
                piece: Some(self.piece.unwrap().moved(0, -1)),
                ..ticked
            },
            Descent::Stopped => GameView {
                squares: self.squares + cells_of(self.piece.unwrap()),
                piece: None,
                ..ticked
            },
            Descent::GameOver => GameView {
                state: GameState::GameOver,
                squares: self.squares + cells_of(self.piece.unwrap()),
                piece: None,
                ..ticked
            },
        }
    }

    /// The game with the fall back at the pace of the level.
    pub open spec fn after_stop_fast_move_down(self) -> GameView {
        GameView {
            move_down_timer: self.move_down_timer.with_duration(
                down_duration(self.level.level as int) as u64,
            ),
            ..self
        }
    }

    /// Number of full rows.
    pub open spec fn complete_lines(self) -> nat {
        full_rows(self.occupied(), BOARD_HEIGHT as int).len()
    }

    /// The game after one pass of line clearing.
    pub open spec fn after_detect_complete_lines(self) -> GameView {
        GameView { squares: settled(self.occupied(), self.squares), ..self }
    }

    /// The game after a clear of `completed` lines was booked.
    pub open spec fn after_score(self, completed: usize) -> GameView {
        let lines = capped(self.lines.line_completed + completed);
        let level = level_for(lines as int) as usize;
        GameView {
            lines: LineCompleted { line_completed: lines },
            level: Level { level },
            score: Score(capped(self.score.0 + points(level as int, completed as int))),
            move_down_timer: if level != self.level.level {
                self.move_down_timer.with_duration(down_duration(level as int) as u64)
            } else {
                self.move_down_timer
            },
            ..self
        }
    }

    /// The game after the announced piece entered and `upcoming` was
    /// announced in its place. Nothing enters once the run is over.
    pub open spec fn after_spawn(self, upcoming: PieceType) -> GameView {
        if self.state == GameState::GameOver {
            self
        } else {
            GameView { piece: Some(spawned(self.next_piece)), next_piece: upcoming, ..self }
        }
    }

    /// All that follows a lock: the fall takes the pace of the level again,
    /// the full rows are cleared, the clear is booked, the next piece enters.
    pub open spec fn after_lock(self, upcoming: PieceType) -> GameView {
        let paced = self.after_stop_fast_move_down();
        let cleared = paced.after_detect_complete_lines();
        cleared.after_score(paced.complete_lines() as usize).after_spawn(upcoming)
    }

    /// Does the piece move to the side at this tick?
    pub open spec fn side_moves(self, elapsed: u64, input: ActionState) -> bool {
        match (self.piece, side_step(input, self.move_horizontally_timer.fires(elapsed as int))) {
            (Some(piece), Some(step)) => !self.blocked(piece.moved(step, 0)),
            _ => false,
        }
    }

    /// The game after the moves to the side: the repeat timer has run, and
    /// the piece has moved one column if a move was due and nothing solid
    /// was in the way.
    pub open spec fn after_move_horizontally(self, elapsed: u64, input: ActionState) -> GameView {
        let fired = self.move_horizontally_timer.fires(elapsed as int);
        GameView {
            move_horizontally_timer: repeat_timer(self.move_horizontally_timer, input, elapsed),
            piece: if self.side_moves(elapsed, input) {
                Some(self.piece.unwrap().moved(side_step(input, fired).unwrap(), 0))
            } else {
                self.piece
            },
            ..self
        }
    }

    /// The game after the soft drop was looked at: pressing down sets the
    /// fast pace, letting go sets the pace of the level.
    pub open spec fn after_move_down_faster(self, input: ActionState) -> GameView {
        let pressed = if input.just_pressed.has(Action::Down) {
            self.move_down_timer.with_duration(FAST_DOWN_DELAY)
        } else {
            self.move_down_timer
        };
        GameView {
            move_down_timer: if input.just_released.has(Action::Down) {
                pressed.with_duration(down_duration(self.level.level as int) as u64)
            } else {
                pressed
            },
            ..self
        }
    }

    /// Does the piece turn at this tick?
    pub open spec fn turns(self, input: ActionState) -> bool {
        match (self.piece, turn_asked(input)) {
            (Some(piece), Some(rotation)) => !self.blocked(piece.turned(rotation)),
            _ => false,
        }
    }

    /// The game after the turn: the piece has the next orientation if a turn
    /// was asked for and every cell of the turned piece is free; no other
    /// place is tried.
    pub open spec fn after_rotate(self, input: ActionState) -> GameView {
        GameView {
            piece: if self.turns(input) {
                Some(self.piece.unwrap().turned(turn_asked(input).unwrap()))
            } else {
                self.piece
            },
            ..self
        }
    }

    /// The game after the pause action was looked at.
    pub open spec fn after_pause(self, input: ActionState) -> GameView {
        if input.just_pressed.has(Action::Pause) {
            GameView { state: toggled(self.state), ..self }
        } else {
            self
        }
    }

    /// The game after the fall and all that a lock brings with it.
    pub open spec fn after_fall(self, elapsed: u64, upcoming: PieceType) -> GameView {
        if self.descent(elapsed) == Descent::Stopped {
            self.after_move_down(elapsed).after_lock(upcoming)
        } else {
            self.after_move_down(elapsed)
        }
    }

    /// What the fall reports.
    pub open spec fn fall_events(self, elapsed: u64, upcoming: PieceType) -> Seq<Event> {
        let fallen = self.after_fall(elapsed, upcoming);
        match self.descent(elapsed) {
            Descent::Waiting => Seq::empty(),
            Descent::Moved => seq![Event::PieceMoved(fallen.piece.unwrap())],
            Descent::Stopped => seq![
                Event::PieceLocked,
                Event::LinesCleared(
                    self.after_move_down(elapsed).after_stop_fast_move_down().complete_lines()
                        as usize,
                ),
                Event::PieceSpawned(fallen.piece.unwrap()),
            ],
            Descent::GameOver => seq![Event::GameOver],
        }
    }

    /// The game after the moves of the player, in their order: to the side,
    /// soft drop, turn.
    pub open spec fn after_moves(self, elapsed: u64, input: ActionState) -> GameView {
        self.after_move_horizontally(elapsed, input).after_move_down_faster(input).after_rotate(
            input,
        )
    }

    /// What the moves of the player report.
    pub open spec fn move_events(self, elapsed: u64, input: ActionState) -> Seq<Event> {
        let shifted = self.after_move_horizontally(elapsed, input);
        let eased = shifted.after_move_down_faster(input);
        (if self.side_moves(elapsed, input) {
            seq![Event::PieceMoved(shifted.piece.unwrap())]
        } else {
            Seq::empty()
        }) + (if eased.turns(input) {
            seq![Event::PieceMoved(eased.after_rotate(input).piece.unwrap())]
        } else {
            Seq::empty()
        })
    }

    /// The game after one tick that brought `elapsed` and the actions
    /// `input`; `upcoming` is the shape that is announced if a piece enters.
    ///
    /// A tick with the pause action does nothing but pause or take up the
    /// run. A paused or finished game stays as it is. A running game lets
    /// the piece fall first and, unless that ended the run, applies the
    /// moves of the player.
    pub open spec fn after_tick(self, elapsed: u64, input: ActionState, upcoming: PieceType)
        -> GameView {
        if input.just_pressed.has(Action::Pause) {
            self.after_pause(input)
        } else if self.state != GameState::InGame {
            self
        } else if self.descent(elapsed) == Descent::GameOver {
            self.after_fall(elapsed, upcoming)
        } else {
            self.after_fall(elapsed, upcoming).after_moves(elapsed, input)
        }
    }

    /// What one tick reports, in the order in which it happened.
    pub open spec fn tick_events(self, elapsed: u64, input: ActionState, upcoming: PieceType)
        -> Seq<Event> {
        if input.just_pressed.has(Action::Pause) {
            if self.state == GameState::GameOver {
                Seq::empty()
            } else {
                seq![Event::StateChanged(toggled(self.state))]
            }
        } else if self.state != GameState::InGame {
            Seq::empty()
        } else if self.descent(elapsed) == Descent::GameOver {
            self.fall_events(elapsed, upcoming)
        } else {
            self.fall_events(elapsed, upcoming) + self.after_fall(elapsed, upcoming).move_events(
                elapsed,
                input,
            )
        }
    }
}

/// The game at its start: nothing settled, the first piece at the top, level
/// one, no line and no point, both timers at rest.
pub open spec fn opening(first: PieceType, next: PieceType) -> GameView {
    GameView {
        state: GameState::InGame,
        squares: Seq::empty(),
        piece: Some(spawned(first)),
        next_piece: next,
        level: Level { level: 1 },
        lines: LineCompleted { line_completed: 0 },
        score: Score(0),
        move_down_timer: Timer { elapsed: 0, duration: down_duration(1) as u64 },
        move_horizontally_timer: Timer { elapsed: 0, duration: FIRST_REPEAT_DELAY },
    }
}

/// A game: the settled cells, the falling piece and the shape that comes
/// next, the timers, and the counters of the progression.
pub struct Game {
    state: GameState,
    squares: Vec<BoardPosition>,
    piece: Option<Piece>,
    next_piece: PieceType,
    level: Level,
    lines: LineCompleted,
    score: Score,
    move_down_timer: Timer,
    move_horizontally_timer: Timer,
}

impl View for Game {
    type V = GameView;

    closed spec fn view(&self) -> GameView {
        GameView {
            state: self.state,
            squares: self.squares@,
            piece: self.piece,
            next_piece: self.next_piece,
            level: self.level,
            lines: self.lines,
            score: self.score,
            move_down_timer: self.move_down_timer,
            move_horizontally_timer: self.move_horizontally_timer,
        }
    }
}

impl Game {
    /// A new game with `first` as the falling piece and `next` announced.
    pub fn new(first: PieceType, next: PieceType) -> (game: Game)
        ensures
            game@ == opening(first, next),
            game@.wf(),
    {
        let level = Level::default();
        Game {
            state: GameState::InGame,
            squares: Vec::new(),
            piece: Some(spawn_next_piece(Some(first), next)),
            next_piece: next,
            level,
            lines: LineCompleted::default(),
            score: Score::default(),
            move_down_timer: Timer::new(level.get_down_duration()),
            move_horizontally_timer: Timer::new(FIRST_REPEAT_DELAY),
        }
    }

    /// A new game with both shapes drawn at random.
    pub fn start() -> (game: Game)
        ensures
            exists|first: PieceType, next: PieceType| game@ == #[trigger] opening(first, next),
            game@.wf(),
    {
        let first = PieceType::random();
        let next = PieceType::random();
        Game::new(first, next)
    }

    /// A new game on a playfield that holds `squares` already. `None` when
    /// one of them lies in a wall, in the floor, or higher than a piece can
    /// reach.
    pub fn with_squares(squares: Vec<BoardPosition>, first: PieceType, next: PieceType) -> (game:
        Option<Game>)
        ensures
            game is Some <==> forall|i: int|
                0 <= i < squares.len() ==> in_reach(#[trigger] squares[i]),
            game matches Some(game) ==> game@ == (GameView {
                squares: squares@,
                ..opening(first, next)
            }) && game@.wf(),
    {
        let mut i: usize = 0;
        while i < squares.len()
            invariant
                i <= squares.len(),
                forall|k: int| 0 <= k < i ==> in_reach(#[trigger] squares[k]),
            decreases squares.len() - i,
        {
            let cell = squares[i];
            if cell.x < 1 || cell.x > BOARD_WIDTH || cell.y < 1 || cell.y > BOARD_HEIGHT
                + HEADROOM {
                return None;
            }
            i += 1;
        }
        let mut game = Game::new(first, next);
        game.squares = squares;
        Some(game)
    }

    /// The state of the run.
    pub fn state(&self) -> (state: GameState)
        ensures
            state == self@.state,
    {
        self.state
    }

    /// The settled cells, in the order in which they settled.
    pub fn squares(&self) -> (squares: &Vec<BoardPosition>)
        ensures
            squares@ == self@.squares,
    {
        &self.squares
    }

    /// The falling piece, if there is one.
    pub fn piece(&self) -> (piece: Option<Piece>)
        ensures
            piece == self@.piece,
    {
        self.piece
    }

    /// The shape that comes next.
    pub fn next_piece(&self) -> (next: PieceType)
        ensures
            next == self@.next_piece,
    {
        self.next_piece
    }

    /// The level.
    pub fn level(&self) -> (level: Level)
        ensures
            level == self@.level,
    {
        self.level
    }

    /// The lines completed so far.
    pub fn lines(&self) -> (lines: LineCompleted)
        ensures
            lines == self@.lines,
    {
        self.lines
    }

    /// The score.
    pub fn score(&self) -> (score: Score)
        ensures
            score == self@.score,
    {
        self.score
    }

    /// The timer that paces the fall.
    pub fn move_down_timer(&self) -> (timer: Timer)
        ensures
            timer == self@.move_down_timer,
    {
        self.move_down_timer
    }

    /// The timer that paces the repeats of a held move to the side.
    pub fn move_horizontally_timer(&self) -> (timer: Timer)
        ensures
            timer == self@.move_horizontally_timer,
    {
        self.move_horizontally_timer
    }

    /// The cells of the falling piece, by slot, if there is one.
    pub fn piece_cells(&self) -> (cells: Option<[BoardPosition; 4]>)
        requires
            self@.wf(),
        ensures
            match (cells, self@.piece) {
                (Some(cells), Some(piece)) => coords(cells) == piece.cells(),
                (None, None) => true,
                _ => false,
            },
    {
        match self.piece {
            Some(piece) => {
                proof {
                    lemma_in_field_bounds(piece);
                }
                Some(piece.positions())
            },
            None => None,
        }
    }

    /// The occupancy of the playfield: a snapshot of the settled cells,
    /// without the falling piece.
    pub fn board(&self) -> (board: Board)
        ensures
            board@ == self@.occupied(),
    {
        Board::from_cells(self.squares.as_slice())
    }

    /// The step of the fall.
    pub fn move_down(&mut self, elapsed: u64) -> (outcome: Descent)
        requires
            old(self)@.wf(),
        ensures
            outcome == old(self)@.descent(elapsed),
            final(self)@ == old(self)@.after_move_down(elapsed),
            final(self)@.wf(),
    {
        let fired = self.move_down_timer.advance(elapsed);
        if !fired {
            return Descent::Waiting;
        }
        match self.piece {
            None => Descent::Waiting,
            Some(piece) => {
                proof {
                    lemma_in_field_bounds(piece);
                }
                let board = Board::from_cells(self.squares.as_slice());
                let game_over = piece.collides_with(&board);
                let below = Piece { position: piece.position - (0, 1), ..piece };
                let collided = below.collides_with(&board);
                if collided || game_over {
                    let cells = piece.positions();
                    let ghost before = self.squares@;
                    self.squares.push(cells[0]);
                    self.squares.push(cells[1]);
                    self.squares.push(cells[2]);
                    self.squares.push(cells[3]);
                    self.piece = None;
                    proof {
                        assert(self.squares@ =~= before + cells_of(piece));
                    }
                    if game_over {
                        self.state = GameState::GameOver;
                        Descent::GameOver
                    } else {
                        Descent::Stopped
                    }
                } else {
                    proof {
                        lemma_step_stays_in_field(board@, piece, 0, -1);
                    }
                    self.piece = Some(below);
                    Descent::Moved
                }
            },
        }
    }

    /// Puts the fall back at the pace of the level; a piece may have locked
    /// while the soft drop was on.
    pub fn stop_fast_move_down_on_collision(&mut self)
        requires
            old(self)@.wf(),
        ensures
            final(self)@ == old(self)@.after_stop_fast_move_down(),
            final(self)@.wf(),
    {
        self.move_down_timer.set_duration(self.level.get_down_duration());
    }

    /// One pass of line clearing over the settled cells. Returns the number
    /// of rows cleared.
    pub fn detect_complete_lines(&mut self) -> (completed: LinesCompletedEvent)
        requires
            old(self)@.wf(),
        ensures
            completed.0 == old(self)@.complete_lines(),
            final(self)@ == old(self)@.after_detect_complete_lines(),
            final(self)@.wf(),
    {
        let (left, completed) = detect_complete_lines(&self.squares);
        proof {
            lemma_settled_in_reach(self.squares@);
        }
        self.squares = left;
        completed
    }

    /// Books a clear of `completed.0` lines.
    pub fn increase_score_and_level(&mut self, completed: &LinesCompletedEvent)
        requires
            old(self)@.wf(),
        ensures
            final(self)@ == old(self)@.after_score(completed.0),
            final(self)@.wf(),
    {
        increase_score_and_level(
            &mut self.level,
            &mut self.lines,
            &mut self.score,
            &mut self.move_down_timer,
            completed,
        );
    }

    /// Lets the announced piece enter and announces `upcoming`. Returns the
    /// piece that entered; none enters once the run is over.
    pub fn spawn_next_piece(&mut self, upcoming: PieceType) -> (entered: Option<Piece>)
        requires
            old(self)@.wf(),
        ensures
            final(self)@ == old(self)@.after_spawn(upcoming),
            entered == if old(self)@.state == GameState::GameOver {
                None
            } else {
                Some(spawned(old(self)@.next_piece))
            },
            final(self)@.wf(),
    {
        if self.state == GameState::GameOver {
            return None;
        }
        let piece = spawn_next_piece(Some(self.next_piece), upcoming);
        self.piece = Some(piece);
        self.next_piece = upcoming;
        Some(piece)
    }

    /// The moves to the side. Returns whether the piece moved.
    pub fn move_horizontally(&mut self, elapsed: u64, input: &ActionState) -> (moved: bool)
        requires
            old(self)@.wf(),
        ensures
            moved == old(self)@.side_moves(elapsed, *input),
            final(self)@ == old(self)@.after_move_horizontally(elapsed, *input),
            final(self)@.wf(),
    {
        let fired = self.move_horizontally_timer.advance(elapsed);
        let mut direction: Option<i32> = if input.just_pressed(Action::Left) {
            Some(-1)
        } else if input.just_pressed(Action::Right) {
            Some(1)
        } else {
            None
        };
        match direction {
            Some(_) => {
                self.move_horizontally_timer.set_duration(FIRST_REPEAT_DELAY);
                self.move_horizontally_timer.reset();
            },
            None => {
                if fired {
                    if self.move_horizontally_timer.duration() == FIRST_REPEAT_DELAY {
                        self.move_horizontally_timer.set_duration(KEY_REPEAT_DELAY);
                        self.move_horizontally_timer.reset();
                    }
                    if input.pressed(Action::Left) {
                        direction = Some(-1);
                    } else if input.pressed(Action::Right) {
                        direction = Some(1);
                    }
                }
            },
        }
        match (self.piece, direction) {
            (Some(piece), Some(direction)) => {
                proof {
                    lemma_in_field_bounds(piece);
                }
                let board = Board::from_cells(self.squares.as_slice());
                let beside = Piece { position: piece.position + (direction, 0), ..piece };
                if beside.collides_with(&board) {
                    false
                } else {
                    proof {
                        lemma_step_stays_in_field(board@, piece, direction as int, 0);
                    }
                    self.piece = Some(beside);
                    true
                }
            },
            _ => false,
        }
    }

    /// The soft drop: pressing down makes the fall fast, letting go gives it
    /// the pace of the level again.
    pub fn move_down_faster(&mut self, input: &ActionState)
        requires
            old(self)@.wf(),
        ensures
            final(self)@ == old(self)@.after_move_down_faster(*input),
            final(self)@.wf(),
    {
        if input.just_pressed(Action::Down) {
            self.move_down_timer.set_duration(FAST_DOWN_DELAY);
        }
        if input.just_released(Action::Down) {
            self.move_down_timer.set_duration(self.level.get_down_duration());
        }
    }

    /// The turn. Returns whether the piece turned.
    pub fn rotate(&mut self, input: &ActionState) -> (turned: bool)
        requires
            old(self)@.wf(),
        ensures
            turned == old(self)@.turns(*input),
            final(self)@ == old(self)@.after_rotate(*input),
            final(self)@.wf(),
    {
        let rotation = if input.just_pressed(Action::RotateAnti) {
            Some(Rotation::Anti)
        } else if input.just_pressed(Action::RotateClock) {
            Some(Rotation::Clock)
        } else {
            None
        };
        match (self.piece, rotation) {
            (Some(piece), Some(rotation)) => {
                proof {
                    lemma_in_field_bounds(piece);
                }
                let new_orientation = piece.orientation.apply_rotation(rotation);
                let turned = Piece { orientation: new_orientation, ..piece };
                let board = Board::from_cells(self.squares.as_slice());
                if turned.collides_with(&board) {
                    false
                } else {
                    proof {
                        lemma_turn_stays_in_field(board@, piece, rotation);
                    }
                    self.piece = Some(turned);
                    true
                }
            },
            _ => false,
        }
    }

    /// The pause action. Returns whether the state changed.
    pub fn pause(&mut self, input: &ActionState) -> (changed: bool)
        requires
            old(self)@.wf(),
        ensures
            changed == (input.just_pressed.has(Action::Pause) && old(self)@.state
                != GameState::GameOver),
            final(self)@ == old(self)@.after_pause(*input),
            final(self)@.wf(),
    {
        let next = pause(input, self.state);
        let changed = next != self.state;
        self.state = next;
        changed
    }

    /// One tick with the shape to announce given: the pause action first,
    /// then, in a running game, the fall with all that a lock brings, the
    /// moves to the side, the soft drop and the turn. Returns what happened,
    /// in order.
    pub fn tick_with(&mut self, elapsed: u64, input: &ActionState, upcoming: PieceType) -> (events:
        Vec<Event>)
        requires
            old(self)@.wf(),
        ensures
            final(self)@ == old(self)@.after_tick(elapsed, *input, upcoming),
            events@ == old(self)@.tick_events(elapsed, *input, upcoming),
            final(self)@.wf(),
    {
        let mut events: Vec<Event> = Vec::new();
        if input.just_pressed(Action::Pause) {
            if self.pause(input) {
                events.push(Event::StateChanged(self.state));
            }
            return events;
        }
        match self.state {
            GameState::InGame => {},
            _ => {
                return events;
            },
        }
        match self.move_down(elapsed) {
            Descent::Waiting => {},
            Descent::Moved => {
                if let Some(piece) = self.piece {
                    events.push(Event::PieceMoved(piece));
                }
            },
            Descent::Stopped => {
                events.push(Event::PieceLocked);
                self.stop_fast_move_down_on_collision();
                let completed = self.detect_complete_lines();
                self.increase_score_and_level(&completed);
                events.push(Event::LinesCleared(completed.0));
                if let Some(piece) = self.spawn_next_piece(upcoming) {
                    events.push(Event::PieceSpawned(piece));
                }
            },
            Descent::GameOver => {
                events.push(Event::GameOver);
                return events;
            },
        }
        if self.move_horizontally(elapsed, input) {
            if let Some(piece) = self.piece {
                events.push(Event::PieceMoved(piece));
            }
        }
        self.move_down_faster(input);
        if self.rotate(input) {
            if let Some(piece) = self.piece {
                events.push(Event::PieceMoved(piece));
            }
        }
        events
    }

    /// One tick; if a piece enters, the shape to announce is drawn at
    /// random. The game and the report are those of `tick_with` for the
    /// shape that was drawn.
    pub fn tick(&mut self, elapsed: u64, input: &ActionState) -> (events: Vec<Event>)
        requires
            old(self)@.wf(),
        ensures
            exists|upcoming: PieceType|
                final(self)@ == old(self)@.after_tick(elapsed, *input, upcoming) && events@
                    == #[trigger] old(self)@.tick_events(elapsed, *input, upcoming),
            final(self)@.wf(),
    {
        let upcoming = PieceType::random();
        self.tick_with(elapsed, input, upcoming)
    }
}

/// What holds of every game holds after every tick: the level follows from
/// the lines, the timers keep one of their periods, no piece is left once
/// the run is over, the falling piece lies between the walls and above the
/// floor, and so does every settled cell.
pub proof fn lemma_tick_keeps_wf(
    game: GameView,
    elapsed: u64,
    input: ActionState,
    upcoming: PieceType,
)
    requires
        game.wf(),
    ensures
        game.after_tick(elapsed, input, upcoming).wf(),
{
    if !input.just_pressed.has(Action::Pause) && game.state == GameState::InGame {
        lemma_fall_keeps_wf(game, elapsed, upcoming);
        if game.descent(elapsed) != Descent::GameOver {
            lemma_moves_keep_wf(game.after_fall(elapsed, upcoming), elapsed, input);
        }
    }
}

/// `GameOver` is final: whatever the tick brings, a finished game stays as
/// it is and nothing is reported.
pub proof fn lemma_game_over_is_final(
    game: GameView,
    elapsed: u64,
    input: ActionState,
    upcoming: PieceType,
)
    requires
        game.state == GameState::GameOver,
    ensures
        game.after_tick(elapsed, input, upcoming) == game,
        game.tick_events(elapsed, input, upcoming) == Seq::<Event>::empty(),
{
}

/// A run ends on the tick on which the piece is found sitting on something
/// solid, and ends in no other way; that tick reports the end and nothing
/// else, and no piece is left.
pub proof fn lemma_game_over_only_on_overlap(
    game: GameView,
    elapsed: u64,
    input: ActionState,
    upcoming: PieceType,
)
    requires
        game.wf(),
        game.state != GameState::GameOver,
    ensures
        game.after_tick(elapsed, input, upcoming).state == GameState::GameOver <==> game.state
            == GameState::InGame && !input.just_pressed.has(Action::Pause) && game.descent(elapsed)
            == Descent::GameOver,
        game.after_tick(elapsed, input, upcoming).state == GameState::GameOver ==> {
            &&& game.tick_events(elapsed, input, upcoming) == seq![Event::GameOver]
            &&& game.after_tick(elapsed, input, upcoming).piece is None
        },
        game.after_tick(elapsed, input, upcoming).state != GameState::GameOver
            ==> !game.tick_events(elapsed, input, upcoming).contains(Event::GameOver),
{
}

/// A pause freezes the game: while it is paused, no tick changes anything
/// but the state, and the state only on the pause action, which takes the
/// run up again. The timers gather no time.
pub proof fn lemma_pause_freezes(
    game: GameView,
    elapsed: u64,
    input: ActionState,
    upcoming: PieceType,
)
    requires
        game.state == GameState::Pause,
    ensures
        game.after_tick(elapsed, input, upcoming) == (GameView {
            state: if input.just_pressed.has(Action::Pause) {
                GameState::InGame
            } else {
                GameState::Pause
            },
            ..game
        }),
        game.tick_events(elapsed, input, upcoming) == if input.just_pressed.has(Action::Pause) {
            seq![Event::StateChanged(GameState::InGame)]
        } else {
            Seq::<Event>::empty()
        },
{
}

/// The tick on which the game is paused does nothing else.
pub proof fn lemma_pausing_does_nothing_else(
    game: GameView,
    elapsed: u64,
    input: ActionState,
    upcoming: PieceType,
)
    requires
        game.state == GameState::InGame,
        input.just_pressed.has(Action::Pause),
    ensures
        game.after_tick(elapsed, input, upcoming) == (GameView {
            state: GameState::Pause,
            ..game
        }),
        game.tick_events(elapsed, input, upcoming) == seq![
            Event::StateChanged(GameState::Pause),
        ],
{
}

/// A lock that fills no row clears nothing: the tick reports zero lines,
/// the settled cells are those of before and the four of the piece, each
/// where it was, and lines, level and score stay.
pub proof fn lemma_lock_without_full_row(
    game: GameView,
    elapsed: u64,
    input: ActionState,
    upcoming: PieceType,
)
    requires
        game.wf(),
        game.state == GameState::InGame,
        !input.just_pressed.has(Action::Pause),
        game.descent(elapsed) == Descent::Stopped,
        forall|y: int|
            1 <= y <= BOARD_HEIGHT ==> !row_full(
                occupancy(game.squares + cells_of(game.piece.unwrap())),
                y,
            ),
    ensures
        game.tick_events(elapsed, input, upcoming)[0] == Event::PieceLocked,
        game.tick_events(elapsed, input, upcoming)[1] == Event::LinesCleared(0),
        game.after_tick(elapsed, input, upcoming).squares == game.squares + cells_of(
            game.piece.unwrap(),
        ),
        game.after_tick(elapsed, input, upcoming).lines == game.lines,
        game.after_tick(elapsed, input, upcoming).level == game.level,
        game.after_tick(elapsed, input, upcoming).score == game.score,
{
    lemma_clear_without_full_row(game.squares + cells_of(game.piece.unwrap()));
    assert(points(game.level.level as int, 0) == 0) by (nonlinear_arith);
}

/// Lines, level and score never go down, and change only on a tick on which
/// a piece locks.
pub proof fn lemma_counters_never_fall(
    game: GameView,
    elapsed: u64,
    input: ActionState,
    upcoming: PieceType,
)
    requires
        game.wf(),
    ensures
        game.lines.line_completed <= game.after_tick(elapsed, input, upcoming).lines.line_completed,
        game.level.level <= game.after_tick(elapsed, input, upcoming).level.level,
        game.score.0 <= game.after_tick(elapsed, input, upcoming).score.0,
        !game.tick_events(elapsed, input, upcoming).contains(Event::PieceLocked) ==> {
            &&& game.after_tick(elapsed, input, upcoming).lines == game.lines
            &&& game.after_tick(elapsed, input, upcoming).level == game.level
            &&& game.after_tick(elapsed, input, upcoming).score == game.score
        },
{
    if !input.just_pressed.has(Action::Pause) && game.state == GameState::InGame && game.descent(
        elapsed,
    ) == Descent::Stopped {
        assert(game.tick_events(elapsed, input, upcoming)[0] == Event::PieceLocked);
    }
}

/// Cells in reach stay in reach when full rows are cleared: a cell that
/// stays goes down, and not below the bottom row.
pub proof fn lemma_settled_in_reach(squares: Seq<BoardPosition>)
    requires
        forall|i: int| 0 <= i < squares.len() ==> in_reach(#[trigger] squares[i]),
    ensures
        forall|i: int|
            0 <= i < settled(occupancy(squares), squares).len() ==> in_reach(
                #[trigger] settled(occupancy(squares), squares)[i],
            ),
{
    let occupied = occupancy(squares);
    let fate = |cell: BoardPosition| settled_cell(occupied, cell);
    let left = squares.filter_map(fate);
    assert forall|i: int| 0 <= i < left.len() implies in_reach(#[trigger] left[i]) by {
        squares.lemma_filter_map_contains(fate, left[i]);
        let cell = choose|cell: BoardPosition|
            squares.contains(cell) && fate(cell) == Some(left[i]);
        lemma_settled_among_full_rows(occupied, cell);
    }
}

/// The fall, with all that a lock brings, keeps what holds of every game.
proof fn lemma_fall_keeps_wf(game: GameView, elapsed: u64, upcoming: PieceType)
    requires
        game.wf(),
    ensures
        game.after_fall(elapsed, upcoming).wf(),
{
    match game.descent(elapsed) {
        Descent::Moved => {
            lemma_step_stays_in_field(game.occupied(), game.piece.unwrap(), 0, -1);
        },
        Descent::Stopped => {
            lemma_settled_in_reach(game.after_move_down(elapsed).squares);
        },
        _ => {},
    }
}

/// The moves of the player keep what holds of every game.
proof fn lemma_moves_keep_wf(game: GameView, elapsed: u64, input: ActionState)
    requires
        game.wf(),
    ensures
        game.after_moves(elapsed, input).wf(),
{
    let shifted = game.after_move_horizontally(elapsed, input);
    if game.side_moves(elapsed, input) {
        let step = side_step(input, game.move_horizontally_timer.fires(elapsed as int)).unwrap();
        lemma_step_stays_in_field(game.occupied(), game.piece.unwrap(), step, 0);
    }
    let eased = shifted.after_move_down_faster(input);
    if eased.turns(input) {
        let rotation = turn_asked(input).unwrap();
        lemma_turn_stays_in_field(eased.occupied(), eased.piece.unwrap(), rotation);
    }
}

} // verus!
