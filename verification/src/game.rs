//! The game: a mine field, a cursor, and the road from play to win or loss.

use vstd::prelude::*;
use crate::board::{
    all_hidden, all_visible, counts_exact, lemma_hidden_safe_is_safe,
    lemma_same_mines_same_neighbours, mine_at, neighbour_mines, unveiled, with_cell, Board,
};
use crate::cell::CellState;
use crate::tally::{grid_tally, is_hidden_safe, lemma_grid_tally_set, rectangular, Grid};

verus! {

/// How the game stands.
#[derive(Clone, Copy, PartialEq, Eq, Structural, Debug)]
pub enum Outcome {
    InProgress,
    Won,
    Lost,
}

/// The eight ways the cursor can step. North is towards the top row.
#[derive(Clone, Copy, PartialEq, Eq, Structural, Debug)]
pub enum Direction {
    North,
    South,
    East,
    West,
    NorthEast,
    NorthWest,
    SouthEast,
    SouthWest,
}

impl Direction {
    /// The change of column that one step brings.
    pub open spec fn dx(self) -> int {
        match self {
            Direction::East | Direction::NorthEast | Direction::SouthEast => 1,
            Direction::West | Direction::NorthWest | Direction::SouthWest => -1,
            _ => 0,
        }
    }

    /// The change of row that one step brings.
    pub open spec fn dy(self) -> int {
        match self {
            Direction::South | Direction::SouthEast | Direction::SouthWest => 1,
            Direction::North | Direction::NorthEast | Direction::NorthWest => -1,
            _ => 0,
        }
    }

    /// The change of column: -1, 0 or 1.
    pub fn column_step(self) -> (d: i8)
        ensures
            d == self.dx(),
    {
        match self {
            Direction::East | Direction::NorthEast | Direction::SouthEast => 1,
            Direction::West | Direction::NorthWest | Direction::SouthWest => -1,
            _ => 0,
        }
    }

    /// The change of row: -1, 0 or 1.
    pub fn row_step(self) -> (d: i8)
        ensures
            d == self.dy(),
    {
        match self {
            Direction::South | Direction::SouthEast | Direction::SouthWest => 1,
            Direction::North | Direction::NorthEast | Direction::NorthWest => -1,
            _ => 0,
        }
    }
}

/// The game as a mathematical value.
pub struct State {
    /// The squares, row by row.
    pub grid: Grid,
    /// The mine-free squares that are still to be opened.
    pub remaining: nat,
    /// Column and row of the cursor.
    pub cursor: (int, int),
    /// Whether play goes on, and if not, how the game ended.
    pub outcome: Outcome,
    /// Where the top left square lies on screen: column and row.
    pub origin: (int, int),
}

impl State {
    /// The number of columns of the field.
    pub open spec fn width(self) -> int {
        self.grid[0].len() as int
    }

    /// The number of rows of the field.
    pub open spec fn height(self) -> int {
        self.grid.len() as int
    }

    /// Column `x` of row `y` lies on the field.
    pub open spec fn on_field(self, x: int, y: int) -> bool {
        0 <= x < self.width() && 0 <= y < self.height()
    }

    /// What holds of every state the game can be in: the field is a rectangle
    /// with exact counts, the cursor is on it, `remaining` is the number of
    /// hidden mine-free squares while play goes on, and once the game is over
    /// every square is visible. The game is won exactly when no square
    /// remains.
    pub open spec fn wf(self) -> bool {
        &&& self.height() >= 1
        &&& self.width() >= 1
        &&& rectangular(self.grid, self.width(), self.height())
        &&& counts_exact(self.grid)
        &&& self.on_field(self.cursor.0, self.cursor.1)
        &&& self.outcome == Outcome::InProgress ==> self.remaining == grid_tally(
            self.grid,
            is_hidden_safe(),
        )
        &&& self.outcome != Outcome::InProgress ==> all_visible(self.grid)
        &&& self.outcome == Outcome::Won <==> self.remaining == 0
    }

    /// The state after a request to step the cursor: one square in the given
    /// direction if that square is on the field and play goes on, else
    /// nothing changes.
    pub open spec fn moved(self, d: Direction) -> State {
        self.pointed(self.cursor.0 + d.dx(), self.cursor.1 + d.dy())
    }

    /// The state after a request to put the cursor on column `x` of row `y`:
    /// nothing changes if that is off the field or the game is over.
    pub open spec fn pointed(self, x: int, y: int) -> State {
        if self.outcome == Outcome::InProgress && self.on_field(x, y) {
            State { cursor: (x, y), ..self }
        } else {
            self
        }
    }

    /// The state after a request to open column `x` of row `y`.
    ///
    /// Nothing changes if the game is over, the square is off the field or
    /// already visible. A mine loses the game. A mine-free square is taken
    /// off `remaining`, and the last one wins the game. Winning and losing
    /// uncover the whole field; short of that only the one square is
    /// uncovered, whatever its count.
    pub open spec fn opened(self, x: int, y: int) -> State {
        if self.outcome != Outcome::InProgress || !self.on_field(x, y)
            || !self.grid[y][x].concealed() {
            self
        } else if self.grid[y][x].mined() {
            State { grid: unveiled(self.grid), outcome: Outcome::Lost, ..self }
        } else if self.remaining == 1 {
            State { grid: unveiled(self.grid), remaining: 0, outcome: Outcome::Won, ..self }
        } else {
            State {
                grid: with_cell(self.grid, x, y, self.grid[y][x].revealed()),
                remaining: (self.remaining - 1) as nat,
                ..self
            }
        }
    }

    /// The square that the screen position (`sx`, `sy`) falls on, if any.
    pub open spec fn located(self, sx: int, sy: int) -> Option<(int, int)> {
        if self.on_field(sx - self.origin.0, sy - self.origin.1) {
            Some((sx - self.origin.0, sy - self.origin.1))
        } else {
            None
        }
    }

    /// The state after a press of the pointer at the screen position
    /// (`sx`, `sy`): on the field the cursor goes there and the square is
    /// opened, off the field nothing changes.
    pub open spec fn pressed(self, sx: int, sy: int) -> State {
        match self.located(sx, sy) {
            Some((x, y)) => self.pointed(x, y).opened(x, y),
            None => self,
        }
    }
}

/// Uncovering squares moves no mine and alters no count, so exact counts
/// stay exact.
pub proof fn lemma_uncover_keeps_counts(a: Grid, b: Grid)
    requires
        counts_exact(a),
        a.len() == b.len(),
        forall|y: int| 0 <= y < a.len() ==> (#[trigger] a[y]).len() == b[y].len(),
        forall|y: int, x: int|
            0 <= y < a.len() && 0 <= x < a[y].len() ==> (#[trigger] b[y][x] == a[y][x]
                || b[y][x] == a[y][x].revealed()),
    ensures
        counts_exact(b),
{
    assert forall|j: int, i: int| mine_at(a, i, j) == mine_at(b, i, j) by {
        if 0 <= j < a.len() && 0 <= i < a[j].len() {
            assert(b[j][i] == a[j][i] || b[j][i] == a[j][i].revealed());
        }
    }
    assert forall|y: int, x: int| 0 <= y < b.len() && 0 <= x < b[y].len() implies (
    #[trigger] b[y][x] matches CellState::Empty { count, .. } ==> count == neighbour_mines(
        b,
        x,
        y,
    )) by {
        lemma_same_mines_same_neighbours(a, b, x, y);
        assert(b[y][x] == a[y][x] || b[y][x] == a[y][x].revealed());
    }
}

/// An opening request takes a possible state to a possible state.
pub proof fn lemma_opened_wf(s: State, x: int, y: int)
    requires
        s.wf(),
    ensures
        s.opened(x, y).wf(),
        s.opened(x, y).width() == s.width(),
        s.opened(x, y).height() == s.height(),
{
    let t = s.opened(x, y);
    if t != s {
        assert(s.grid[0].len() == s.width());
        lemma_grid_tally_set(s.grid, x, y, s.grid[y][x].revealed(), is_hidden_safe());
        lemma_uncover_keeps_counts(s.grid, t.grid);
        assert(t.grid[0].len() == s.width());
        assert(rectangular(t.grid, t.width(), t.height()));
    }
}

/// A running game: the field, the cursor, the count of squares still to be
/// opened, the outcome, and where the field sits on screen.
#[derive(Debug)]
pub struct Game {
    board: Board,
    remaining: usize,
    cursor: (usize, usize),
    outcome: Outcome,
    origin: (u16, u16),
}

impl View for Game {
    type V = State;

    closed spec fn view(&self) -> State {
        State {
            grid: self.board@,
            remaining: self.remaining as nat,
            cursor: (self.cursor.0 as int, self.cursor.1 as int),
            outcome: self.outcome,
            origin: (self.origin.0 as int, self.origin.1 as int),
        }
    }
}

impl Game {
    /// The field that the game is played on.
    pub closed spec fn spec_board(&self) -> Board {
        self.board
    }

    /// The game is in a possible state and its field is well formed.
    pub open spec fn wf(&self) -> bool {
        &&& self.spec_board().wf()
        &&& self.spec_board()@ == self@.grid
        &&& self.spec_board().spec_width() == self@.width()
        &&& self.spec_board().spec_height() == self@.height()
        &&& self@.wf()
    }

    /// Starts a game on a freshly laid out field, drawn on screen with its
    /// top left square at `origin`. The cursor starts on that square and
    /// every mine-free square remains to be opened.
    pub fn new(board: Board, origin: (u16, u16)) -> (g: Game)
        requires
            board.playable(),
            all_hidden(board@),
        ensures
            g.wf(),
            g.spec_board() == board,
            g@ == (State {
                grid: board@,
                remaining: (board.spec_width() * board.spec_height() - board.mine_count()) as nat,
                cursor: (0, 0),
                outcome: Outcome::InProgress,
                origin: (origin.0 as int, origin.1 as int),
            }),
    {
        proof {
            board.lemma_area();
            lemma_hidden_safe_is_safe(board@);
            assert(board@[0].len() == board.spec_width());
        }
        let remaining: usize = board.width() * board.height() - board.mines();
        Game { board, remaining, cursor: (0, 0), outcome: Outcome::InProgress, origin }
    }

    /// The field.
    pub fn board(&self) -> (b: &Board)
        ensures
            *b == self.spec_board(),
    {
        &self.board
    }

    /// The number of mine-free squares still to be opened.
    pub fn remaining(&self) -> (n: usize)
        ensures
            n == self@.remaining,
    {
        self.remaining
    }

    /// Column and row of the cursor.
    pub fn cursor(&self) -> (c: (usize, usize))
        ensures
            c.0 == self@.cursor.0,
            c.1 == self@.cursor.1,
    {
        self.cursor
    }

    /// Whether play goes on, and if not, how the game ended.
    pub fn outcome(&self) -> (o: Outcome)
        ensures
            o == self@.outcome,
    {
        self.outcome
    }

    /// Screen column and row of the top left square.
    pub fn origin(&self) -> (o: (u16, u16))
        ensures
            o.0 == self@.origin.0,
            o.1 == self@.origin.1,
    {
        self.origin
    }

    /// Steps the cursor one square in direction `d`. A step that would leave
    /// the field is not taken; neither is any step once the game is over.
    /// The field and the count of remaining squares are never touched, and
    /// the cursor is on the field afterwards.
    pub fn move_cursor(&mut self, d: Direction)
        requires
            old(self).wf(),
        ensures
            final(self).wf(),
            final(self).spec_board() == old(self).spec_board(),
            final(self)@ == old(self)@.moved(d),
            0 <= final(self)@.cursor.0 < old(self)@.width(),
            0 <= final(self)@.cursor.1 < old(self)@.height(),
    {
        let dx: i8 = d.column_step();
        let dy: i8 = d.row_step();
        let x: usize = self.cursor.0;
        let y: usize = self.cursor.1;
        let w: usize = self.board.width();
        let h: usize = self.board.height();
        if (dx < 0 && x == 0) || (dy < 0 && y == 0) {
            return ;
        }
        if (dx > 0 && x + 1 >= w) || (dy > 0 && y + 1 >= h) {
            return ;
        }
        let nx: usize = if dx < 0 {
            x - 1
        } else if dx > 0 {
            x + 1
        } else {
            x
        };
        let ny: usize = if dy < 0 {
            y - 1
        } else if dy > 0 {
            y + 1
        } else {
            y
        };
        self.set_cursor(nx, ny);
    }

    /// Puts the cursor on column `column` of row `row`. A position off the
    /// field is ignored, and so is any position once the game is over.
    pub fn set_cursor(&mut self, column: usize, row: usize)
        requires
            old(self).wf(),
        ensures
            final(self).wf(),
            final(self).spec_board() == old(self).spec_board(),
            final(self)@ == old(self)@.pointed(column as int, row as int),
    {
        if self.outcome == Outcome::InProgress && column < self.board.width() && row
            < self.board.height() {
            self.cursor = (column, row);
        }
    }

    /// Opens column `column` of row `row`.
    ///
    /// Nothing happens if the game is over, the square is off the field or
    /// already visible. Otherwise the square becomes visible. If it holds a
    /// mine the game is lost; if it was the last mine-free square the game is
    /// won; either way the whole field is uncovered. No neighbour of an
    /// opened square is ever opened along with it.
    pub fn open(&mut self, column: usize, row: usize)
        requires
            old(self).wf(),
        ensures
            final(self).wf(),
            final(self)@ == old(self)@.opened(column as int, row as int),
    {
        if self.outcome != Outcome::InProgress || column >= self.board.width() || row
            >= self.board.height() {
            return ;
        }
        if !self.board.cell(column, row).is_hidden() {
            return ;
        }
        proof {
            lemma_opened_wf(self@, column as int, row as int);
            lemma_grid_tally_set(
                self@.grid,
                column as int,
                row as int,
                self@.grid[row as int][column as int].revealed(),
                is_hidden_safe(),
            );
        }
        let ghost before = self.board@;
        let bomb = self.board.open_cell(column, row);
        if bomb {
            self.board.reveal_all();
            self.outcome = Outcome::Lost;
        } else {
            self.remaining -= 1;
            if self.remaining == 0 {
                self.board.reveal_all();
                self.outcome = Outcome::Won;
            }
        }
        proof {
            if self.outcome != Outcome::InProgress {
                assert(self.board@ =~= unveiled(before)) by {
                    assert forall|j: int| 0 <= j < before.len() implies #[trigger] self.board@[j]
                        =~= unveiled(before)[j] by {}
                }
            }
        }
    }

    /// Opens the square under the cursor.
    pub fn open_at_cursor(&mut self)
        requires
            old(self).wf(),
        ensures
            final(self).wf(),
            final(self)@ == old(self)@.opened(old(self)@.cursor.0, old(self)@.cursor.1),
    {
        let x: usize = self.cursor.0;
        let y: usize = self.cursor.1;
        self.open(x, y);
    }

    /// The square that the screen position (`sx`, `sy`) falls on: its column
    /// and row, or nothing if the position is off the field.
    pub fn locate(&self, sx: u16, sy: u16) -> (at: Option<(usize, usize)>)
        requires
            self.wf(),
        ensures
            match self@.located(sx as int, sy as int) {
                Some((x, y)) => at == Some((x as usize, y as usize)),
                None => at.is_none(),
            },
    {
        if sx < self.origin.0 || sy < self.origin.1 {
            return None;
        }
        let x: usize = (sx - self.origin.0) as usize;
        let y: usize = (sy - self.origin.1) as usize;
        if x < self.board.width() && y < self.board.height() {
            Some((x, y))
        } else {
            None
        }
    }

    /// A press of the pointer at the screen position (`sx`, `sy`): on the
    /// field the cursor goes to the square pressed and the square is opened;
    /// off the field nothing happens.
    pub fn press(&mut self, sx: u16, sy: u16)
        requires
            old(self).wf(),
        ensures
            final(self).wf(),
            final(self)@ == old(self)@.pressed(sx as int, sy as int),
    {
        match self.locate(sx, sy) {
            Some((x, y)) => {
                self.set_cursor(x, y);
                self.open(x, y);
            },
            None => {},
        }
    }
}

} // verus!
