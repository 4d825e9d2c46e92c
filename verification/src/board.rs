//! The mine field: a rectangle of squares, stored row by row.

use vstd::prelude::*;
use crate::cell::CellState;
use crate::tally::{
    grid_tally, is_hidden_safe, is_mine, is_safe, lemma_grid_tally_agree, lemma_grid_tally_none,
    lemma_grid_tally_same, lemma_grid_tally_set, lemma_grid_tally_split, rectangular,
    tally_before, unit, Grid,
};

verus! {

/// Whether column `x` of row `y` lies on the grid and holds a mine.
pub open spec fn mine_at(g: Grid, x: int, y: int) -> bool {
    0 <= y < g.len() && 0 <= x < g[y].len() && g[y][x].mined()
}

/// The number of mines among the up to eight squares that touch column `x`
/// of row `y`, diagonals included; squares beyond the edge count nothing.
pub open spec fn neighbour_mines(g: Grid, x: int, y: int) -> nat {
    unit(mine_at(g, x - 1, y - 1)) + unit(mine_at(g, x, y - 1)) + unit(mine_at(g, x + 1, y - 1))
        + unit(mine_at(g, x - 1, y)) + unit(mine_at(g, x + 1, y)) + unit(
        mine_at(g, x - 1, y + 1),
    ) + unit(mine_at(g, x, y + 1)) + unit(mine_at(g, x + 1, y + 1))
}

/// Every mine-free square of the grid carries its exact neighbour count.
pub open spec fn counts_exact(g: Grid) -> bool {
    forall|y: int, x: int|
        0 <= y < g.len() && 0 <= x < g[y].len() ==> (#[trigger] g[y][x] matches CellState::Empty {
            count,
            ..
        } ==> count == neighbour_mines(g, x, y))
}

/// Every square of the grid is hidden.
pub open spec fn all_hidden(g: Grid) -> bool {
    forall|y: int, x: int|
        0 <= y < g.len() && 0 <= x < g[y].len() ==> (#[trigger] g[y][x]).concealed()
}

/// Every square of the grid is visible.
pub open spec fn all_visible(g: Grid) -> bool {
    forall|y: int, x: int|
        0 <= y < g.len() && 0 <= x < g[y].len() ==> !(#[trigger] g[y][x]).concealed()
}

/// The grid with every square made visible.
pub open spec fn unveiled(g: Grid) -> Grid {
    Seq::new(g.len(), |y: int| Seq::new(g[y].len(), |x: int| g[y][x].revealed()))
}

/// The grid with the square in column `x` of row `y` replaced by `c`.
pub open spec fn with_cell(g: Grid, x: int, y: int, c: CellState) -> Grid {
    g.update(y, g[y].update(x, c))
}

/// The characters that stand for one row of squares on screen.
pub open spec fn row_glyphs(row: Seq<CellState>) -> Seq<char> {
    Seq::new(row.len(), |x: int| row[x].spec_glyph())
}

/// Every square is as mine placement leaves it: hidden, and either a mine or
/// a mine-free square whose count has not been filled in yet.
pub open spec fn unplayed(g: Grid) -> bool {
    forall|y: int, x: int|
        0 <= y < g.len() && 0 <= x < g[y].len() ==> {
            ||| #[trigger] g[y][x] == (CellState::Empty { count: 0, hidden: true })
            ||| g[y][x] == (CellState::Bomb { hidden: true })
        }
}

/// The grid after mining the first `wanted` mine-free squares in reading
/// order, or all of them if there are fewer.
pub open spec fn filled(g: Grid, wanted: nat) -> Grid {
    Seq::new(
        g.len(),
        |y: int|
            Seq::new(
                g[y].len(),
                |x: int|
                    if !g[y][x].mined() && tally_before(g, x, y, is_safe()) < wanted {
                        CellState::Bomb { hidden: true }
                    } else {
                        g[y][x]
                    },
            ),
    )
}

/// The square `c` carrying `n` as its neighbour count; a mine carries none.
pub open spec fn with_count(c: CellState, n: nat) -> CellState {
    match c {
        CellState::Empty { hidden, .. } => CellState::Empty { count: n as u8, hidden },
        CellState::Bomb { hidden } => CellState::Bomb { hidden },
    }
}

/// The grid with the neighbour count of every mine-free square filled in.
pub open spec fn counted(g: Grid) -> Grid {
    Seq::new(
        g.len(),
        |y: int| Seq::new(g[y].len(), |x: int| with_count(g[y][x], neighbour_mines(g, x, y))),
    )
}

/// Filling in the counts moves no mine, so the filled-in counts are exact.
pub proof fn lemma_counted_exact(g: Grid)
    ensures
        counts_exact(counted(g)),
{
    let c = counted(g);
    assert forall|y: int, x: int| 0 <= y < c.len() && 0 <= x < c[y].len() implies (
    #[trigger] c[y][x] matches CellState::Empty { count, .. } ==> count == neighbour_mines(
        c,
        x,
        y,
    )) by {
        lemma_same_mines_same_neighbours(g, c, x, y);
    }
}

/// While every square is hidden, the hidden mine-free squares are all the
/// mine-free squares there are.
pub proof fn lemma_hidden_safe_is_safe(g: Grid)
    requires
        all_hidden(g),
    ensures
        grid_tally(g, is_hidden_safe()) == grid_tally(g, is_safe()),
{
    assert forall|y: int, x: int| 0 <= y < g.len() && 0 <= x < g[y].len() implies is_hidden_safe()(
        #[trigger] g[y][x],
    ) == is_safe()(g[y][x]) by {
        assert(g[y][x].concealed());
    }
    lemma_grid_tally_same(g, is_hidden_safe(), is_safe());
}

/// The neighbour count depends on where the mines lie and on nothing else.
pub proof fn lemma_same_mines_same_neighbours(a: Grid, b: Grid, x: int, y: int)
    requires
        forall|j: int, i: int| mine_at(a, i, j) == mine_at(b, i, j),
    ensures
        neighbour_mines(a, x, y) == neighbour_mines(b, x, y),
{
}

/// A rectangular mine field of `width` columns and `height` rows.
#[derive(Debug)]
pub struct Board {
    width: usize,
    height: usize,
    mines: usize,
    cells: Vec<Vec<CellState>>,
}

impl View for Board {
    type V = Grid;

    closed spec fn view(&self) -> Grid {
        Seq::new(self.cells@.len(), |y: int| self.cells@[y]@)
    }
}

impl Board {
    /// The number of columns.
    pub closed spec fn spec_width(&self) -> nat {
        self.width as nat
    }

    /// The number of rows.
    pub closed spec fn spec_height(&self) -> nat {
        self.height as nat
    }

    /// The number of mines that the field keeps on record.
    pub closed spec fn spec_mines(&self) -> nat {
        self.mines as nat
    }

    /// The field is a non-empty rectangle whose area fits the machine word.
    pub open spec fn shaped(&self) -> bool {
        &&& self.spec_width() >= 1
        &&& self.spec_height() >= 1
        &&& self.spec_width() * self.spec_height() <= usize::MAX
        &&& rectangular(self@, self.spec_width() as int, self.spec_height() as int)
    }

    /// The field is a rectangle and the number of mines on record is the
    /// number of mined squares.
    pub open spec fn wf(&self) -> bool {
        &&& self.shaped()
        &&& self.spec_mines() == self.mine_count()
    }

    /// The number of mined squares.
    pub open spec fn mine_count(&self) -> nat {
        grid_tally(self@, is_mine())
    }

    /// The number of squares without a mine.
    pub open spec fn safe_count(&self) -> nat {
        grid_tally(self@, is_safe())
    }

    /// The number of squares without a mine that are still hidden.
    pub open spec fn hidden_safe_count(&self) -> nat {
        grid_tally(self@, is_hidden_safe())
    }

    /// The field is ready for play: every count is exact and at least one
    /// square is free of mines.
    pub open spec fn playable(&self) -> bool {
        &&& self.wf()
        &&& counts_exact(self@)
        &&& self.mine_count() < self.spec_width() * self.spec_height()
    }

    /// Mined and mine-free squares together make up the area of the field.
    pub proof fn lemma_area(&self)
        requires
            self.shaped(),
        ensures
            self.mine_count() + self.safe_count() == self.spec_width() * self.spec_height(),
    {
        lemma_grid_tally_split(
            self@,
            self.spec_width() as int,
            self.spec_height() as int,
            is_mine(),
            is_safe(),
        );
    }

    /// The number of columns.
    pub fn width(&self) -> (w: usize)
        ensures
            w == self.spec_width(),
    {
        self.width
    }

    /// The number of rows.
    pub fn height(&self) -> (h: usize)
        ensures
            h == self.spec_height(),
    {
        self.height
    }

    /// The number of mined squares.
    pub fn mines(&self) -> (m: usize)
        ensures
            m == self.spec_mines(),
    {
        self.mines
    }

    /// A field of the given size in which every square is hidden, free of
    /// mines and counts no mined neighbour.
    pub fn blank(width: usize, height: usize) -> (b: Board)
        requires
            width >= 1,
            height >= 1,
            width * height <= usize::MAX,
        ensures
            b.wf(),
            b.spec_width() == width,
            b.spec_height() == height,
            b.mine_count() == 0,
            forall|y: int, x: int|
                0 <= y < height && 0 <= x < width ==> #[trigger] b@[y][x] == (CellState::Empty {
                    count: 0,
                    hidden: true,
                }),
    {
        let mut cells: Vec<Vec<CellState>> = Vec::new();
        let mut y: usize = 0;
        while y < height
            invariant
                y <= height,
                cells@.len() == y,
                forall|j: int| 0 <= j < y ==> (#[trigger] cells@[j])@.len() == width,
                forall|j: int, i: int|
                    0 <= j < y && 0 <= i < width ==> #[trigger] cells@[j]@[i] == (
                    CellState::Empty { count: 0, hidden: true }),
            decreases height - y,
        {
            let mut row: Vec<CellState> = Vec::new();
            let mut x: usize = 0;
            while x < width
                invariant
                    x <= width,
                    row@.len() == x,
                    forall|i: int|
                        0 <= i < x ==> #[trigger] row@[i] == (CellState::Empty {
                            count: 0,
                            hidden: true,
                        }),
                decreases width - x,
            {
                row.push(CellState::Empty { count: 0, hidden: true });
                x += 1;
            }
            cells.push(row);
            y += 1;
        }
        let b = Board { width, height, mines: 0, cells };
        proof {
            lemma_grid_tally_none(b@, is_mine());
        }
        b
    }

    /// The square in column `x` of row `y`.
    pub fn cell(&self, x: usize, y: usize) -> (c: CellState)
        requires
            self.wf(),
            x < self.spec_width(),
            y < self.spec_height(),
        ensures
            c == self@[y as int][x as int],
    {
        self.peek(x, y)
    }

    /// The square in column `x` of row `y`, whatever the mine record says.
    fn peek(&self, x: usize, y: usize) -> (c: CellState)
        requires
            self.shaped(),
            x < self.spec_width(),
            y < self.spec_height(),
        ensures
            c == self@[y as int][x as int],
    {
        assert(self@[y as int].len() == self.width);
        self.cells[y][x]
    }

    /// Replaces the square in column `x` of row `y`.
    fn put(&mut self, x: usize, y: usize, c: CellState)
        requires
            old(self).shaped(),
            x < old(self).spec_width(),
            y < old(self).spec_height(),
        ensures
            final(self).shaped(),
            final(self).spec_width() == old(self).spec_width(),
            final(self).spec_height() == old(self).spec_height(),
            final(self).spec_mines() == old(self).spec_mines(),
            final(self)@ == with_cell(old(self)@, x as int, y as int, c),
    {
        assert(self@[y as int].len() == self.width);
        self.cells[y][x] = c;
        assert(self@ =~= with_cell(old(self)@, x as int, y as int, c));
    }

    /// One step of mine placement: a square that is free of mines becomes a
    /// hidden mine; a square that already holds one is left alone.
    pub fn place_mine(&mut self, x: usize, y: usize) -> (placed: bool)
        requires
            old(self).wf(),
            x < old(self).spec_width(),
            y < old(self).spec_height(),
        ensures
            final(self).wf(),
            final(self).spec_width() == old(self).spec_width(),
            final(self).spec_height() == old(self).spec_height(),
            placed == !old(self)@[y as int][x as int].mined(),
            placed ==> final(self)@ == with_cell(
                old(self)@,
                x as int,
                y as int,
                CellState::Bomb { hidden: true },
            ),
            !placed ==> final(self)@ == old(self)@,
            final(self).mine_count() == old(self).mine_count() + unit(placed),
    {
        if self.cell(x, y).is_empty() {
            self.put(x, y, CellState::Bomb { hidden: true });
            proof {
                let mine = CellState::Bomb { hidden: true };
                lemma_grid_tally_set(old(self)@, x as int, y as int, mine, is_mine());
                lemma_grid_tally_set(old(self)@, x as int, y as int, mine, is_safe());
                lemma_grid_tally_split(
                    old(self)@,
                    self.spec_width() as int,
                    self.spec_height() as int,
                    is_mine(),
                    is_safe(),
                );
            }
            self.mines += 1;
            true
        } else {
            false
        }
    }

    /// Whether the square one step from column `x` of row `y` in direction
    /// (`dx`, `dy`) is on the field and mined, as a number.
    fn mine_toward(&self, x: usize, y: usize, dx: i8, dy: i8) -> (n: u8)
        requires
            self.shaped(),
            x < self.spec_width(),
            y < self.spec_height(),
            -1 <= dx <= 1,
            -1 <= dy <= 1,
        ensures
            n == unit(mine_at(self@, x + dx, y + dy)),
    {
        if (dx < 0 && x == 0) || (dy < 0 && y == 0) {
            return 0;
        }
        if (dx > 0 && x + 1 >= self.width) || (dy > 0 && y + 1 >= self.height) {
            return 0;
        }
        let nx: usize = if dx < 0 {
            x - 1
        } else if dx > 0 {
            x + 1
        } else {
            x
        };
        let ny: usize = if dy < 0 {
            y - 1
        } else if dy > 0 {
            y + 1
        } else {
            y
        };
        if self.peek(nx, ny).is_bomb() {
            1
        } else {
            0
        }
    }

    /// The number of mines that touch column `x` of row `y`.
    fn mines_around(&self, x: usize, y: usize) -> (n: u8)
        requires
            self.shaped(),
            x < self.spec_width(),
            y < self.spec_height(),
        ensures
            n == neighbour_mines(self@, x as int, y as int),
    {
        let a: u8 = self.mine_toward(x, y, -1, -1);
        let b: u8 = self.mine_toward(x, y, 0, -1);
        let c: u8 = self.mine_toward(x, y, 1, -1);
        let d: u8 = self.mine_toward(x, y, -1, 0);
        let e: u8 = self.mine_toward(x, y, 1, 0);
        let f: u8 = self.mine_toward(x, y, -1, 1);
        let g: u8 = self.mine_toward(x, y, 0, 1);
        let h: u8 = self.mine_toward(x, y, 1, 1);
        a + b + c + d + e + f + g + h
    }

    /// The adjacency pass: stores in every mine-free square the number of
    /// mines that touch it. Mines and visibility stay as they are.
    pub fn count_neighbours(&mut self)
        requires
            old(self).wf(),
        ensures
            final(self).wf(),
            final(self).spec_width() == old(self).spec_width(),
            final(self).spec_height() == old(self).spec_height(),
            final(self)@ == counted(old(self)@),
            counts_exact(final(self)@),
            final(self).mine_count() == old(self).mine_count(),
    {
        let ghost g0 = self@;
        let mut y: usize = 0;
        while y < self.height
            invariant
                self.shaped(),
                self.spec_mines() == old(self).spec_mines(),
                self.spec_width() == old(self).spec_width(),
                self.spec_height() == old(self).spec_height(),
                g0 == old(self)@,
                rectangular(g0, self.spec_width() as int, self.spec_height() as int),
                y <= self.spec_height(),
                forall|j: int, i: int|
                    0 <= j < y && 0 <= i < self.spec_width() ==> #[trigger] self@[j][i]
                        == with_count(g0[j][i], neighbour_mines(g0, i, j)),
                forall|j: int, i: int|
                    y <= j < self.spec_height() && 0 <= i < self.spec_width()
                        ==> #[trigger] self@[j][i] == g0[j][i],
            decreases self.spec_height() - y,
        {
            let mut x: usize = 0;
            while x < self.width
                invariant
                    self.shaped(),
                    self.spec_mines() == old(self).spec_mines(),
                    self.spec_width() == old(self).spec_width(),
                    self.spec_height() == old(self).spec_height(),
                    rectangular(g0, self.spec_width() as int, self.spec_height() as int),
                    y < self.spec_height(),
                    x <= self.spec_width(),
                    forall|j: int, i: int|
                        0 <= j < y && 0 <= i < self.spec_width() ==> #[trigger] self@[j][i]
                            == with_count(g0[j][i], neighbour_mines(g0, i, j)),
                    forall|i: int|
                        0 <= i < x ==> #[trigger] self@[y as int][i] == with_count(
                            g0[y as int][i],
                            neighbour_mines(g0, i, y as int),
                        ),
                    forall|i: int|
                        x <= i < self.spec_width() ==> #[trigger] self@[y as int][i]
                            == g0[y as int][i],
                    forall|j: int, i: int|
                        y < j < self.spec_height() && 0 <= i < self.spec_width()
                            ==> #[trigger] self@[j][i] == g0[j][i],
                decreases self.spec_width() - x,
            {
                let here = self.peek(x, y);
                proof {
                    assert forall|j: int, i: int| mine_at(self@, i, j) == mine_at(g0, i, j) by {
                        if 0 <= j < self.spec_height() && 0 <= i < self.spec_width() {
                            assert(self@[j][i].mined() == g0[j][i].mined());
                        }
                    }
                    lemma_same_mines_same_neighbours(self@, g0, x as int, y as int);
                }
                match here {
                    CellState::Empty { hidden, .. } => {
                        let n: u8 = self.mines_around(x, y);
                        self.put(x, y, CellState::Empty { count: n, hidden });
                    },
                    CellState::Bomb { .. } => {},
                }
                x += 1;
            }
            y += 1;
        }
        proof {
            assert(self@ =~= counted(g0)) by {
                assert forall|j: int| 0 <= j < self@.len() implies #[trigger] self@[j] =~= counted(
                    g0,
                )[j] by {
                    assert(g0[j].len() == self.spec_width());
                    assert forall|i: int| 0 <= i < self@[j].len() implies self@[j][i] == counted(
                        g0,
                    )[j][i] by {}
                }
            }
            lemma_counted_exact(g0);
            lemma_grid_tally_agree(g0, self@, is_mine());
        }
    }

    /// Makes the square in column `x` of row `y` visible and reports whether
    /// a mine was uncovered. No other square changes.
    pub fn open_cell(&mut self, x: usize, y: usize) -> (bomb: bool)
        requires
            old(self).wf(),
            x < old(self).spec_width(),
            y < old(self).spec_height(),
        ensures
            final(self).wf(),
            final(self).spec_width() == old(self).spec_width(),
            final(self).spec_height() == old(self).spec_height(),
            final(self)@ == with_cell(
                old(self)@,
                x as int,
                y as int,
                old(self)@[y as int][x as int].revealed(),
            ),
            bomb == old(self)@[y as int][x as int].mined(),
    {
        let mut here = self.cell(x, y);
        let bomb = here.open();
        self.put(x, y, here);
        proof {
            lemma_grid_tally_set(old(self)@, x as int, y as int, here, is_mine());
        }
        bomb
    }

    /// Makes every square visible.
    pub fn reveal_all(&mut self)
        requires
            old(self).wf(),
        ensures
            final(self).wf(),
            final(self).spec_width() == old(self).spec_width(),
            final(self).spec_height() == old(self).spec_height(),
            final(self)@ == unveiled(old(self)@),
    {
        let ghost g0 = self@;
        let mut y: usize = 0;
        while y < self.height
            invariant
                self.wf(),
                self.spec_width() == old(self).spec_width(),
                self.spec_height() == old(self).spec_height(),
                g0 == old(self)@,
                rectangular(g0, self.spec_width() as int, self.spec_height() as int),
                y <= self.spec_height(),
                forall|j: int, i: int|
                    0 <= j < y && 0 <= i < self.spec_width() ==> #[trigger] self@[j][i]
                        == g0[j][i].revealed(),
                forall|j: int, i: int|
                    y <= j < self.spec_height() && 0 <= i < self.spec_width()
                        ==> #[trigger] self@[j][i] == g0[j][i],
            decreases self.spec_height() - y,
        {
            let mut x: usize = 0;
            while x < self.width
                invariant
                    self.wf(),
                    self.spec_width() == old(self).spec_width(),
                    self.spec_height() == old(self).spec_height(),
                    rectangular(g0, self.spec_width() as int, self.spec_height() as int),
                    y < self.spec_height(),
                    x <= self.spec_width(),
                    forall|j: int, i: int|
                        0 <= j < y && 0 <= i < self.spec_width() ==> #[trigger] self@[j][i]
                            == g0[j][i].revealed(),
                    forall|i: int|
                        0 <= i < x ==> #[trigger] self@[y as int][i] == g0[y as int][i].revealed(),
                    forall|i: int|
                        x <= i < self.spec_width() ==> #[trigger] self@[y as int][i]
                            == g0[y as int][i],
                    forall|j: int, i: int|
                        y < j < self.spec_height() && 0 <= i < self.spec_width()
                            ==> #[trigger] self@[j][i] == g0[j][i],
                decreases self.spec_width() - x,
            {
                self.open_cell(x, y);
                x += 1;
            }
            y += 1;
        }
        proof {
            assert(self@ =~= unveiled(g0)) by {
                assert forall|j: int| 0 <= j < self@.len() implies #[trigger] self@[j]
                    =~= unveiled(g0)[j] by {
                    assert(g0[j].len() == self.spec_width());
                    assert forall|i: int| 0 <= i < self@[j].len() implies self@[j][i] == unveiled(
                        g0,
                    )[j][i] by {}
                }
            }
        }
    }

    /// The characters that stand for row `y` on screen, left to right.
    pub fn row_text(&self, y: usize) -> (line: Vec<char>)
        requires
            self.wf(),
            counts_exact(self@),
            y < self.spec_height(),
        ensures
            line@ == row_glyphs(self@[y as int]),
    {
        let mut line: Vec<char> = Vec::new();
        let mut x: usize = 0;
        assert(self@[y as int].len() == self.spec_width());
        while x < self.width
            invariant
                self.wf(),
                counts_exact(self@),
                y < self.spec_height(),
                x <= self.spec_width(),
                line@.len() == x,
                forall|i: int| 0 <= i < x ==> #[trigger] line@[i] == self@[y as int][i].spec_glyph(),
            decreases self.spec_width() - x,
        {
            let here = self.cell(x, y);
            assert(here matches CellState::Empty { count, .. } ==> count == neighbour_mines(
                self@,
                x as int,
                y as int,
            ));
            line.push(here.glyph());
            x += 1;
        }
        assert(line@ =~= row_glyphs(self@[y as int]));
        line
    }
}

} // verus!
