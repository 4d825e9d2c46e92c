//! Counting the squares of a grid that satisfy a predicate.

use vstd::prelude::*;
use crate::cell::CellState;

verus! {

/// The grid as rows of squares, top row first.
pub type Grid = Seq<Seq<CellState>>;

/// A predicate on squares.
pub type CellPred = spec_fn(CellState) -> bool;

/// Selects the mined squares.
pub open spec fn is_mine() -> CellPred {
    |c: CellState| c.mined()
}

/// Selects the squares without a mine.
pub open spec fn is_safe() -> CellPred {
    |c: CellState| !c.mined()
}

/// Selects the squares without a mine that are still hidden.
pub open spec fn is_hidden_safe() -> CellPred {
    |c: CellState| !c.mined() && c.concealed()
}

/// One for a true condition, zero for a false one.
pub open spec fn unit(b: bool) -> nat {
    if b {
        1
    } else {
        0
    }
}

/// How many squares of one row satisfy `f`.
pub open spec fn tally(cells: Seq<CellState>, f: CellPred) -> nat
    decreases cells.len(),
{
    if cells.len() == 0 {
        0
    } else {
        tally(cells.drop_last(), f) + unit(f(cells.last()))
    }
}

/// How many squares of the whole grid satisfy `f`.
pub open spec fn grid_tally(rows: Grid, f: CellPred) -> nat
    decreases rows.len(),
{
    if rows.len() == 0 {
        0
    } else {
        grid_tally(rows.drop_last(), f) + tally(rows.last(), f)
    }
}

/// How many squares that satisfy `f` come before column `x` of row `y` when
/// the grid is read row by row, each row from the left.
pub open spec fn tally_before(g: Grid, x: int, y: int, f: CellPred) -> nat {
    grid_tally(g.take(y), f) + tally(g[y].take(x), f)
}

/// Every row of `g` has `w` squares and there are `h` rows.
pub open spec fn rectangular(g: Grid, w: int, h: int) -> bool {
    &&& g.len() == h
    &&& forall|y: int| 0 <= y < h ==> (#[trigger] g[y]).len() == w
}

/// Two grids of the same shape whose squares agree on `f` everywhere.
pub open spec fn agree_on(a: Grid, b: Grid, f: CellPred) -> bool {
    &&& a.len() == b.len()
    &&& forall|y: int| 0 <= y < a.len() ==> (#[trigger] a[y]).len() == b[y].len()
    &&& forall|y: int, x: int|
        0 <= y < a.len() && 0 <= x < a[y].len() ==> f(#[trigger] a[y][x]) == f(b[y][x])
}

/// Replacing one square changes the count by what the old and the new square
/// contribute.
pub proof fn lemma_tally_update(cells: Seq<CellState>, i: int, c: CellState, f: CellPred)
    requires
        0 <= i < cells.len(),
    ensures
        tally(cells.update(i, c), f) + unit(f(cells[i])) == tally(cells, f) + unit(f(c)),
    decreases cells.len(),
{
    let after = cells.update(i, c);
    if i == cells.len() - 1 {
        assert(after.drop_last() =~= cells.drop_last());
    } else {
        assert(after.drop_last() =~= cells.drop_last().update(i, c));
        lemma_tally_update(cells.drop_last(), i, c, f);
    }
}

/// Replacing one row changes the count by what the old and the new row
/// contribute.
pub proof fn lemma_grid_tally_update(rows: Grid, y: int, row: Seq<CellState>, f: CellPred)
    requires
        0 <= y < rows.len(),
    ensures
        grid_tally(rows.update(y, row), f) + tally(rows[y], f) == grid_tally(rows, f) + tally(
            row,
            f,
        ),
    decreases rows.len(),
{
    let after = rows.update(y, row);
    if y == rows.len() - 1 {
        assert(after.drop_last() =~= rows.drop_last());
    } else {
        assert(after.drop_last() =~= rows.drop_last().update(y, row));
        lemma_grid_tally_update(rows.drop_last(), y, row, f);
    }
}

/// Replacing the square in column `x` of row `y` changes the grid's count by
/// what the old and the new square contribute.
pub proof fn lemma_grid_tally_set(g: Grid, x: int, y: int, c: CellState, f: CellPred)
    requires
        0 <= y < g.len(),
        0 <= x < g[y].len(),
    ensures
        grid_tally(g.update(y, g[y].update(x, c)), f) + unit(f(g[y][x])) == grid_tally(g, f)
            + unit(f(c)),
{
    lemma_tally_update(g[y], x, c, f);
    lemma_grid_tally_update(g, y, g[y].update(x, c), f);
}

/// Rows whose squares agree on `f` have the same count.
pub proof fn lemma_tally_agree(a: Seq<CellState>, b: Seq<CellState>, f: CellPred)
    requires
        a.len() == b.len(),
        forall|x: int| 0 <= x < a.len() ==> f(#[trigger] a[x]) == f(b[x]),
    ensures
        tally(a, f) == tally(b, f),
    decreases a.len(),
{
    if a.len() > 0 {
        lemma_tally_agree(a.drop_last(), b.drop_last(), f);
    }
}

/// Grids whose squares agree on `f` have the same count.
pub proof fn lemma_grid_tally_agree(a: Grid, b: Grid, f: CellPred)
    requires
        agree_on(a, b, f),
    ensures
        grid_tally(a, f) == grid_tally(b, f),
    decreases a.len(),
{
    if a.len() > 0 {
        let n = a.len() - 1;
        assert(a.last() == a[n]);
        assert(b.last() == b[n]);
        assert forall|x: int| 0 <= x < a[n].len() implies f(#[trigger] a[n][x]) == f(b[n][x]) by {}
        lemma_tally_agree(a.last(), b.last(), f);
        assert(agree_on(a.drop_last(), b.drop_last(), f)) by {
            assert forall|y: int, x: int|
                0 <= y < a.drop_last().len() && 0 <= x < a.drop_last()[y].len() implies f(
                #[trigger] a.drop_last()[y][x],
            ) == f(b.drop_last()[y][x]) by {
                assert(a.drop_last()[y] == a[y]);
                assert(f(a[y][x]) == f(b[y][x]));
            }
        }
        lemma_grid_tally_agree(a.drop_last(), b.drop_last(), f);
    }
}

/// A row in which no square satisfies `f` counts zero.
pub proof fn lemma_tally_none(cells: Seq<CellState>, f: CellPred)
    requires
        forall|x: int| 0 <= x < cells.len() ==> !f(#[trigger] cells[x]),
    ensures
        tally(cells, f) == 0,
    decreases cells.len(),
{
    if cells.len() > 0 {
        lemma_tally_none(cells.drop_last(), f);
    }
}

/// A grid in which no square satisfies `f` counts zero.
pub proof fn lemma_grid_tally_none(g: Grid, f: CellPred)
    requires
        forall|y: int, x: int| 0 <= y < g.len() && 0 <= x < g[y].len() ==> !f(#[trigger] g[y][x]),
    ensures
        grid_tally(g, f) == 0,
    decreases g.len(),
{
    if g.len() > 0 {
        let n = g.len() - 1;
        assert forall|x: int| 0 <= x < g.last().len() implies !f(#[trigger] g.last()[x]) by {
            assert(!f(g[n][x]));
        }
        lemma_tally_none(g.last(), f);
        assert forall|y: int, x: int|
            0 <= y < g.drop_last().len() && 0 <= x < g.drop_last()[y].len() implies !f(
            #[trigger] g.drop_last()[y][x],
        ) by {
            assert(!f(g[y][x]));
        }
        lemma_grid_tally_none(g.drop_last(), f);
    }
}

/// When every square satisfies exactly one of `f` and `g`, the two counts of
/// a row add up to its length.
pub proof fn lemma_tally_split(cells: Seq<CellState>, f: CellPred, g: CellPred)
    requires
        forall|c: CellState| #[trigger] f(c) != g(c),
    ensures
        tally(cells, f) + tally(cells, g) == cells.len(),
    decreases cells.len(),
{
    if cells.len() > 0 {
        lemma_tally_split(cells.drop_last(), f, g);
    }
}

/// When every square satisfies exactly one of `f` and `g`, the two counts of
/// a rectangular grid add up to its area.
pub proof fn lemma_grid_tally_split(rows: Grid, w: int, h: int, f: CellPred, g: CellPred)
    requires
        rectangular(rows, w, h),
        forall|c: CellState| #[trigger] f(c) != g(c),
    ensures
        grid_tally(rows, f) + grid_tally(rows, g) == w * h,
    decreases rows.len(),
{
    if rows.len() > 0 {
        assert(rows.last() == rows[h - 1]);
        lemma_tally_split(rows.last(), f, g);
        assert(rectangular(rows.drop_last(), w, h - 1)) by {
            assert forall|y: int| 0 <= y < h - 1 implies (#[trigger] rows.drop_last()[y]).len()
                == w by {
                assert(rows.drop_last()[y] == rows[y]);
            }
        }
        lemma_grid_tally_split(rows.drop_last(), w, h - 1, f, g);
        assert(w * (h - 1) + w == w * h) by (nonlinear_arith);
    } else {
        assert(w * 0 == 0);
    }
}

/// Two predicates that agree on every square of a row count the same.
pub proof fn lemma_tally_same(cells: Seq<CellState>, f: CellPred, g: CellPred)
    requires
        forall|x: int| 0 <= x < cells.len() ==> f(#[trigger] cells[x]) == g(cells[x]),
    ensures
        tally(cells, f) == tally(cells, g),
    decreases cells.len(),
{
    if cells.len() > 0 {
        lemma_tally_same(cells.drop_last(), f, g);
    }
}

/// Two predicates that agree on every square of a grid count the same.
pub proof fn lemma_grid_tally_same(rows: Grid, f: CellPred, g: CellPred)
    requires
        forall|y: int, x: int|
            0 <= y < rows.len() && 0 <= x < rows[y].len() ==> f(#[trigger] rows[y][x]) == g(
                rows[y][x],
            ),
    ensures
        grid_tally(rows, f) == grid_tally(rows, g),
    decreases rows.len(),
{
    if rows.len() > 0 {
        let n = rows.len() - 1;
        assert forall|x: int| 0 <= x < rows.last().len() implies f(#[trigger] rows.last()[x])
            == g(rows.last()[x]) by {
            assert(f(rows[n][x]) == g(rows[n][x]));
        }
        lemma_tally_same(rows.last(), f, g);
        assert forall|y: int, x: int|
            0 <= y < rows.drop_last().len() && 0 <= x < rows.drop_last()[y].len() implies f(
            #[trigger] rows.drop_last()[y][x],
        ) == g(rows.drop_last()[y][x]) by {
            assert(f(rows[y][x]) == g(rows[y][x]));
        }
        lemma_grid_tally_same(rows.drop_last(), f, g);
    }
}

/// Reading one square further adds what that square contributes.
pub proof fn lemma_tally_take_next(cells: Seq<CellState>, x: int, f: CellPred)
    requires
        0 <= x < cells.len(),
    ensures
        tally(cells.take(x + 1), f) == tally(cells.take(x), f) + unit(f(cells[x])),
        tally(cells.take(0), f) == 0,
        tally(cells.take(cells.len() as int), f) == tally(cells, f),
{
    assert(cells.take(x + 1).drop_last() =~= cells.take(x));
    assert(cells.take(cells.len() as int) =~= cells);
}

/// Reading one row further adds what that row contributes.
pub proof fn lemma_grid_tally_take_next(rows: Grid, y: int, f: CellPred)
    requires
        0 <= y < rows.len(),
    ensures
        grid_tally(rows.take(y + 1), f) == grid_tally(rows.take(y), f) + tally(rows[y], f),
        grid_tally(rows.take(0), f) == 0,
        grid_tally(rows.take(rows.len() as int), f) == grid_tally(rows, f),
{
    assert(rows.take(y + 1).drop_last() =~= rows.take(y));
    assert(rows.take(rows.len() as int) =~= rows);
}

} // verus!
