//! What follows from the rules of the game, proved once and for all.

use vstd::prelude::*;
use crate::board::{all_visible, unveiled, with_cell};
use crate::game::{lemma_opened_wf, Direction, Outcome, State};
use crate::tally::{grid_tally, is_hidden_safe, lemma_grid_tally_set, Grid};

verus! {

/// Stepping the cursor leaves it on the field, whatever the direction, and
/// touches neither the squares nor the count of those that remain.
pub proof fn cursor_stays_on_field(s: State, d: Direction)
    requires
        s.wf(),
    ensures
        s.moved(d).wf(),
        s.moved(d).on_field(s.moved(d).cursor.0, s.moved(d).cursor.1),
        0 <= s.moved(d).cursor.0 < s.width(),
        0 <= s.moved(d).cursor.1 < s.height(),
        s.moved(d).grid == s.grid,
        s.moved(d).remaining == s.remaining,
        s.moved(d).outcome == s.outcome,
{
}

/// Opening a square that is already visible changes nothing.
pub proof fn open_visible_changes_nothing(s: State, x: int, y: int)
    requires
        s.wf(),
        s.on_field(x, y),
        !s.grid[y][x].concealed(),
    ensures
        s.opened(x, y) == s,
{
}

/// Opening a square a second time changes nothing.
pub proof fn open_is_idempotent(s: State, x: int, y: int)
    requires
        s.wf(),
    ensures
        s.opened(x, y).opened(x, y) == s.opened(x, y),
{
    lemma_opened_wf(s, x, y);
    let t = s.opened(x, y);
    if t.outcome == Outcome::InProgress && t != s {
        assert(t.grid[y][x] == s.grid[y][x].revealed());
    }
}

/// An opening request never hides a square, moves a mine or alters a count:
/// each square is afterwards what it was, or its visible form.
pub proof fn open_only_uncovers(s: State, x: int, y: int, i: int, j: int)
    requires
        s.wf(),
        s.on_field(i, j),
    ensures
        s.opened(x, y).grid[j][i] == s.grid[j][i] || s.opened(x, y).grid[j][i]
            == s.grid[j][i].revealed(),
        !s.grid[j][i].concealed() ==> s.opened(x, y).grid[j][i] == s.grid[j][i],
        (i, j) != (x, y) && s.opened(x, y).outcome == Outcome::InProgress ==> s.opened(
            x,
            y,
        ).grid[j][i] == s.grid[j][i],
{
    assert(s.grid[0].len() == s.width());
}

/// Once the game is over, no request changes anything.
pub proof fn over_is_final(s: State, d: Direction, x: int, y: int)
    requires
        s.outcome != Outcome::InProgress,
    ensures
        s.opened(x, y) == s,
        s.pointed(x, y) == s,
        s.moved(d) == s,
        s.pressed(x, y) == s,
{
}

/// Opening a hidden mine uncovers every square and loses the game, and no
/// opening after that changes anything.
pub proof fn open_mine_loses(s: State, x: int, y: int, x2: int, y2: int)
    requires
        s.wf(),
        s.outcome == Outcome::InProgress,
        s.on_field(x, y),
        s.grid[y][x].concealed(),
        s.grid[y][x].mined(),
    ensures
        s.opened(x, y).outcome == Outcome::Lost,
        s.opened(x, y).grid == unveiled(s.grid),
        all_visible(s.opened(x, y).grid),
        s.opened(x, y).remaining == s.remaining,
        s.opened(x, y).opened(x2, y2) == s.opened(x, y),
{
}

/// Opening a hidden square without a mine takes one off the count of those
/// that remain and never loses the game. If none remains the game is won and
/// every square is uncovered; otherwise play goes on with just that one
/// square uncovered.
pub proof fn open_safe_counts_down(s: State, x: int, y: int)
    requires
        s.wf(),
        s.outcome == Outcome::InProgress,
        s.on_field(x, y),
        s.grid[y][x].concealed(),
        !s.grid[y][x].mined(),
    ensures
        s.remaining >= 1,
        s.opened(x, y).remaining == s.remaining - 1,
        s.opened(x, y).remaining == 0 ==> s.opened(x, y).outcome == Outcome::Won && s.opened(
            x,
            y,
        ).grid == unveiled(s.grid) && all_visible(s.opened(x, y).grid),
        s.opened(x, y).remaining > 0 ==> s.opened(x, y).outcome == Outcome::InProgress && s.opened(
            x,
            y,
        ).grid == with_cell(s.grid, x, y, s.grid[y][x].revealed()),
{
    lemma_grid_tally_set(s.grid, x, y, s.grid[y][x].revealed(), is_hidden_safe());
}

/// The state after opening the given squares in order, each as column and
/// row.
pub open spec fn opened_all(s: State, squares: Seq<(int, int)>) -> State
    decreases squares.len(),
{
    if squares.len() == 0 {
        s
    } else {
        opened_all(s, squares.drop_last()).opened(squares.last().0, squares.last().1)
    }
}

/// The squares are on the field of `s`, hidden, free of mines, and no two of
/// them are the same.
pub open spec fn distinct_hidden_safe(s: State, squares: Seq<(int, int)>) -> bool {
    &&& forall|i: int|
        0 <= i < squares.len() ==> {
            let (x, y) = #[trigger] squares[i];
            s.on_field(x, y) && s.grid[y][x].concealed() && !s.grid[y][x].mined()
        }
    &&& forall|i: int, j: int| 0 <= i < j < squares.len() ==> squares[i] != squares[j]
}

/// The grid with the given squares made visible.
pub open spec fn uncovered(g: Grid, squares: Seq<(int, int)>) -> Grid {
    Seq::new(
        g.len(),
        |y: int|
            Seq::new(
                g[y].len(),
                |x: int|
                    if squares.contains((x, y)) {
                        g[y][x].revealed()
                    } else {
                        g[y][x]
                    },
            ),
    )
}

/// All but the last of a run of distinct hidden mine-free squares are such a
/// run too, and the last one is not among them.
proof fn lemma_last_is_new(s: State, squares: Seq<(int, int)>)
    requires
        distinct_hidden_safe(s, squares),
        squares.len() > 0,
    ensures
        distinct_hidden_safe(s, squares.drop_last()),
        !squares.drop_last().contains(squares.last()),
        s.on_field(squares.last().0, squares.last().1),
        s.grid[squares.last().1][squares.last().0].concealed(),
        !s.grid[squares.last().1][squares.last().0].mined(),
{
    let p = squares.drop_last();
    let n = squares.len() - 1;
    assert(squares[n] == squares.last());
    assert forall|i: int| 0 <= i < p.len() implies {
        let (x, y) = #[trigger] p[i];
        s.on_field(x, y) && s.grid[y][x].concealed() && !s.grid[y][x].mined()
    } by {
        assert(p[i] == squares[i]);
    }
    assert forall|i: int, j: int| 0 <= i < j < p.len() implies p[i] != p[j] by {
        assert(p[i] == squares[i] && p[j] == squares[j]);
    }
    if p.contains(squares.last()) {
        let i = choose|i: int| 0 <= i < p.len() && p[i] == squares.last();
        assert(squares[i] == squares[n]);
    }
}

/// Uncovering nothing leaves the grid as it is.
proof fn lemma_uncovered_none(g: Grid)
    ensures
        uncovered(g, Seq::<(int, int)>::empty()) == g,
{
    let e = Seq::<(int, int)>::empty();
    assert(uncovered(g, e) =~= g) by {
        assert forall|y: int| 0 <= y < g.len() implies #[trigger] uncovered(g, e)[y] =~= g[y] by {}
    }
}

/// Making every square visible gives the same grid whether or not some
/// squares were visible before.
proof fn lemma_unveiled_uncovered(g: Grid, squares: Seq<(int, int)>)
    ensures
        unveiled(uncovered(g, squares)) == unveiled(g),
{
    let a = unveiled(uncovered(g, squares));
    let b = unveiled(g);
    assert(a =~= b) by {
        assert forall|j: int| 0 <= j < a.len() implies #[trigger] a[j] =~= b[j] by {}
    }
}

/// Uncovering distinct hidden mine-free squares lowers the number of hidden
/// mine-free squares by one for each.
proof fn lemma_uncovered_tally(s: State, squares: Seq<(int, int)>)
    requires
        s.wf(),
        distinct_hidden_safe(s, squares),
    ensures
        grid_tally(uncovered(s.grid, squares), is_hidden_safe()) + squares.len() == grid_tally(
            s.grid,
            is_hidden_safe(),
        ),
    decreases squares.len(),
{
    if squares.len() == 0 {
        assert(squares =~= Seq::<(int, int)>::empty());
        lemma_uncovered_none(s.grid);
    } else {
        let p = squares.drop_last();
        let (x, y) = squares.last();
        lemma_last_is_new(s, squares);
        lemma_uncovered_tally(s, p);
        let before = uncovered(s.grid, p);
        assert(s.grid[0].len() == s.width());
        assert(before[y][x] == s.grid[y][x]);
        lemma_step_uncovered(s.grid, squares);
        lemma_grid_tally_set(before, x, y, s.grid[y][x].revealed(), is_hidden_safe());
    }
}

/// Uncovering one more square is replacing that square by its visible form.
proof fn lemma_step_uncovered(g: Grid, squares: Seq<(int, int)>)
    requires
        squares.len() > 0,
        0 <= squares.last().1 < g.len(),
        0 <= squares.last().0 < g[squares.last().1].len(),
    ensures
        uncovered(g, squares) == with_cell(
            uncovered(g, squares.drop_last()),
            squares.last().0,
            squares.last().1,
            g[squares.last().1][squares.last().0].revealed(),
        ),
{
    let p = squares.drop_last();
    let (x, y) = squares.last();
    let a = uncovered(g, squares);
    let b = with_cell(uncovered(g, p), x, y, g[y][x].revealed());
    assert(squares[squares.len() - 1] == (x, y));
    assert forall|j: int, i: int| 0 <= j < g.len() && 0 <= i < g[j].len() implies a[j][i]
        == b[j][i] by {
        if squares.contains((i, j)) {
            let k = choose|k: int| 0 <= k < squares.len() && squares[k] == (i, j);
            if k < p.len() {
                assert(p[k] == (i, j));
            }
        }
        if p.contains((i, j)) {
            let k = choose|k: int| 0 <= k < p.len() && p[k] == (i, j);
            assert(squares[k] == (i, j));
        }
    }
    assert(a =~= b) by {
        assert forall|j: int| 0 <= j < a.len() implies #[trigger] a[j] =~= b[j] by {
            assert forall|i: int| 0 <= i < a[j].len() implies a[j][i] == b[j][i] by {}
        }
    }
}

/// Opening hidden mine-free squares one after the other, no square twice:
/// there cannot be more of them than remain; each takes one off the count;
/// play goes on while some remain, with exactly the opened squares
/// uncovered; and when none remains the game is won and every square is
/// uncovered.
pub proof fn open_all_safe_wins(s: State, squares: Seq<(int, int)>)
    requires
        s.wf(),
        s.outcome == Outcome::InProgress,
        distinct_hidden_safe(s, squares),
    ensures
        squares.len() <= s.remaining,
        opened_all(s, squares).wf(),
        opened_all(s, squares).remaining == s.remaining - squares.len(),
        squares.len() < s.remaining ==> opened_all(s, squares).outcome == Outcome::InProgress
            && opened_all(s, squares).grid == uncovered(s.grid, squares),
        squares.len() == s.remaining ==> opened_all(s, squares).outcome == Outcome::Won
            && opened_all(s, squares).grid == unveiled(s.grid) && all_visible(
            opened_all(s, squares).grid,
        ),
    decreases squares.len(),
{
    lemma_uncovered_tally(s, squares);
    if squares.len() == 0 {
        assert(squares =~= Seq::<(int, int)>::empty());
        lemma_uncovered_none(s.grid);
    } else {
        let p = squares.drop_last();
        let (x, y) = squares.last();
        lemma_last_is_new(s, squares);
        open_all_safe_wins(s, p);
        let t = opened_all(s, p);
        assert(t.grid == uncovered(s.grid, p));
        assert(t.grid[y][x] == s.grid[y][x] && t.on_field(x, y)) by {
            assert(s.grid[0].len() == s.width());
        }
        let u = t.opened(x, y);
        assert(u == opened_all(s, squares));
        lemma_opened_wf(t, x, y);
        open_safe_counts_down(t, x, y);
        if squares.len() == s.remaining {
            lemma_unveiled_uncovered(s.grid, p);
        } else {
            lemma_step_uncovered(s.grid, squares);
        }
    }
}

} // verus!
