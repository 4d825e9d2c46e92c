//! Laying out a fresh mine field.

use vstd::prelude::*;
use rand::rngs::StdRng;
use crate::board::{
    all_hidden, counts_exact, filled, lemma_hidden_safe_is_safe, unplayed, with_cell, Board,
};
use crate::cell::CellState;
use crate::random::sample_below;
use crate::tally::{
    grid_tally, is_mine, is_safe, lemma_grid_tally_none, lemma_grid_tally_set,
    lemma_grid_tally_split, lemma_grid_tally_take_next, lemma_tally_none, lemma_tally_split,
    lemma_tally_take_next, rectangular, tally_before, Grid,
};

verus! {

/// A field needs at least one column and one row, an area that fits the
/// machine word, and at least one square left free of mines.
pub open spec fn valid_configuration(width: nat, height: nat, mines: nat) -> bool {
    &&& width >= 1
    &&& height >= 1
    &&& width * height <= usize::MAX
    &&& mines <= width * height - 1
}

/// Decides whether a field of this size can hold this many mines.
pub fn is_valid_configuration(width: usize, height: usize, mines: usize) -> (ok: bool)
    ensures
        ok == valid_configuration(width as nat, height as nat, mines as nat),
{
    if width == 0 || height == 0 {
        return false;
    }
    match width.checked_mul(height) {
        Some(area) => {
            assert(area >= 1) by (nonlinear_arith)
                requires
                    area == width * height,
                    width >= 1,
                    height >= 1,
            ;
            mines <= area - 1
        },
        None => false,
    }
}

/// The grid after the squares drawn, each given as column and row, have been
/// mined one after the other; a draw that hits a mine changes nothing.
pub open spec fn sampled(g: Grid, draws: Seq<(int, int)>) -> Grid
    decreases draws.len(),
{
    if draws.len() == 0 {
        g
    } else {
        let before = sampled(g, draws.drop_last());
        let (x, y) = draws.last();
        if before[y][x].mined() {
            before
        } else {
            with_cell(before, x, y, CellState::Bomb { hidden: true })
        }
    }
}

/// Every draw names a square of a field of `w` columns and `h` rows.
pub open spec fn draws_on_field(draws: Seq<(int, int)>, w: int, h: int) -> bool {
    forall|i: int| 0 <= i < draws.len() ==> 0 <= (#[trigger] draws[i]).0 < w && 0 <= draws[i].1 < h
}

/// `draws` is what one run of rejection sampling on the grid `g` may have
/// drawn when `wanted` mines were asked for and `trials` draws allowed: the
/// draws are on the field and no more than allowed, the run went on to the
/// last allowed draw unless the wanted mines were reached, and it made no
/// draw once they were.
pub open spec fn sampling_run(
    g: Grid,
    w: int,
    h: int,
    draws: Seq<(int, int)>,
    wanted: nat,
    trials: nat,
) -> bool {
    &&& draws.len() <= trials
    &&& draws_on_field(draws, w, h)
    &&& draws.len() == trials || grid_tally(sampled(g, draws), is_mine()) == grid_tally(
        g,
        is_mine(),
    ) + wanted
    &&& draws.len() > 0 ==> grid_tally(sampled(g, draws.drop_last()), is_mine()) < grid_tally(
        g,
        is_mine(),
    ) + wanted
}

/// Rejection sampling: draws a row and a column at random, `trials` times at
/// most, and mines each drawn square that holds no mine yet, until `wanted`
/// mines have been added. Returns the number of mines added.
///
/// What was drawn is left open. Whatever it was, the field afterwards is the
/// one that mining the drawn squares in turn gives, the draws stopped when
/// the wanted mines were reached and not before the allowed draws were used
/// up, and a first draw on a field without mines always adds one.
fn scatter_mines(board: &mut Board, rng: &mut StdRng, wanted: usize, trials: usize) -> (placed:
    usize)
    requires
        old(board).wf(),
        unplayed(old(board)@),
    ensures
        final(board).wf(),
        final(board).spec_width() == old(board).spec_width(),
        final(board).spec_height() == old(board).spec_height(),
        unplayed(final(board)@),
        placed <= wanted,
        final(board).mine_count() == old(board).mine_count() + placed,
        trials == 0 ==> final(board)@ == old(board)@,
        exists|draws: Seq<(int, int)>|
            #[trigger] sampling_run(
                old(board)@,
                old(board).spec_width() as int,
                old(board).spec_height() as int,
                draws,
                wanted as nat,
                trials as nat,
            ) && final(board)@ == sampled(old(board)@, draws),
        old(board).mine_count() == 0 && wanted >= 1 && trials >= 1 ==> placed >= 1,
{
    let mut placed: usize = 0;
    let mut left: usize = trials;
    let ghost g0 = board@;
    let ghost mut draws: Seq<(int, int)> = Seq::empty();
    while placed < wanted && left > 0
        invariant
            board.wf(),
            board.spec_width() == old(board).spec_width(),
            board.spec_height() == old(board).spec_height(),
            unplayed(board@),
            placed <= wanted,
            board.mine_count() == old(board).mine_count() + placed,
            left <= trials,
            trials == 0 ==> board@ == old(board)@,
            g0 == old(board)@,
            draws.len() == trials - left,
            draws_on_field(draws, board.spec_width() as int, board.spec_height() as int),
            board@ == sampled(g0, draws),
            draws.len() > 0 ==> grid_tally(sampled(g0, draws.drop_last()), is_mine()) < grid_tally(
                g0,
                is_mine(),
            ) + wanted,
            old(board).mine_count() == 0 && draws.len() > 0 ==> placed >= 1,
        decreases left,
    {
        left -= 1;
        let y: usize = sample_below(rng, board.height());
        let x: usize = sample_below(rng, board.width());
        proof {
            let earlier = draws;
            draws = earlier.push((x as int, y as int));
            assert(draws.drop_last() =~= earlier);
            assert(draws.last() == (x as int, y as int));
            lemma_grid_tally_set(
                board@,
                x as int,
                y as int,
                CellState::Empty { count: 0, hidden: true },
                is_mine(),
            );
        }
        if board.place_mine(x, y) {
            placed += 1;
        }
    }
    proof {
        assert(sampling_run(
            g0,
            board.spec_width() as int,
            board.spec_height() as int,
            draws,
            wanted as nat,
            trials as nat,
        ));
    }
    placed
}

/// The smaller of two numbers.
pub open spec fn least(a: int, b: int) -> int {
    if a < b {
        a
    } else {
        b
    }
}

/// Walks the field row by row, each row from the left, and mines the first
/// `wanted` squares that hold no mine yet, or all of them if there are
/// fewer. Returns the number of mines added.
pub fn fill_mines(board: &mut Board, wanted: usize) -> (placed: usize)
    requires
        old(board).wf(),
    ensures
        final(board).wf(),
        final(board).spec_width() == old(board).spec_width(),
        final(board).spec_height() == old(board).spec_height(),
        final(board)@ == filled(old(board)@, wanted as nat),
        placed == least(wanted as int, old(board).safe_count() as int),
        final(board).mine_count() == old(board).mine_count() + placed,
        unplayed(old(board)@) ==> unplayed(final(board)@),
{
    let ghost g0 = board@;
    let width: usize = board.width();
    let height: usize = board.height();
    let mut placed: usize = 0;
    let mut y: usize = 0;
    proof {
        lemma_grid_tally_take_next(g0, 0, is_safe());
    }
    while y < height
        invariant
            board.wf(),
            width == board.spec_width() == old(board).spec_width(),
            height == board.spec_height() == old(board).spec_height(),
            g0 == old(board)@,
            rectangular(g0, width as int, height as int),
            y <= height,
            board.mine_count() == old(board).mine_count() + placed,
            placed == least(wanted as int, grid_tally(g0.take(y as int), is_safe()) as int),
            forall|j: int, i: int|
                0 <= j < y && 0 <= i < width ==> #[trigger] board@[j][i] == filled(
                    g0,
                    wanted as nat,
                )[j][i],
            forall|j: int, i: int|
                y <= j < height && 0 <= i < width ==> #[trigger] board@[j][i] == g0[j][i],
        decreases height - y,
    {
        let mut x: usize = 0;
        proof {
            lemma_tally_take_next(g0[y as int], 0, is_safe());
        }
        while x < width
            invariant
                board.wf(),
                width == board.spec_width() == old(board).spec_width(),
                height == board.spec_height() == old(board).spec_height(),
                rectangular(g0, width as int, height as int),
                y < height,
                x <= width,
                board.mine_count() == old(board).mine_count() + placed,
                placed == least(
                    wanted as int,
                    tally_before(g0, x as int, y as int, is_safe()) as int,
                ),
                forall|j: int, i: int|
                    0 <= j < y && 0 <= i < width ==> #[trigger] board@[j][i] == filled(
                        g0,
                        wanted as nat,
                    )[j][i],
                forall|i: int|
                    0 <= i < x ==> #[trigger] board@[y as int][i] == filled(
                        g0,
                        wanted as nat,
                    )[y as int][i],
                forall|i: int| x <= i < width ==> #[trigger] board@[y as int][i] == g0[y as int][i],
                forall|j: int, i: int|
                    y < j < height && 0 <= i < width ==> #[trigger] board@[j][i] == g0[j][i],
            decreases width - x,
        {
            proof {
                lemma_tally_take_next(g0[y as int], x as int, is_safe());
            }
            if placed < wanted {
                if board.place_mine(x, y) {
                    placed += 1;
                }
            }
            x += 1;
        }
        proof {
            lemma_tally_take_next(g0[y as int], 0, is_safe());
            lemma_grid_tally_take_next(g0, y as int, is_safe());
        }
        y += 1;
    }
    proof {
        lemma_grid_tally_take_next(g0, 0, is_safe());
        let f = filled(g0, wanted as nat);
        assert(board@ =~= f) by {
            assert forall|j: int| 0 <= j < f.len() implies #[trigger] board@[j] =~= f[j] by {
                assert(g0[j].len() == width);
                assert forall|i: int| 0 <= i < f[j].len() implies board@[j][i] == f[j][i] by {}
            }
        }
    }
    placed
}

/// On a grid without mines, the mine-free squares that come before a square
/// in reading order are all the squares that come before it.
proof fn lemma_before_without_mines(g: Grid, w: int, h: int, x: int, y: int)
    requires
        rectangular(g, w, h),
        0 <= y < h,
        0 <= x < w,
        forall|j: int, i: int| 0 <= j < h && 0 <= i < w ==> !(#[trigger] g[j][i]).mined(),
    ensures
        tally_before(g, x, y, is_safe()) == y * w + x,
{
    let above = g.take(y);
    assert(rectangular(above, w, y)) by {
        assert forall|j: int| 0 <= j < y implies (#[trigger] above[j]).len() == w by {
            assert(above[j] == g[j]);
        }
    }
    assert forall|j: int, i: int| 0 <= j < above.len() && 0 <= i < above[j].len() implies !is_mine()(
        #[trigger] above[j][i],
    ) by {
        assert(above[j] == g[j]);
        assert(!g[j][i].mined());
    }
    lemma_grid_tally_none(above, is_mine());
    lemma_grid_tally_split(above, w, y, is_mine(), is_safe());
    let left = g[y].take(x);
    assert forall|i: int| 0 <= i < left.len() implies !is_mine()(#[trigger] left[i]) by {
        assert(!g[y][i].mined());
    }
    lemma_tally_none(left, is_mine());
    lemma_tally_split(left, is_mine(), is_safe());
    assert(w * y == y * w) by (nonlinear_arith);
}

/// Lays out a field of `width` by `height` squares with exactly `max_bombs`
/// mines, every square hidden and every mine-free square carrying the number
/// of mines that touch it, drawing from `rng` no more than `trials` pairs of
/// coordinates.
///
/// Mines are placed by rejection sampling: a row and a column are drawn
/// uniformly at random, and a draw that hits a mine is thrown away. Mines
/// still missing once the draws are used up go to the first free squares in
/// row order, so the result has the promised number of mines whatever was
/// drawn. Without any draw the mines are simply the first squares in row
/// order.
pub fn generate_board_within(
    width: usize,
    height: usize,
    max_bombs: usize,
    rng: &mut StdRng,
    trials: usize,
) -> (b: Board)
    requires
        valid_configuration(width as nat, height as nat, max_bombs as nat),
    ensures
        b.playable(),
        b.spec_width() == width,
        b.spec_height() == height,
        all_hidden(b@),
        counts_exact(b@),
        b.mine_count() == max_bombs,
        b.safe_count() == width * height - max_bombs,
        b.hidden_safe_count() == width * height - max_bombs,
        trials == 0 ==> forall|y: int, x: int|
            0 <= y < height && 0 <= x < width ==> (#[trigger] b@[y][x]).mined() == (y * width + x
                < max_bombs),
{
    let mut board = Board::blank(width, height);
    let ghost blank = board@;
    let scattered: usize = scatter_mines(&mut board, rng, max_bombs, trials);
    proof {
        board.lemma_area();
    }
    fill_mines(&mut board, max_bombs - scattered);
    proof {
        if trials == 0 {
            assert forall|y: int, x: int| 0 <= y < height && 0 <= x < width implies (
            #[trigger] board@[y][x]).mined() == (y * width + x < max_bombs) by {
                lemma_before_without_mines(blank, width as int, height as int, x, y);
                assert(blank[y].len() == width);
                assert(!blank[y][x].mined());
            }
        }
    }
    let ghost laid = board@;
    board.count_neighbours();
    proof {
        lemma_grid_tally_split(board@, width as int, height as int, is_mine(), is_safe());
        lemma_hidden_safe_is_safe(board@);
        assert forall|y: int, x: int| 0 <= y < height && 0 <= x < width implies (
        #[trigger] board@[y][x]).mined() == laid[y][x].mined() by {
            assert(laid[y].len() == width);
        }
    }
    board
}

/// Lays out a field of `width` by `height` squares with exactly `max_bombs`
/// mines, every square hidden and every mine-free square carrying the number
/// of mines that touch it.
///
/// Mines are placed by rejection sampling, as in [`generate_board_within`].
/// Which squares end up mined is left open; everything else about the result
/// is fixed. The number of draws is capped at the largest machine word, so
/// that the function always returns.
pub fn generate_board(width: usize, height: usize, max_bombs: usize, rng: &mut StdRng) -> (b:
    Board)
    requires
        valid_configuration(width as nat, height as nat, max_bombs as nat),
    ensures
        b.playable(),
        b.spec_width() == width,
        b.spec_height() == height,
        all_hidden(b@),
        counts_exact(b@),
        b.mine_count() == max_bombs,
        b.safe_count() == width * height - max_bombs,
        b.hidden_safe_count() == width * height - max_bombs,
{
    generate_board_within(width, height, max_bombs, rng, usize::MAX)
}

} // verus!
