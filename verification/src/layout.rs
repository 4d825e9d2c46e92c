//! Fitting the field and the closing banner to the screen.

use vstd::prelude::*;
use crate::game::Outcome;
use crate::generate::valid_configuration;

verus! {

/// The extent the field gets along one axis of a screen with `available`
/// cells: the requested one, or all the screen allows when none was
/// requested, kept between one and two less than `available`.
pub open spec fn fitted(requested: Option<usize>, available: u16) -> int {
    let most = available - 2;
    let want = match requested {
        Some(n) => n as int,
        None => most,
    };
    if want < 1 {
        1
    } else if want > most {
        most
    } else {
        want
    }
}

/// Fits a requested extent to the screen; the screen must leave room for at
/// least one square inside a margin of one cell on either side.
pub fn fit_extent(requested: Option<usize>, available: u16) -> (n: usize)
    requires
        available >= 3,
    ensures
        n == fitted(requested, available),
        1 <= n <= available - 2,
{
    let most: usize = (available - 2) as usize;
    let want: usize = match requested {
        Some(n) => n,
        None => most,
    };
    if want < 1 {
        1
    } else if want > most {
        most
    } else {
        want
    }
}

/// The number of mines a field of the given area gets: the requested one, or
/// a tenth of the area when none was requested, and never so many that no
/// square stays free.
pub open spec fn fitted_mines(requested: Option<usize>, area: int) -> int {
    let want = match requested {
        Some(n) => n as int,
        None => area / 10,
    };
    if want > area - 1 {
        area - 1
    } else {
        want
    }
}

/// Fits a requested number of mines to a field of `width` by `height`
/// squares. The result is always a number of mines the field can hold.
pub fn fit_mines(requested: Option<usize>, width: usize, height: usize) -> (n: usize)
    requires
        width >= 1,
        height >= 1,
        width * height <= usize::MAX,
    ensures
        n == fitted_mines(requested, width * height),
        valid_configuration(width as nat, height as nat, n as nat),
{
    assert(width * height >= 1) by (nonlinear_arith)
        requires
            width >= 1,
            height >= 1,
    ;
    let area: usize = width * height;
    let want: usize = match requested {
        Some(n) => n,
        None => area / 10,
    };
    if want > area - 1 {
        area - 1
    } else {
        want
    }
}

/// The first screen cell of something `span` cells long that is centred on
/// a screen of `total` cells; screen cells are numbered from one.
pub fn centre(total: u16, span: u16) -> (first: u16)
    requires
        span <= total,
    ensures
        first == (total - span) / 2 + 1,
{
    (total - span) / 2 + 1
}

/// The line of the closing banner that names the outcome.
pub open spec fn headline(outcome: Outcome) -> Seq<char> {
    match outcome {
        Outcome::Lost => "      Bomb!      "@,
        Outcome::Won => "     Clear!      "@,
        Outcome::InProgress => "                 "@,
    }
}

/// The four lines of the banner shown once the game is over: a blank line,
/// the outcome, the invitation to press a key, and another blank line. While
/// play goes on there is no banner.
pub fn banner(outcome: Outcome) -> (lines: Option<[&'static str; 4]>)
    ensures
        lines.is_some() == (outcome != Outcome::InProgress),
        lines matches Some(l) ==> {
            &&& l[0]@ == "                 "@
            &&& l[1]@ == headline(outcome)
            &&& l[2]@ == " [Press any key] "@
            &&& l[3]@ == "                 "@
        },
{
    match outcome {
        Outcome::InProgress => None,
        Outcome::Lost => Some(
            ["                 ", "      Bomb!      ", " [Press any key] ", "                 "],
        ),
        Outcome::Won => Some(
            ["                 ", "     Clear!      ", " [Press any key] ", "                 "],
        ),
    }
}

} // verus!
