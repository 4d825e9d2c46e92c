//! One turn of play: what an input does to the game and what the caller is
//! to do next.

use vstd::prelude::*;
use crate::game::{Direction, Game, Outcome, State};

verus! {

/// What the player, or the end of the input, asks for.
#[derive(Clone, Copy, PartialEq, Eq, Structural, Debug)]
pub enum Input {
    /// Leave the game.
    Quit,
    /// Step the cursor.
    Move(Direction),
    /// Open the square under the cursor.
    Activate,
    /// The pointer was pressed at this screen column and row.
    Press(u16, u16),
    /// Anything else: it is ignored.
    Other,
    /// No more input will come.
    End,
}

/// What the caller is to do after an input has been handled.
#[derive(Clone, Copy, PartialEq, Eq, Structural, Debug)]
pub enum Step {
    /// Draw the field and wait for the next input.
    Continue,
    /// Stop at once.
    Stop,
    /// The game is over: draw the uncovered field with the banner, wait for
    /// one more input as an acknowledgement, then stop.
    Finished,
}

/// The state that an input leads to.
pub open spec fn after(s: State, input: Input) -> State {
    match input {
        Input::Move(d) => s.moved(d),
        Input::Activate => s.opened(s.cursor.0, s.cursor.1),
        Input::Press(sx, sy) => s.pressed(sx as int, sy as int),
        Input::Quit | Input::Other | Input::End => s,
    }
}

/// What the caller is to do once `input` has been handled in state `s`.
pub open spec fn verdict(s: State, input: Input) -> Step {
    match input {
        Input::Quit | Input::End => Step::Stop,
        _ => if after(s, input).outcome == Outcome::InProgress {
            Step::Continue
        } else {
            Step::Finished
        },
    }
}

/// Applies one input to the game and says how the caller goes on.
///
/// Quitting and the end of input change nothing and stop the loop. A move
/// steps the cursor, an activation opens the square under it, and a press of
/// the pointer on the field puts the cursor there and opens that square; a
/// press off the field and any other input change nothing.
pub fn handle(game: &mut Game, input: Input) -> (step: Step)
    requires
        old(game).wf(),
    ensures
        final(game).wf(),
        final(game)@ == after(old(game)@, input),
        step == verdict(old(game)@, input),
{
    match input {
        Input::Quit | Input::End => {
            return Step::Stop;
        },
        Input::Move(d) => {
            game.move_cursor(d);
        },
        Input::Activate => {
            game.open_at_cursor();
        },
        Input::Press(sx, sy) => {
            game.press(sx, sy);
        },
        Input::Other => {},
    }
    match game.outcome() {
        Outcome::InProgress => Step::Continue,
        _ => Step::Finished,
    }
}

} // verus!
