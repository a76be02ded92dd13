//! The game itself: a secret, a fixed attempt budget, and one transition per
//! submitted line. Malformed lines are rejected without touching the budget;
//! each well-formed guess costs one attempt and either wins, loses on the
//! last attempt, or carries the evaluator's feedback.

use vstd::prelude::*;
use crate::all_digits;
use crate::eval::evaluate_guess;
use crate::eval::exact_count;
use crate::eval::partial_count;
use crate::parse::digits_of;
use crate::parse::parse_guess;
use crate::parse::valid_guess;
use crate::secret::generate_code;

verus! {

/// The fixed number of guesses a player gets.
pub const MAX_ATTEMPTS: usize = 10;

/// The phase a game is in.
#[derive(PartialEq, Eq, Structural, Clone, Copy, Debug)]
pub enum GameStatus {
    /// Guesses are still being accepted.
    InProgress,
    /// A guess matched the secret exactly.
    Won,
    /// The attempt budget ran out without a winning guess.
    Lost,
}

/// What one submitted line led to.
#[derive(PartialEq, Eq, Structural, Clone, Copy, Debug)]
pub enum GuessOutcome {
    /// The line was not exactly the secret's length in decimal digits; the
    /// game is unchanged and no attempt was spent.
    Rejected,
    /// The guess matched the secret exactly.
    Won,
    /// The guess did not match: its exact-position and value-only match
    /// counts, as feedback for the next try.
    Feedback { exact: usize, partial: usize },
}

/// One running game: the secret, the attempts spent so far, and the phase.
pub struct Game {
    pub secret: Vec<u8>,
    pub attempts_used: usize,
    pub status: GameStatus,
}

impl Game {
    /// The game's invariant: the secret is all digits, the attempt budget is
    /// never overdrawn, and a game still in progress has an attempt left.
    pub open spec fn wf(self) -> bool {
        &&& all_digits(self.secret@)
        &&& self.attempts_used <= MAX_ATTEMPTS
        &&& (self.status is InProgress ==> self.attempts_used < MAX_ATTEMPTS)
    }

    /// Starts a game over the given secret with a fresh attempt budget.
    pub fn with_secret(secret: Vec<u8>) -> (game: Game)
        requires
            all_digits(secret@),
        ensures
            game.wf(),
            game.secret@ == secret@,
            game.attempts_used == 0,
            game.status is InProgress,
    {
        Game { secret, attempts_used: 0, status: GameStatus::InProgress }
    }

    /// Starts a game over a freshly drawn random secret of the given length.
    pub fn new_random(length: usize) -> (game: Game)
        ensures
            game.wf(),
            game.secret@.len() == length,
            game.attempts_used == 0,
            game.status is InProgress,
    {
        Game { secret: generate_code(length), attempts_used: 0, status: GameStatus::InProgress }
    }

    /// Submits one typed line as a guess.
    ///
    /// A line that is not exactly the secret's length in decimal digits is
    /// rejected and leaves the game untouched, the attempt counter included.
    /// A well-formed guess spends one attempt; it wins exactly when its
    /// digits equal the secret, and otherwise the answer carries the
    /// evaluator's two counts, with the game lost once the spent attempt was
    /// the last of the budget.
    pub fn submit_guess(&mut self, input: &str) -> (r: GuessOutcome)
        requires
            old(self).wf(),
            old(self).status is InProgress,
        ensures
            final(self).wf(),
            final(self).secret@ == old(self).secret@,
            r is Rejected <==> !valid_guess(input@, old(self).secret@.len()),
            r is Rejected ==> *final(self) == *old(self),
            !(r is Rejected) ==> final(self).attempts_used == old(self).attempts_used + 1,
            r is Won <==> valid_guess(input@, old(self).secret@.len()) && digits_of(input@)
                == old(self).secret@,
            r is Won ==> final(self).status is Won,
            (r matches GuessOutcome::Feedback { exact, partial } ==> {
                &&& exact == exact_count(old(self).secret@, digits_of(input@))
                &&& partial == partial_count(old(self).secret@, digits_of(input@))
                &&& exact + partial <= old(self).secret@.len()
                &&& exact < old(self).secret@.len()
                &&& final(self).status == (if old(self).attempts_used + 1 == MAX_ATTEMPTS {
                    GameStatus::Lost
                } else {
                    GameStatus::InProgress
                })
            }),
    {
        match parse_guess(input, self.secret.len()) {
            None => GuessOutcome::Rejected,
            Some(digits) => {
                let (exact, partial) = evaluate_guess(&self.secret, &digits);
                self.attempts_used = self.attempts_used + 1;
                if exact == self.secret.len() {
                    self.status = GameStatus::Won;
                    GuessOutcome::Won
                } else {
                    if self.attempts_used == MAX_ATTEMPTS {
                        self.status = GameStatus::Lost;
                    }
                    GuessOutcome::Feedback { exact, partial }
                }
            },
        }
    }
}

} // verus!
