//! A text-based Mastermind-style guessing game, verified: a secret sequence
//! of random digits, a guess evaluator that counts exact-position ("green")
//! and value-only ("yellow") matches, input validation, and the turn-based
//! game around them with a fixed budget of attempts.

pub mod eval;
pub mod game;
pub mod laws;
pub mod parse;
pub mod secret;

use vstd::prelude::*;

verus! {

/// Every element of the sequence is a decimal digit value (0 through 9).
pub open spec fn all_digits(s: Seq<u8>) -> bool {
    forall|i: int| 0 <= i < s.len() ==> s[i] < 10
}

} // verus!
