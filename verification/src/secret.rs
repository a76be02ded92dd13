//! Secret-code generation: a sequence of independently drawn random digits.

use vstd::prelude::*;
use rand::RngExt;
use crate::all_digits;

verus! {

/// Relies on rand's `RngExt::random_range`: a value sampled from the given
/// range, here `0..10`, so the result is a decimal digit. Nothing more can be
/// promised of a random value.
#[verifier::external_body]
fn random_digit() -> (r: u8)
    ensures
        r < 10,
{
    rand::rng().random_range(0u8..10)
}

/// Draws a fresh secret code: `length` random digits, each in 0 through 9.
/// A length of zero yields the empty code; validity of the length is the
/// caller's concern.
pub fn generate_code(length: usize) -> (code: Vec<u8>)
    ensures
        code@.len() == length,
        all_digits(code@),
{
    let mut code: Vec<u8> = Vec::new();
    let mut i: usize = 0;
    while i < length
        invariant
            i <= length,
            code@.len() == i,
            all_digits(code@),
        decreases length - i,
    {
        let digit = random_digit();
        code.push(digit);
        i = i + 1;
    }
    code
}

} // verus!
