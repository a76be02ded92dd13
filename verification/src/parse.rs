//! Input validation: turning a typed line into a guess, and a menu selection
//! into a code length.

use vstd::prelude::*;
use vstd::string::StrSliceExecFns;
use crate::all_digits;

verus! {

/// The character is a decimal digit.
pub open spec fn is_digit_char(c: char) -> bool {
    48 <= c as u32 <= 57
}

/// The numeric value of a decimal digit character.
pub open spec fn digit_val(c: char) -> u8 {
    ((c as u32) - 48) as u8
}

/// The character sequence is a well-formed guess for the given length:
/// exactly that many characters, every one a decimal digit.
pub open spec fn valid_guess(input: Seq<char>, len: nat) -> bool {
    input.len() == len && forall|i: int| 0 <= i < input.len() ==> is_digit_char(#[trigger] input[i])
}

/// The digit values of a digit-character sequence, in order.
pub open spec fn digits_of(input: Seq<char>) -> Seq<u8> {
    Seq::new(input.len(), |i: int| digit_val(input[i]))
}

/// The code length selected by a menu line: "1" stands for 3 digits, "2" for
/// 5, "3" for 7; anything else is rejected.
pub open spec fn length_choice(input: Seq<char>) -> Option<usize> {
    if input == seq!['1'] {
        Some(3usize)
    } else if input == seq!['2'] {
        Some(5usize)
    } else if input == seq!['3'] {
        Some(7usize)
    } else {
        None
    }
}

/// Parses one typed line as a guess: accepted exactly when it consists of
/// `length` decimal-digit characters, in which case their digit values are
/// returned in order. Any other line is rejected.
pub fn parse_guess(input: &str, length: usize) -> (r: Option<Vec<u8>>)
    ensures
        r is Some <==> valid_guess(input@, length as nat),
        r is Some ==> r.unwrap()@ == digits_of(input@) && all_digits(r.unwrap()@),
{
    let n = input.unicode_len();
    if n != length {
        return None;
    }
    let mut digits: Vec<u8> = Vec::new();
    let mut i: usize = 0;
    while i < n
        invariant
            n == input@.len(),
            n == length,
            i <= n,
            digits@.len() == i,
            forall|j: int| 0 <= j < i ==> is_digit_char(#[trigger] input@[j]),
            forall|j: int| 0 <= j < i ==> digits@[j] == digit_val(input@[j]),
        decreases n - i,
    {
        let c = input.get_char(i);
        let code = c as u32;
        if code < 48 || code > 57 {
            return None;
        }
        digits.push((code - 48) as u8);
        i = i + 1;
    }
    proof {
        assert(digits@ =~= digits_of(input@));
    }
    Some(digits)
}

/// Parses one typed line as a menu selection of the code length.
pub fn parse_length_choice(input: &str) -> (r: Option<usize>)
    ensures
        r == length_choice(input@),
{
    if input.unicode_len() != 1 {
        proof {
            assert(input@ != seq!['1'] && input@ != seq!['2'] && input@ != seq!['3']);
        }
        return None;
    }
    let c = input.get_char(0);
    if c == '1' {
        proof {
            assert(input@ =~= seq!['1']);
        }
        Some(3)
    } else if c == '2' {
        proof {
            assert(input@ =~= seq!['2']);
        }
        Some(5)
    } else if c == '3' {
        proof {
            assert(input@ =~= seq!['3']);
        }
        Some(7)
    } else {
        proof {
            assert(input@ != seq!['1'] && input@ != seq!['2'] && input@ != seq!['3']);
        }
        None
    }
}

} // verus!
