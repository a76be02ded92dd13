//! Guess evaluation: classifying a guess against a secret into exact-position
//! matches ("green") and value-only matches ("yellow").

use vstd::prelude::*;
use crate::all_digits;

verus! {

/// The smaller of two naturals.
pub open spec fn min_nat(a: nat, b: nat) -> nat {
    if a <= b {
        a
    } else {
        b
    }
}

/// Number of positions at which the two sequences hold the same value.
pub open spec fn exact_count(s: Seq<u8>, g: Seq<u8>) -> nat
    decreases s.len(),
{
    if s.len() == 0 || g.len() == 0 {
        0
    } else {
        exact_count(s.drop_last(), g.drop_last()) + if s.last() == g.last() {
            1nat
        } else {
            0nat
        }
    }
}

/// Number of positions `i` of `s` that hold the value `d` but do not match
/// `g` at the same position. These are the occurrences of `d` left over for
/// value-only matching once the exact matches are set aside.
pub open spec fn leftover_count(s: Seq<u8>, g: Seq<u8>, d: u8) -> nat
    decreases s.len(),
{
    if s.len() == 0 || g.len() == 0 {
        0
    } else {
        leftover_count(s.drop_last(), g.drop_last(), d) + if s.last() != g.last() && s.last() == d {
            1nat
        } else {
            0nat
        }
    }
}

/// Value-only matches contributed by the digit values below `bound`: for each
/// value, the leftover occurrences in the secret and in the guess pair up, so
/// the smaller of the two leftover counts is matched.
pub open spec fn partial_sum_below(s: Seq<u8>, g: Seq<u8>, bound: int) -> nat
    decreases bound,
{
    if bound <= 0 {
        0
    } else {
        partial_sum_below(s, g, bound - 1) + min_nat(
            leftover_count(s, g, (bound - 1) as u8),
            leftover_count(g, s, (bound - 1) as u8),
        )
    }
}

/// Total number of value-only ("yellow") matches between secret `s` and
/// guess `g`: over every digit value, the smaller of the two leftover counts.
pub open spec fn partial_count(s: Seq<u8>, g: Seq<u8>) -> nat {
    partial_sum_below(s, g, 10)
}

/// Number of occurrences of the value `d` in the sequence.
pub open spec fn count_of(s: Seq<u8>, d: u8) -> nat
    decreases s.len(),
{
    if s.len() == 0 {
        0
    } else {
        count_of(s.drop_last(), d) + if s.last() == d {
            1nat
        } else {
            0nat
        }
    }
}

/// Number of positions at which both sequences hold the value `d`: the exact
/// matches attributed to that digit value.
pub open spec fn exact_count_for(s: Seq<u8>, g: Seq<u8>, d: u8) -> nat
    decreases s.len(),
{
    if s.len() == 0 || g.len() == 0 {
        0
    } else {
        exact_count_for(s.drop_last(), g.drop_last(), d) + if s.last() == g.last() && s.last()
            == d {
            1nat
        } else {
            0nat
        }
    }
}

/// Sum of the secret-side leftover counts over the digit values below `bound`.
pub open spec fn leftover_total_below(s: Seq<u8>, g: Seq<u8>, bound: int) -> nat
    decreases bound,
{
    if bound <= 0 {
        0
    } else {
        leftover_total_below(s, g, bound - 1) + leftover_count(s, g, (bound - 1) as u8)
    }
}

/// With an empty secret or guess there are no leftover occurrences at all.
proof fn lemma_leftover_total_empty(s: Seq<u8>, g: Seq<u8>, bound: int)
    requires
        s.len() == 0 || g.len() == 0,
    ensures
        leftover_total_below(s, g, bound) == 0,
    decreases bound,
{
    if bound > 0 {
        lemma_leftover_total_empty(s, g, bound - 1);
    }
}

/// Extending both sequences by one element raises the leftover total by one
/// exactly when the new pair does not match and the new secret value lies
/// below the bound.
proof fn lemma_leftover_total_step(s: Seq<u8>, g: Seq<u8>, bound: int)
    requires
        s.len() > 0,
        g.len() > 0,
        bound <= 256,
    ensures
        leftover_total_below(s, g, bound) == leftover_total_below(s.drop_last(), g.drop_last(), bound)
            + if s.last() != g.last() && (s.last() as int) < bound {
            1nat
        } else {
            0nat
        },
    decreases bound,
{
    if bound > 0 {
        lemma_leftover_total_step(s, g, bound - 1);
    }
}

/// Summed over all ten digit values, the secret's leftover occurrences are
/// exactly its positions that are not exact matches.
pub(crate) proof fn lemma_leftover_total(s: Seq<u8>, g: Seq<u8>)
    requires
        s.len() == g.len(),
        all_digits(s),
    ensures
        leftover_total_below(s, g, 10) + exact_count(s, g) == s.len(),
    decreases s.len(),
{
    if s.len() == 0 {
        lemma_leftover_total_empty(s, g, 10);
    } else {
        assert(all_digits(s.drop_last())) by {
            assert(forall|i: int| 0 <= i < s.len() - 1 ==> s.drop_last()[i] == s[i]);
        }
        lemma_leftover_total(s.drop_last(), g.drop_last());
        lemma_leftover_total_step(s, g, 10);
        assert(s.last() < 10);
    }
}

/// The value-only matches below a bound never exceed either side's leftover
/// total below that bound.
pub(crate) proof fn lemma_partial_le_leftover(s: Seq<u8>, g: Seq<u8>, bound: int)
    ensures
        partial_sum_below(s, g, bound) <= leftover_total_below(s, g, bound),
        partial_sum_below(s, g, bound) <= leftover_total_below(g, s, bound),
    decreases bound,
{
    if bound > 0 {
        lemma_partial_le_leftover(s, g, bound - 1);
    }
}

/// The leftover total below a bound grows with the bound.
proof fn lemma_leftover_total_mono(s: Seq<u8>, g: Seq<u8>, b1: int, b2: int)
    requires
        b1 <= b2,
    ensures
        leftover_total_below(s, g, b1) <= leftover_total_below(s, g, b2),
    decreases b2 - b1,
{
    if b1 < b2 {
        lemma_leftover_total_mono(s, g, b1, b2 - 1);
    }
}

/// An exact-match count never exceeds the length.
pub(crate) proof fn lemma_exact_le_len(s: Seq<u8>, g: Seq<u8>)
    requires
        s.len() == g.len(),
    ensures
        exact_count(s, g) <= s.len(),
    decreases s.len(),
{
    if s.len() > 0 {
        lemma_exact_le_len(s.drop_last(), g.drop_last());
    }
}

/// The exact-match count reaches the length exactly when the two sequences
/// are equal element for element.
pub(crate) proof fn lemma_exact_full(s: Seq<u8>, g: Seq<u8>)
    requires
        s.len() == g.len(),
    ensures
        exact_count(s, g) == s.len() <==> s == g,
    decreases s.len(),
{
    if s.len() == 0 {
        assert(s =~= g);
    } else {
        lemma_exact_full(s.drop_last(), g.drop_last());
        lemma_exact_le_len(s.drop_last(), g.drop_last());
        if exact_count(s, g) == s.len() {
            assert(s =~= s.drop_last().push(s.last()));
            assert(g =~= g.drop_last().push(g.last()));
            assert(s =~= g);
        }
        if s == g {
            assert(s.drop_last() =~= g.drop_last());
        }
    }
}

/// Evaluates `guess` against `secret`, returning the pair of the exact-match
/// ("green") count and the value-only ("yellow") count.
///
/// An exact match is a position holding the same digit in both sequences.
/// Once those positions are set aside, each remaining guess digit matches at
/// most one remaining secret occurrence of the same value, so the value-only
/// count for each digit value is the smaller of the two leftover counts.
pub fn evaluate_guess(secret: &Vec<u8>, guess: &Vec<u8>) -> (r: (usize, usize))
    requires
        secret@.len() == guess@.len(),
        all_digits(secret@),
        all_digits(guess@),
    ensures
        r.0 == exact_count(secret@, guess@),
        r.1 == partial_count(secret@, guess@),
        r.0 + r.1 <= secret@.len(),
        r.0 == secret@.len() <==> secret@ == guess@,
{
    let n = secret.len();
    let mut exact: usize = 0;
    let mut s_left: Vec<usize> = Vec::new();
    let mut g_left: Vec<usize> = Vec::new();
    let mut d: usize = 0;
    while d < 10
        invariant
            d <= 10,
            s_left@.len() == d,
            g_left@.len() == d,
            forall|j: int| 0 <= j < d ==> s_left@[j] == 0 && g_left@[j] == 0,
        decreases 10 - d,
    {
        s_left.push(0);
        g_left.push(0);
        d = d + 1;
    }
    let mut i: usize = 0;
    while i < n
        invariant
            n == secret@.len(),
            n == guess@.len(),
            all_digits(secret@),
            all_digits(guess@),
            i <= n,
            s_left@.len() == 10,
            g_left@.len() == 10,
            exact == exact_count(secret@.take(i as int), guess@.take(i as int)),
            exact <= i,
            forall|dd: int|
                0 <= dd < 10 ==> s_left@[dd] == leftover_count(
                    secret@.take(i as int),
                    guess@.take(i as int),
                    dd as u8,
                ),
            forall|dd: int|
                0 <= dd < 10 ==> g_left@[dd] == leftover_count(
                    guess@.take(i as int),
                    secret@.take(i as int),
                    dd as u8,
                ),
            forall|dd: int| 0 <= dd < 10 ==> s_left@[dd] <= i && g_left@[dd] <= i,
        decreases n - i,
    {
        proof {
            assert(secret@.take(i + 1).drop_last() =~= secret@.take(i as int));
            assert(guess@.take(i + 1).drop_last() =~= guess@.take(i as int));
        }
        let sd = secret[i];
        let gd = guess[i];
        if sd == gd {
            exact = exact + 1;
        } else {
            let su = sd as usize;
            let gu = gd as usize;
            let cur_s = s_left[su];
            s_left[su] = cur_s + 1;
            let cur_g = g_left[gu];
            g_left[gu] = cur_g + 1;
        }
        i = i + 1;
    }
    proof {
        assert(secret@.take(n as int) =~= secret@);
        assert(guess@.take(n as int) =~= guess@);
        lemma_leftover_total(secret@, guess@);
    }
    let mut partial: usize = 0;
    let mut d: usize = 0;
    while d < 10
        invariant
            d <= 10,
            n == secret@.len(),
            s_left@.len() == 10,
            g_left@.len() == 10,
            secret@.len() == guess@.len(),
            all_digits(secret@),
            forall|dd: int|
                0 <= dd < 10 ==> s_left@[dd] == leftover_count(secret@, guess@, dd as u8),
            forall|dd: int|
                0 <= dd < 10 ==> g_left@[dd] == leftover_count(guess@, secret@, dd as u8),
            partial == partial_sum_below(secret@, guess@, d as int),
            leftover_total_below(secret@, guess@, 10) + exact_count(secret@, guess@)
                == secret@.len(),
        decreases 10 - d,
    {
        proof {
            lemma_partial_le_leftover(secret@, guess@, d + 1);
            lemma_leftover_total_mono(secret@, guess@, d + 1, 10);
        }
        let a = s_left[d];
        let b = g_left[d];
        partial = partial + if a <= b {
            a
        } else {
            b
        };
        d = d + 1;
    }
    proof {
        lemma_partial_le_leftover(secret@, guess@, 10);
        lemma_exact_full(secret@, guess@);
    }
    (exact, partial)
}

} // verus!
