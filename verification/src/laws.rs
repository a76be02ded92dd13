//! Laws of the guess evaluator, stated and proved over the counting model:
//! bounds on the match counts, the winning condition, conservation under a
//! shared digit multiset, and per-digit-value accounting.

use vstd::prelude::*;
use crate::all_digits;
use crate::eval::count_of;
use crate::eval::exact_count;
use crate::eval::exact_count_for;
use crate::eval::leftover_count;
use crate::eval::leftover_total_below;
use crate::eval::lemma_exact_full;
use crate::eval::lemma_leftover_total;
use crate::eval::lemma_partial_le_leftover;
use crate::eval::min_nat;
use crate::eval::partial_count;
use crate::eval::partial_sum_below;

verus! {

/// Each occurrence of the value `d` in `s` is either an exact match with `g`
/// or a leftover occurrence, never both.
proof fn lemma_count_split(s: Seq<u8>, g: Seq<u8>, d: u8)
    requires
        s.len() == g.len(),
    ensures
        count_of(s, d) == exact_count_for(s, g, d) + leftover_count(s, g, d),
    decreases s.len(),
{
    if s.len() > 0 {
        lemma_count_split(s.drop_last(), g.drop_last(), d);
    }
}

/// Exact matches attributed to a digit value read the same from either side.
proof fn lemma_exact_for_sym(s: Seq<u8>, g: Seq<u8>, d: u8)
    requires
        s.len() == g.len(),
    ensures
        exact_count_for(s, g, d) == exact_count_for(g, s, d),
    decreases s.len(),
{
    if s.len() > 0 {
        lemma_exact_for_sym(s.drop_last(), g.drop_last(), d);
    }
}

/// The occurrence count of a value in a sequence is its multiset count.
proof fn lemma_count_of_multiset(s: Seq<u8>, d: u8)
    ensures
        s.to_multiset().count(d) == count_of(s, d),
    decreases s.len(),
{
    broadcast use vstd::seq_lib::group_to_multiset_ensures;
    broadcast use vstd::multiset::group_multiset_axioms;

    if s.len() == 0 {
        assert(s.to_multiset().count(d) <= s.to_multiset().len());
    } else {
        lemma_count_of_multiset(s.drop_last(), d);
        assert(s =~= s.drop_last().push(s.last()));
        assert(s.drop_last().push(s.last()).to_multiset() =~= s.drop_last().to_multiset().insert(
            s.last(),
        ));
    }
}

/// When every digit value leaves equally many leftover occurrences on both
/// sides, each value's smaller leftover count is the secret-side one, so the
/// value-only matches exhaust the secret's leftovers.
proof fn lemma_partial_full_when_balanced(s: Seq<u8>, g: Seq<u8>, bound: int)
    requires
        forall|d: u8| #[trigger] leftover_count(s, g, d) == leftover_count(g, s, d),
    ensures
        partial_sum_below(s, g, bound) == leftover_total_below(s, g, bound),
    decreases bound,
{
    if bound > 0 {
        lemma_partial_full_when_balanced(s, g, bound - 1);
    }
}

/// The exact and value-only match counts of equal-length digit sequences
/// never sum to more than the common length.
pub proof fn lemma_match_counts_bounded(s: Seq<u8>, g: Seq<u8>)
    requires
        s.len() == g.len(),
        all_digits(s),
        all_digits(g),
    ensures
        exact_count(s, g) + partial_count(s, g) <= s.len(),
{
    lemma_partial_le_leftover(s, g, 10);
    lemma_leftover_total(s, g);
}

/// The exact-match count reaches the common length exactly when the guess
/// equals the secret element for element.
pub proof fn lemma_exact_iff_equal(s: Seq<u8>, g: Seq<u8>)
    requires
        s.len() == g.len(),
    ensures
        exact_count(s, g) == s.len() <==> s == g,
{
    lemma_exact_full(s, g);
}

/// Two equal-length digit sequences holding the same multiset of digits match
/// completely: every position is either an exact match or pairs up with a
/// misplaced occurrence, so the exact and value-only counts sum to the length.
pub proof fn lemma_same_multiset_total(s: Seq<u8>, g: Seq<u8>)
    requires
        s.len() == g.len(),
        all_digits(s),
        all_digits(g),
        s.to_multiset() == g.to_multiset(),
    ensures
        exact_count(s, g) + partial_count(s, g) == s.len(),
{
    assert forall|d: u8| #[trigger] leftover_count(s, g, d) == leftover_count(g, s, d) by {
        lemma_count_of_multiset(s, d);
        lemma_count_of_multiset(g, d);
        lemma_count_split(s, g, d);
        lemma_count_split(g, s, d);
        lemma_exact_for_sym(s, g, d);
    }
    lemma_partial_full_when_balanced(s, g, 10);
    lemma_leftover_total(s, g);
}

/// No digit value is ever matched more often than it occurs: for each value,
/// the exact matches holding it plus the value-only matches attributed to it
/// stay within its occurrences in the secret, and within those in the guess.
pub proof fn lemma_no_double_count(s: Seq<u8>, g: Seq<u8>, d: u8)
    requires
        s.len() == g.len(),
    ensures
        exact_count_for(s, g, d) + min_nat(leftover_count(s, g, d), leftover_count(g, s, d))
            <= count_of(s, d),
        exact_count_for(s, g, d) + min_nat(leftover_count(s, g, d), leftover_count(g, s, d))
            <= count_of(g, d),
{
    lemma_count_split(s, g, d);
    lemma_count_split(g, s, d);
    lemma_exact_for_sym(s, g, d);
}

} // verus!
