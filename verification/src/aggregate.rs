//! Combining the per-room outcomes of one poll cycle into a single decision:
//! the largest requested duration, if any room requested one.

use vstd::prelude::*;

use crate::duration::Seconds;
use crate::duration::lemma_seconds_view_injective;
use crate::duration::opt_value;

verus! {

/// The larger of two optional durations; an absent value never wins.
pub open spec fn max_opt(a: Option<Seconds>, b: Option<Seconds>) -> Option<Seconds> {
    match (a, b) {
        (Option::None, Option::None) => None,
        (Option::Some(x), Option::None) => Some(x),
        (Option::None, Option::Some(y)) => Some(y),
        (Option::Some(x), Option::Some(y)) => if y@ > x@ {
            Some(y)
        } else {
            Some(x)
        },
    }
}

/// The cycle decision over a sequence of per-room outcomes: a fold of
/// [`max_opt`] with `None` as identity.
pub open spec fn spec_combine(s: Seq<Option<Seconds>>) -> Option<Seconds>
    decreases s.len(),
{
    if s.len() == 0 {
        None
    } else {
        max_opt(spec_combine(s.drop_last()), s.last())
    }
}

/// The same fold over plain duration values.
pub open spec fn max_value(a: Option<int>, b: Option<int>) -> Option<int> {
    match (a, b) {
        (Option::None, Option::None) => None,
        (Option::Some(x), Option::None) => Some(x),
        (Option::None, Option::Some(y)) => Some(y),
        (Option::Some(x), Option::Some(y)) => if y > x {
            Some(y)
        } else {
            Some(x)
        },
    }
}

/// The cycle decision over a sequence of per-room outcome values.
pub open spec fn combined_value(s: Seq<Option<int>>) -> Option<int>
    decreases s.len(),
{
    if s.len() == 0 {
        None
    } else {
        max_value(combined_value(s.drop_last()), s.last())
    }
}

/// Pairwise combination ignores the order of its two arguments.
pub proof fn lemma_max_opt_commutative(a: Option<Seconds>, b: Option<Seconds>)
    ensures
        max_opt(a, b) == max_opt(b, a),
{
    match (a, b) {
        (Option::Some(x), Option::Some(y)) => {
            if x@ == y@ {
                lemma_seconds_view_injective(x, y);
            }
        },
        _ => {},
    }
}

/// Pairwise combination is associative, so a cycle's outcomes may be folded
/// in any grouping.
pub proof fn lemma_max_opt_associative(
    a: Option<Seconds>,
    b: Option<Seconds>,
    c: Option<Seconds>,
)
    ensures
        max_opt(a, max_opt(b, c)) == max_opt(max_opt(a, b), c),
{
}

/// Folding durations and folding their values agree.
pub proof fn lemma_max_opt_value(a: Option<Seconds>, b: Option<Seconds>)
    ensures
        opt_value(max_opt(a, b)) == max_value(opt_value(a), opt_value(b)),
{
}

/// If the new outcome requests more seconds than the current maximum, store
/// it in `curr_max_opt`; an absent outcome changes nothing.
pub fn compare_and_store(curr_max_opt: &mut Option<Seconds>, new_opt: Option<Seconds>)
    ensures
        *final(curr_max_opt) == max_opt(*old(curr_max_opt), new_opt),
{
    let new = match (*curr_max_opt, new_opt) {
        (Some(x), None) => Some(x),
        (None, Some(x)) => Some(x),
        (Some(curr_max), Some(candidate)) => {
            if candidate.value() > curr_max.value() {
                Some(candidate)
            } else {
                Some(curr_max)
            }
        },
        (None, None) => None,
    };
    *curr_max_opt = new;
}

/// Combine the outcomes of one poll cycle: `None` exactly when every outcome
/// is `None`, and otherwise the largest requested duration.
pub fn combine(outcomes: &Vec<Option<Seconds>>) -> (r: Option<Seconds>)
    ensures
        r == spec_combine(outcomes@),
{
    let mut acc: Option<Seconds> = None;
    let mut i: usize = 0;
    while i < outcomes.len()
        invariant
            i <= outcomes@.len(),
            acc == spec_combine(outcomes@.take(i as int)),
        decreases outcomes@.len() - i,
    {
        compare_and_store(&mut acc, outcomes[i]);
        i = i + 1;
        proof {
            assert(outcomes@.take(i as int).drop_last() =~= outcomes@.take(i as int - 1));
            assert(outcomes@.take(i as int).last() == outcomes@[i - 1]);
        }
    }
    proof {
        assert(outcomes@.take(outcomes@.len() as int) =~= outcomes@);
    }
    acc
}

/// What the combined decision means: it is `None` exactly when every outcome
/// is `None`, and otherwise it is an outcome that occurs in the sequence and
/// that no other outcome exceeds.
pub proof fn lemma_combine_characterization(s: Seq<Option<Seconds>>)
    ensures
        (spec_combine(s) is None) <==> (forall|i: int| 0 <= i < s.len() ==> s[i] is None),
        spec_combine(s) matches Some(m) ==> exists|i: int| 0 <= i < s.len() && s[i] == Some(m),
        spec_combine(s) matches Some(m) ==> forall|i: int|
            0 <= i < s.len() ==> (match #[trigger] s[i] {
                Some(v) => v@ <= m@,
                None => true,
            }),
    decreases s.len(),
{
    if s.len() > 0 {
        let t = s.drop_last();
        lemma_combine_characterization(t);
        assert(forall|i: int| 0 <= i < t.len() ==> t[i] == s[i]);
        match spec_combine(s) {
            Option::None => {},
            Option::Some(m) => {
                match spec_combine(t) {
                    Option::None => {
                        assert(s[s.len() - 1] == Some(m));
                    },
                    Option::Some(mt) => {
                        if s.last() == Some(m) {
                        } else {
                            assert(m == mt);
                            let i = choose|i: int| 0 <= i < t.len() && t[i] == Some(mt);
                            assert(s[i] == Some(m));
                        }
                    },
                }
            },
        }
    }
}

/// The combined decision does not depend on the order of the outcomes: two
/// sequences holding the same outcomes combine to the same decision.
pub proof fn lemma_combine_permutation(s1: Seq<Option<Seconds>>, s2: Seq<Option<Seconds>>)
    requires
        s1.to_multiset() == s2.to_multiset(),
    ensures
        spec_combine(s1) == spec_combine(s2),
{
    broadcast use vstd::seq_lib::group_to_multiset_ensures;

    lemma_combine_characterization(s1);
    lemma_combine_characterization(s2);
    match (spec_combine(s1), spec_combine(s2)) {
        (Option::None, Option::None) => {},
        (Option::Some(m1), Option::Some(m2)) => {
            lemma_combine_member(s1, s2, m1);
            lemma_combine_member(s2, s1, m2);
            let j1 = choose|j: int| 0 <= j < s2.len() && s2[j] == Some(m1);
            assert(s2[j1] == Some(m1));
            let j2 = choose|j: int| 0 <= j < s1.len() && s1[j] == Some(m2);
            assert(s1[j2] == Some(m2));
            assert(m1@ <= m2@ && m2@ <= m1@);
            lemma_seconds_view_injective(m1, m2);
        },
        (Option::None, Option::Some(m2)) => {
            lemma_combine_member(s2, s1, m2);
            let j = choose|j: int| 0 <= j < s1.len() && s1[j] == Some(m2);
            assert(s1[j] is None);
            assert(false);
        },
        (Option::Some(m1), Option::None) => {
            lemma_combine_member(s1, s2, m1);
            let j = choose|j: int| 0 <= j < s2.len() && s2[j] == Some(m1);
            assert(s2[j] is None);
            assert(false);
        },
    }
}

/// A value that occurs in one of two sequences holding the same outcomes
/// occurs in the other as well.
proof fn lemma_combine_member(s1: Seq<Option<Seconds>>, s2: Seq<Option<Seconds>>, m: Seconds)
    requires
        s1.to_multiset() == s2.to_multiset(),
        exists|i: int| 0 <= i < s1.len() && s1[i] == Some(m),
    ensures
        exists|j: int| 0 <= j < s2.len() && s2[j] == Some(m),
{
    broadcast use vstd::seq_lib::group_to_multiset_ensures;

    let i = choose|i: int| 0 <= i < s1.len() && s1[i] == Some(m);
    assert(s1.contains(Some(m)));
    assert(s1.to_multiset().count(Some(m)) > 0);
    assert(s2.to_multiset().count(Some(m)) > 0);
    assert(s2.contains(Some(m)));
}

} // verus!
