//! What an unordered action-sequence criterion asks of the actual actions.
use vstd::prelude::*;

use crate::evals::criteria::{
    action_matches, all_used, assign_matches, count_named, first_unused_match, matches_sequence,
    SerializedAction,
};
use crate::evals::spec::EvalExpectedActionSpec;

verus! {

/// How many expected actions are named `name`.
pub open spec fn expected_count(expected: Seq<EvalExpectedActionSpec>, name: Seq<char>) -> nat
    decreases expected.len(),
{
    if expected.len() == 0 {
        0
    } else {
        expected_count(expected.drop_last(), name) + if expected.last().action@ == name {
            1nat
        } else {
            0nat
        }
    }
}

/// No expected action names arguments: each is met by any action of its name.
pub open spec fn argument_free(expected: Seq<EvalExpectedActionSpec>) -> bool {
    forall|i: int| 0 <= i < expected.len() ==> (#[trigger] expected[i]).arguments is None
}

/// How many of the first `k` actual actions are used and named `name`.
spec fn used_count(used: Seq<bool>, actual: Seq<SerializedAction>, name: Seq<char>, k: int) -> nat
    decreases k,
{
    if k <= 0 {
        0
    } else {
        used_count(used, actual, name, k - 1) + if used[k - 1] && actual[k - 1].name@ == name {
            1nat
        } else {
            0nat
        }
    }
}

/// How many of the first `k` actual actions are used.
spec fn total_used(used: Seq<bool>, k: int) -> nat
    decreases k,
{
    if k <= 0 {
        0
    } else {
        total_used(used, k - 1) + if used[k - 1] {
            1nat
        } else {
            0nat
        }
    }
}

proof fn lemma_counts_step(actual: Seq<SerializedAction>, name: Seq<char>, k: int)
    requires
        0 <= k < actual.len(),
    ensures
        count_named(actual.take(k + 1), name) == count_named(actual.take(k), name) + if actual[k].name@
            == name {
            1nat
        } else {
            0nat
        },
{
    assert(actual.take(k + 1).drop_last() =~= actual.take(k));
    assert(actual.take(k + 1).last() == actual[k]);
}

proof fn lemma_used_le_available(used: Seq<bool>, actual: Seq<SerializedAction>, name: Seq<char>, k: int)
    requires
        0 <= k <= actual.len(),
    ensures
        used_count(used, actual, name, k) <= count_named(actual.take(k), name),
        used_count(used, actual, name, k) < count_named(actual.take(k), name) ==> exists|i: int|
            0 <= i < k && !used[i] && (#[trigger] actual[i]).name@ == name,
    decreases k,
{
    if k > 0 {
        lemma_used_le_available(used, actual, name, k - 1);
        lemma_counts_step(actual, name, k - 1);
    } else {
        assert(actual.take(0) =~= Seq::<SerializedAction>::empty());
    }
}

proof fn lemma_total_used_all(used: Seq<bool>, k: int)
    requires
        0 <= k <= used.len(),
    ensures
        total_used(used, k) <= k,
        total_used(used, k) == k ==> forall|i: int| 0 <= i < k ==> #[trigger] used[i],
    decreases k,
{
    if k > 0 {
        lemma_total_used_all(used, k - 1);
    }
}

proof fn lemma_mark_used(used: Seq<bool>, actual: Seq<SerializedAction>, j: int, name: Seq<char>, k: int)
    requires
        0 <= j < used.len(),
        !used[j],
        0 <= k <= used.len(),
    ensures
        used_count(used.update(j, true), actual, name, k) == used_count(used, actual, name, k) + if j
            < k && actual[j].name@ == name {
            1nat
        } else {
            0nat
        },
        total_used(used.update(j, true), k) == total_used(used, k) + if j < k {
            1nat
        } else {
            0nat
        },
    decreases k,
{
    if k > 0 {
        lemma_mark_used(used, actual, j, name, k - 1);
    }
}

proof fn lemma_nothing_used(actual: Seq<SerializedAction>, name: Seq<char>, k: int)
    requires
        0 <= k <= actual.len(),
    ensures
        used_count(Seq::new(actual.len(), |i: int| false), actual, name, k) == 0,
        total_used(Seq::new(actual.len(), |i: int| false), k) == 0,
    decreases k,
{
    if k > 0 {
        lemma_nothing_used(actual, name, k - 1);
    }
}

/// The first unused action matching an argument-free expected action is the
/// first unused one of its name.
proof fn lemma_first_unused(
    e: EvalExpectedActionSpec,
    actual: Seq<SerializedAction>,
    used: Seq<bool>,
    from: int,
)
    requires
        e.arguments is None,
        used.len() == actual.len(),
        0 <= from,
    ensures
        first_unused_match(e, actual, used, from) matches Some(j) ==> from <= j < actual.len()
            && !used[j] && actual[j].name@ == e.action@,
        first_unused_match(e, actual, used, from) is None ==> forall|i: int|
            from <= i < actual.len() ==> used[i] || (#[trigger] actual[i]).name@ != e.action@,
    decreases actual.len() - from,
{
    if from < actual.len() {
        lemma_first_unused(e, actual, used, from + 1);
    }
}

/// Matching the first `k` argument-free expected actions, each to the first
/// unused actual action of its name, succeeds exactly when no name is
/// expected among them more often than it occurs; and then it has used, of
/// each name, as many actions as are expected, `k` in all.
proof fn lemma_assign_counts(expected: Seq<EvalExpectedActionSpec>, actual: Seq<SerializedAction>, k: int)
    requires
        argument_free(expected),
        0 <= k <= expected.len(),
    ensures
        assign_matches(expected.take(k), actual) is Some <==> forall|n: Seq<char>|
            #[trigger] expected_count(expected.take(k), n) <= count_named(actual, n),
        assign_matches(expected.take(k), actual) matches Some(used) ==> {
            &&& used.len() == actual.len()
            &&& total_used(used, actual.len() as int) == k
            &&& forall|n: Seq<char>|
                #[trigger] used_count(used, actual, n, actual.len() as int) == expected_count(
                    expected.take(k),
                    n,
                )
        },
    decreases k,
{
    assert(actual.take(actual.len() as int) =~= actual);
    if k == 0 {
        assert(expected.take(0) =~= Seq::<EvalExpectedActionSpec>::empty());
        let used = Seq::new(actual.len(), |i: int| false);
        assert forall|n: Seq<char>|
            #[trigger] used_count(used, actual, n, actual.len() as int) == expected_count(
                expected.take(0),
                n,
            ) by {
            lemma_nothing_used(actual, n, actual.len() as int);
        }
        lemma_nothing_used(actual, Seq::empty(), actual.len() as int);
    } else {
        lemma_assign_counts(expected, actual, k - 1);
        let ek = expected.take(k);
        let ep = expected.take(k - 1);
        assert(ek.drop_last() =~= ep);
        let e = expected[k - 1];
        assert(ek.last() == e);
        assert(e.arguments is None);
        assert forall|n: Seq<char>| #[trigger] expected_count(ek, n) == expected_count(ep, n) + if e.action@
            == n {
            1nat
        } else {
            0nat
        } by {}
        match assign_matches(ep, actual) {
            None => {
                let n = choose|n: Seq<char>| !(#[trigger] expected_count(ep, n) <= count_named(actual, n));
                assert(!(expected_count(ek, n) <= count_named(actual, n)));
            },
            Some(used) => {
                lemma_first_unused(e, actual, used, 0);
                match first_unused_match(e, actual, used, 0) {
                    None => {
                        let n = e.action@;
                        lemma_used_le_available(used, actual, n, actual.len() as int);
                        if used_count(used, actual, n, actual.len() as int) < count_named(actual, n) {
                            let i = choose|i: int|
                                0 <= i < actual.len() && !used[i] && (#[trigger] actual[i]).name@ == n;
                            assert(used[i] || actual[i].name@ != e.action@);
                        }
                        assert(!(expected_count(ek, n) <= count_named(actual, n)));
                    },
                    Some(j) => {
                        let used2 = used.update(j, true);
                        lemma_mark_used(used, actual, j, Seq::empty(), actual.len() as int);
                        assert forall|n: Seq<char>|
                            #[trigger] used_count(used2, actual, n, actual.len() as int) == expected_count(
                                ek,
                                n,
                            ) by {
                            lemma_mark_used(used, actual, j, n, actual.len() as int);
                        }
                        assert forall|n: Seq<char>|
                            #[trigger] expected_count(ek, n) <= count_named(actual, n) by {
                            lemma_mark_used(used, actual, j, n, actual.len() as int);
                            lemma_used_le_available(used2, actual, n, actual.len() as int);
                        }
                    },
                }
            },
        }
    }
}

/// An unordered action-sequence criterion whose expected actions name no
/// arguments depends only on how often each name occurs: it holds exactly
/// when no name is expected more often than it was requested and, unless
/// extra actions are allowed, as many actions were requested as expected.
/// Hence reordering the actual actions never changes it, and the same
/// actions in another order meet it.
pub proof fn lemma_unordered_sequence_counts(
    expected: Seq<EvalExpectedActionSpec>,
    actual: Seq<SerializedAction>,
    allow_extra_actions: bool,
)
    requires
        argument_free(expected),
    ensures
        matches_sequence(expected, actual, false, allow_extra_actions) <==> ((allow_extra_actions
            || expected.len() == actual.len()) && forall|n: Seq<char>|
            #[trigger] expected_count(expected, n) <= count_named(actual, n)),
{
    lemma_assign_counts(expected, actual, expected.len() as int);
    assert(expected.take(expected.len() as int) =~= expected);
    if !allow_extra_actions && expected.len() == actual.len() {
        if let Some(used) = assign_matches(expected, actual) {
            lemma_total_used_all(used, actual.len() as int);
            assert(all_used(used));
        }
    }
}

/// Two lists of actual actions with the same number of actions of each name
/// (one a reordering of the other) meet an unordered criterion whose
/// expected actions name no arguments alike.
pub proof fn lemma_unordered_sequence_ignores_order(
    expected: Seq<EvalExpectedActionSpec>,
    a: Seq<SerializedAction>,
    b: Seq<SerializedAction>,
    allow_extra_actions: bool,
)
    requires
        argument_free(expected),
        a.len() == b.len(),
        forall|n: Seq<char>| #[trigger] count_named(a, n) == count_named(b, n),
    ensures
        matches_sequence(expected, a, false, allow_extra_actions) == matches_sequence(
            expected,
            b,
            false,
            allow_extra_actions,
        ),
{
    lemma_unordered_sequence_counts(expected, a, allow_extra_actions);
    lemma_unordered_sequence_counts(expected, b, allow_extra_actions);
    if matches_sequence(expected, a, false, allow_extra_actions) {
        assert forall|n: Seq<char>| #[trigger] expected_count(expected, n) <= count_named(b, n) by {
            assert(expected_count(expected, n) <= count_named(a, n));
        }
    }
    if matches_sequence(expected, b, false, allow_extra_actions) {
        assert forall|n: Seq<char>| #[trigger] expected_count(expected, n) <= count_named(a, n) by {
            assert(expected_count(expected, n) <= count_named(b, n));
        }
    }
}

} // verus!
