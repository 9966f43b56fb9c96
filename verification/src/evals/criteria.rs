//! Judging a run against the criteria of its spec.
use vstd::prelude::*;

use crate::evals::document::{doc_eq, doc_view, docs_equal, map_get, mapping_get, DocValue, DocView};
use crate::evals::spec::{EvalCriterionSpec, EvalExpectedActionSpec};
use crate::orchestrator::types::{EvalResult, FinishReason};
use crate::text::{
    blank, decimal, decimal_text, is_blank, join, join_strings, str_eq, string_push_str, trim,
};

verus! {

/// An action as an evaluation sees it: its name and its arguments.
#[derive(Debug, Clone)]
pub struct SerializedAction {
    pub name: String,
    pub arguments: Option<DocValue>,
}

/// An action outcome as an evaluation sees it: its name and its payload.
#[derive(Debug, Clone)]
pub struct SerializedOutcome {
    pub name: String,
    pub payload: Option<DocValue>,
}

/// A serialized action as its name and arguments in plain values.
pub open spec fn action_record(a: SerializedAction) -> (Seq<char>, Option<DocView>) {
    (
        a.name@,
        match a.arguments {
            Some(d) => Some(doc_view(d)),
            None => None,
        },
    )
}

/// A serialized outcome as its name and payload in plain values.
pub open spec fn outcome_record(o: SerializedOutcome) -> (Seq<char>, Option<DocView>) {
    (
        o.name@,
        match o.payload {
            Some(d) => Some(doc_view(d)),
            None => None,
        },
    )
}

/// The arguments of an action meet the expected ones: nothing is expected;
/// or the expected arguments are a mapping and the actual ones a mapping
/// holding each expected key with an equal value; or, expected arguments
/// that are no mapping, equal actual arguments.
pub open spec fn arguments_match(expected: Option<DocValue>, actual: Option<DocValue>) -> bool {
    match expected {
        None => true,
        Some(e) => match e {
            DocValue::Mapping(em) => match actual {
                Some(DocValue::Mapping(am)) => forall|i: int|
                    0 <= i < em@.len() ==> (map_get(am@, (#[trigger] em@[i]).0) matches Some(v)
                        && doc_eq(v, em@[i].1)),
                _ => false,
            },
            _ => actual matches Some(a) && doc_eq(a, e),
        },
    }
}

/// A requested action is the expected one: the same name and matching
/// arguments.
pub open spec fn action_matches(expected: EvalExpectedActionSpec, actual: SerializedAction) -> bool {
    expected.action@ == actual.name@ && arguments_match(expected.arguments, actual.arguments)
}

/// Whether actual arguments meet expected ones.
#[verifier::loop_isolation(false)]
pub fn arguments_match_exec(expected: Option<&DocValue>, actual: Option<&DocValue>) -> (r: bool)
    ensures
        r == arguments_match(
            match expected {
                Some(e) => Some(*e),
                None => None,
            },
            match actual {
                Some(a) => Some(*a),
                None => None,
            },
        ),
{
    let e = match expected {
        None => {
            return true;
        },
        Some(e) => e,
    };
    match e {
        DocValue::Mapping(em) => {
            let am = match actual {
                Some(DocValue::Mapping(am)) => am,
                _ => {
                    return false;
                },
            };
            for i in 0..em.len()
                invariant
                    forall|j: int|
                        0 <= j < i ==> (map_get(am@, (#[trigger] em@[j]).0) matches Some(v)
                            && doc_eq(v, em@[j].1)),
            {
                match mapping_get(am, &em[i].0) {
                    Some(v) => {
                        if !docs_equal(v, &em[i].1) {
                            assert(!(map_get(am@, em@[i as int].0) matches Some(v)
                                && doc_eq(v, em@[i as int].1)));
                            return false;
                        }
                    },
                    None => {
                        assert(map_get(am@, em@[i as int].0) is None);
                        return false;
                    },
                }
            }
            true
        },
        _ => match actual {
            Some(a) => docs_equal(a, e),
            None => false,
        },
    }
}

fn action_matches_exec(expected: &EvalExpectedActionSpec, actual: &SerializedAction) -> (r: bool)
    ensures
        r == action_matches(*expected, *actual),
{
    str_eq(expected.action.as_str(), actual.name.as_str()) && arguments_match_exec(
        expected.arguments.as_ref(),
        actual.arguments.as_ref(),
    )
}

/// The first index of `actual` whose action matches `e`.
pub open spec fn first_match(e: EvalExpectedActionSpec, actual: Seq<SerializedAction>) -> Option<int>
    decreases actual.len(),
{
    if actual.len() == 0 {
        None
    } else if action_matches(e, actual[0]) {
        Some(0)
    } else {
        match first_match(e, actual.drop_first()) {
            Some(j) => Some(j + 1),
            None => None,
        }
    }
}

/// The expected actions occur in order among the actual ones, others
/// allowed in between: each expected action is matched by the first later
/// actual action that matches it.
pub open spec fn matches_in_order(
    expected: Seq<EvalExpectedActionSpec>,
    actual: Seq<SerializedAction>,
) -> bool
    decreases expected.len(),
{
    if expected.len() == 0 {
        true
    } else {
        match first_match(expected[0], actual) {
            None => false,
            Some(j) => matches_in_order(expected.drop_first(), actual.skip(j + 1)),
        }
    }
}

/// The first index of `actual`, not yet used, whose action matches `e`.
pub open spec fn first_unused_match(
    e: EvalExpectedActionSpec,
    actual: Seq<SerializedAction>,
    used: Seq<bool>,
    from: int,
) -> Option<int>
    decreases actual.len() - from,
{
    if from >= actual.len() || from < 0 {
        None
    } else if !used[from] && action_matches(e, actual[from]) {
        Some(from)
    } else {
        first_unused_match(e, actual, used, from + 1)
    }
}

/// The actual actions used after matching the expected ones, in order, each
/// to the first unused actual action that matches it; `None` when one finds
/// none.
pub open spec fn assign_matches(
    expected: Seq<EvalExpectedActionSpec>,
    actual: Seq<SerializedAction>,
) -> Option<Seq<bool>>
    decreases expected.len(),
{
    if expected.len() == 0 {
        Some(Seq::new(actual.len(), |i: int| false))
    } else {
        match assign_matches(expected.drop_last(), actual) {
            None => None,
            Some(used) => match first_unused_match(expected.last(), actual, used, 0) {
                None => None,
                Some(j) => Some(used.update(j, true)),
            },
        }
    }
}

/// Every actual action was used.
pub open spec fn all_used(used: Seq<bool>) -> bool {
    forall|i: int| 0 <= i < used.len() ==> #[trigger] used[i]
}

/// The expected actions occur among the actual ones in any order: each
/// matched to a distinct actual action (first come, first served), and, when
/// no extra actions are allowed, as many of each.
pub open spec fn matches_as_set(
    expected: Seq<EvalExpectedActionSpec>,
    actual: Seq<SerializedAction>,
    allow_extra_actions: bool,
) -> bool {
    if !allow_extra_actions && expected.len() != actual.len() {
        false
    } else {
        match assign_matches(expected, actual) {
            None => false,
            Some(used) => allow_extra_actions || all_used(used),
        }
    }
}

/// The actual actions meet an action-sequence criterion.
pub open spec fn matches_sequence(
    expected: Seq<EvalExpectedActionSpec>,
    actual: Seq<SerializedAction>,
    ordered: bool,
    allow_extra_actions: bool,
) -> bool {
    if !ordered {
        matches_as_set(expected, actual, allow_extra_actions)
    } else if allow_extra_actions {
        matches_in_order(expected, actual)
    } else {
        expected.len() == actual.len() && forall|i: int|
            0 <= i < expected.len() ==> action_matches(#[trigger] expected[i], actual[i])
    }
}

fn find_match_from(
    e: &EvalExpectedActionSpec,
    actual: &Vec<SerializedAction>,
    from: usize,
) -> (r: Option<usize>)
    requires
        from <= actual@.len(),
    ensures
        match r {
            Some(j) => from <= j < actual@.len() && first_match(*e, actual@.skip(from as int))
                == Some(j - from),
            None => first_match(*e, actual@.skip(from as int)) is None,
        },
{
    let mut k = from;
    while k < actual.len()
        invariant
            from <= k <= actual@.len(),
            first_match(*e, actual@.skip(from as int)) == match first_match(
                *e,
                actual@.skip(k as int),
            ) {
                Some(j) => Some(j + (k - from)),
                None => None,
            },
        decreases actual@.len() - k,
    {
        assert(actual@.skip(k as int).drop_first() =~= actual@.skip(k + 1));
        assert(actual@.skip(k as int)[0] == actual@[k as int]);
        if action_matches_exec(e, &actual[k]) {
            return Some(k);
        }
        k = k + 1;
    }
    None
}

fn matches_in_order_exec(expected: &Vec<EvalExpectedActionSpec>, actual: &Vec<SerializedAction>) -> (r: bool)
    ensures
        r == matches_in_order(expected@, actual@),
{
    let mut cursor: usize = 0;
    let n = actual.len();
    assert(expected@.skip(0) =~= expected@);
    assert(actual@.skip(0) =~= actual@);
    for i in 0..expected.len()
        invariant
            cursor <= actual@.len(),
            n == actual@.len(),
            matches_in_order(expected@, actual@) == matches_in_order(
                expected@.skip(i as int),
                actual@.skip(cursor as int),
            ),
    {
        let ghost es = expected@.skip(i as int);
        assert(es[0] == expected@[i as int]);
        assert(es.drop_first() =~= expected@.skip(i + 1));
        match find_match_from(&expected[i], actual, cursor) {
            Some(j) => {
                assert(actual@.skip(cursor as int).skip(j - cursor + 1) =~= actual@.skip(j + 1));
                cursor = j + 1;
            },
            None => {
                return false;
            },
        }
    }
    assert(expected@.skip(expected@.len() as int).len() == 0);
    true
}

fn find_unused_match(
    e: &EvalExpectedActionSpec,
    actual: &Vec<SerializedAction>,
    used: &Vec<bool>,
) -> (r: Option<usize>)
    requires
        used@.len() == actual@.len(),
    ensures
        match r {
            Some(j) => first_unused_match(*e, actual@, used@, 0) == Some(j as int) && j
                < actual@.len(),
            None => first_unused_match(*e, actual@, used@, 0) is None,
        },
{
    let mut k: usize = 0;
    while k < actual.len()
        invariant
            k <= actual@.len(),
            used@.len() == actual@.len(),
            first_unused_match(*e, actual@, used@, 0) == first_unused_match(
                *e,
                actual@,
                used@,
                k as int,
            ),
        decreases actual@.len() - k,
    {
        if !used[k] && action_matches_exec(e, &actual[k]) {
            return Some(k);
        }
        k = k + 1;
    }
    None
}

fn matches_as_set_exec(
    expected: &Vec<EvalExpectedActionSpec>,
    actual: &Vec<SerializedAction>,
    allow_extra_actions: bool,
) -> (r: bool)
    ensures
        r == matches_as_set(expected@, actual@, allow_extra_actions),
{
    if !allow_extra_actions && expected.len() != actual.len() {
        return false;
    }
    let mut used: Vec<bool> = Vec::new();
    for i in 0..actual.len()
        invariant
            used@ == Seq::new(i as nat, |j: int| false),
    {
        used.push(false);
        assert(used@ =~= Seq::new((i + 1) as nat, |j: int| false));
    }
    assert(expected@.take(0) =~= Seq::<EvalExpectedActionSpec>::empty());
    assert(assign_matches(expected@.take(0), actual@) == Some(used@));
    for i in 0..expected.len()
        invariant
            used@.len() == actual@.len(),
            assign_matches(expected@.take(i as int), actual@) == Some(used@),
    {
        assert(expected@.take(i + 1).drop_last() =~= expected@.take(i as int));
        assert(expected@.take(i + 1).last() == expected@[i as int]);
        match find_unused_match(&expected[i], actual, &used) {
            Some(j) => {
                used.set(j, true);
            },
            None => {
                proof {
                    lemma_assign_prefix(expected@, actual@, i + 1);
                }
                return false;
            },
        }
    }
    assert(expected@.take(expected@.len() as int) =~= expected@);
    if allow_extra_actions {
        return true;
    }
    for i in 0..used.len()
        invariant
            !allow_extra_actions,
            expected@.len() == actual@.len(),
            assign_matches(expected@, actual@) == Some(used@),
            forall|j: int| 0 <= j < i ==> #[trigger] used@[j],
    {
        if !used[i] {
            assert(!used@[i as int]);
            proof {
                lemma_unused_fails(expected@, actual@, used@, i as int);
            }
            return false;
        }
    }
    true
}

proof fn lemma_unused_fails(
    expected: Seq<EvalExpectedActionSpec>,
    actual: Seq<SerializedAction>,
    used: Seq<bool>,
    i: int,
)
    requires
        expected.len() == actual.len(),
        assign_matches(expected, actual) == Some(used),
        0 <= i < used.len(),
        !used[i],
    ensures
        !matches_as_set(expected, actual, false),
{
    assert(!all_used(used));
}

proof fn lemma_assign_prefix(
    expected: Seq<EvalExpectedActionSpec>,
    actual: Seq<SerializedAction>,
    n: int,
)
    requires
        0 <= n <= expected.len(),
        assign_matches(expected.take(n), actual) is None,
    ensures
        assign_matches(expected, actual) is None,
    decreases expected.len() - n,
{
    if n < expected.len() {
        assert(expected.take(n + 1).drop_last() =~= expected.take(n));
        lemma_assign_prefix(expected, actual, n + 1);
    } else {
        assert(expected.take(n) =~= expected);
    }
}

/// Whether the actual actions meet an action-sequence criterion.
#[verifier::loop_isolation(false)]
pub fn matches_action_sequence(
    expected: &Vec<EvalExpectedActionSpec>,
    actual: &Vec<SerializedAction>,
    ordered: bool,
    allow_extra_actions: bool,
) -> (r: bool)
    ensures
        r == matches_sequence(expected@, actual@, ordered, allow_extra_actions),
{
    if !ordered {
        return matches_as_set_exec(expected, actual, allow_extra_actions);
    }
    if allow_extra_actions {
        return matches_in_order_exec(expected, actual);
    }
    if expected.len() != actual.len() {
        return false;
    }
    for i in 0..expected.len()
        invariant
            expected@.len() == actual@.len(),
            forall|j: int| 0 <= j < i ==> action_matches(#[trigger] expected@[j], actual@[j]),
    {
        if !action_matches_exec(&expected[i], &actual[i]) {
            assert(!action_matches(expected@[i as int], actual@[i as int]));
            return false;
        }
    }
    true
}

/// The names of the expected actions.
pub open spec fn expected_names(expected: Seq<EvalExpectedActionSpec>) -> Seq<Seq<char>> {
    expected.map_values(|e: EvalExpectedActionSpec| e.action@)
}

/// The names of the actual actions.
pub open spec fn actual_names(actual: Seq<SerializedAction>) -> Seq<Seq<char>> {
    actual.map_values(|a: SerializedAction| a.name@)
}

/// The failure text of an action-sequence criterion.
pub open spec fn sequence_failure_text(
    expected: Seq<EvalExpectedActionSpec>,
    actual: Seq<SerializedAction>,
) -> Seq<char> {
    "action_sequence mismatch: expected ["@ + join(expected_names(expected), ", "@)
        + "], actual ["@ + join(actual_names(actual), ", "@) + "]"@
}

/// How many actual actions are named `name`.
pub open spec fn count_named(actual: Seq<SerializedAction>, name: Seq<char>) -> nat
    decreases actual.len(),
{
    if actual.len() == 0 {
        0
    } else {
        count_named(actual.drop_last(), name) + if actual.last().name@ == name {
            1nat
        } else {
            0nat
        }
    }
}

/// The failure text of an action-count criterion.
pub open spec fn count_failure_text(action: Seq<char>, min_count: nat, actual_count: nat) -> Seq<
    char,
> {
    "action_count mismatch for '"@ + action + "': expected at least "@ + decimal(min_count)
        + ", actual "@ + decimal(actual_count)
}

/// The failures of the action criteria, in the order of the criteria.
pub open spec fn action_criteria_failures(
    criteria: Seq<EvalCriterionSpec>,
    actual: Seq<SerializedAction>,
) -> Seq<Seq<char>>
    decreases criteria.len(),
{
    if criteria.len() == 0 {
        Seq::empty()
    } else {
        let prev = action_criteria_failures(criteria.drop_last(), actual);
        match criteria.last() {
            EvalCriterionSpec::ActionSequence { actions, ordered, allow_extra_actions } => if matches_sequence(
                actions@,
                actual,
                ordered,
                allow_extra_actions,
            ) {
                prev
            } else {
                prev.push(sequence_failure_text(actions@, actual))
            },
            EvalCriterionSpec::ActionCount { action, min_count } => if count_named(
                actual,
                action@,
            ) < min_count {
                prev.push(count_failure_text(action@, min_count as nat, count_named(actual, action@)))
            } else {
                prev
            },
            _ => prev,
        }
    }
}

/// The summary of an evaluation with these failures.
pub open spec fn summary_text(failures: Seq<Seq<char>>) -> Seq<char> {
    if failures.len() == 0 {
        "all criteria passed"@
    } else {
        join(failures, "\n"@)
    }
}

fn sequence_failure(expected: &Vec<EvalExpectedActionSpec>, actual: &Vec<SerializedAction>) -> (r:
    String)
    ensures
        r@ == sequence_failure_text(expected@, actual@),
{
    let mut names: Vec<String> = Vec::new();
    for i in 0..expected.len()
        invariant
            names@.map_values(|p: String| p@) == expected_names(expected@.take(i as int)),
    {
        let ghost before = names@;
        names.push(expected[i].action.clone());
        assert(names@ =~= before.push(expected@[i as int].action));
        assert(expected@.take(i + 1) =~= expected@.take(i as int).push(expected@[i as int]));
        assert(names@.map_values(|p: String| p@) =~= before.map_values(|p: String| p@).push(
            expected@[i as int].action@,
        ));
        assert(names@.map_values(|p: String| p@) =~= expected_names(expected@.take(i + 1)));
    }
    assert(expected@.take(expected@.len() as int) =~= expected@);
    let mut got: Vec<String> = Vec::new();
    for i in 0..actual.len()
        invariant
            got@.map_values(|p: String| p@) == actual_names(actual@.take(i as int)),
    {
        let ghost before = got@;
        got.push(actual[i].name.clone());
        assert(got@ =~= before.push(actual@[i as int].name));
        assert(actual@.take(i + 1) =~= actual@.take(i as int).push(actual@[i as int]));
        assert(got@.map_values(|p: String| p@) =~= before.map_values(|p: String| p@).push(
            actual@[i as int].name@,
        ));
        assert(got@.map_values(|p: String| p@) =~= actual_names(actual@.take(i + 1)));
    }
    assert(actual@.take(actual@.len() as int) =~= actual@);
    let mut out = String::new();
    string_push_str(&mut out, "action_sequence mismatch: expected [");
    let a = join_strings(&names, ", ");
    string_push_str(&mut out, a.as_str());
    string_push_str(&mut out, "], actual [");
    let b = join_strings(&got, ", ");
    string_push_str(&mut out, b.as_str());
    string_push_str(&mut out, "]");
    assert(out@ =~= sequence_failure_text(expected@, actual@));
    out
}

fn count_actions_named(actual: &Vec<SerializedAction>, name: &str) -> (r: usize)
    ensures
        r == count_named(actual@, name@),
{
    let mut n: usize = 0;
    for i in 0..actual.len()
        invariant
            n == count_named(actual@.take(i as int), name@),
            n <= i,
    {
        assert(actual@.take(i + 1).drop_last() =~= actual@.take(i as int));
        if str_eq(actual[i].name.as_str(), name) {
            n = n + 1;
        }
    }
    assert(actual@.take(actual@.len() as int) =~= actual@);
    n
}

/// Judges the actions an agent requested against the action criteria
/// (sequences and counts): it passes when none fails, and its summary lists
/// the failures, one per line.
pub fn evaluate_requested_actions(criteria: &Vec<EvalCriterionSpec>, requested: &Vec<SerializedAction>) -> (r:
    EvalResult)
    ensures
        r.passed == (action_criteria_failures(criteria@, requested@).len() == 0),
        r.summary matches Some(s) && s@ == summary_text(
            action_criteria_failures(criteria@, requested@),
        ),
{
    let mut failures: Vec<String> = Vec::new();
    for i in 0..criteria.len()
        invariant
            failures@.map_values(|p: String| p@) == action_criteria_failures(
                criteria@.take(i as int),
                requested@,
            ),
    {
        assert(criteria@.take(i + 1).drop_last() =~= criteria@.take(i as int));
        assert(criteria@.take(i + 1).last() == criteria@[i as int]);
        let ghost before = failures@;
        match &criteria[i] {
            EvalCriterionSpec::ActionSequence { actions, ordered, allow_extra_actions } => {
                if !matches_action_sequence(actions, requested, *ordered, *allow_extra_actions) {
                    failures.push(sequence_failure(actions, requested));
                }
            },
            EvalCriterionSpec::ActionCount { action, min_count } => {
                let actual_count = count_actions_named(requested, action.as_str());
                if actual_count < *min_count {
                    let mut m = String::new();
                    string_push_str(&mut m, "action_count mismatch for '");
                    string_push_str(&mut m, action.as_str());
                    string_push_str(&mut m, "': expected at least ");
                    let a = decimal_text(*min_count as u64);
                    string_push_str(&mut m, a.as_str());
                    string_push_str(&mut m, ", actual ");
                    let b = decimal_text(actual_count as u64);
                    string_push_str(&mut m, b.as_str());
                    assert(m@ =~= count_failure_text(
                        action@,
                        *min_count as nat,
                        actual_count as nat,
                    ));
                    failures.push(m);
                }
            },
            _ => {},
        }
        assert(failures@.map_values(|p: String| p@) =~= action_criteria_failures(
            criteria@.take(i + 1),
            requested@,
        ));
    }
    assert(criteria@.take(criteria@.len() as int) =~= criteria@);
    let passed = failures.len() == 0;
    let summary = if passed {
        "all criteria passed".to_owned()
    } else {
        join_strings(&failures, "\n")
    };
    EvalResult { passed, summary: Some(summary) }
}

/// The name a finish reason goes by in specs.
pub open spec fn finish_reason_label(reason: FinishReason) -> Seq<char> {
    match reason {
        FinishReason::ParticipantsFinished => "participants_finished"@,
        FinishReason::ParticipantFinished { .. } => "participant_finished"@,
        FinishReason::ParticipantCompletedLoop { .. } => "participant_completed_loop"@,
        FinishReason::StepLimitExceeded => "step_limit_exceeded"@,
        FinishReason::AgentLoopStepLimitExceeded { .. } => "agent_loop_step_limit_exceeded"@,
        FinishReason::ActionLimitExceeded => "action_limit_exceeded"@,
        FinishReason::FailedActionLimitExceeded { .. } => "failed_action_limit_exceeded"@,
        FinishReason::BlockedActionWaitExceeded => "blocked_action_wait_exceeded"@,
        FinishReason::MessageLimitExceeded => "message_limit_exceeded"@,
        FinishReason::TimeLimitExceeded => "time_limit_exceeded"@,
        FinishReason::ParticipantError { .. } => "participant_error"@,
        FinishReason::EnvironmentError(_) => "environment_error"@,
        FinishReason::EnvironmentTerminated(_) => "environment_terminated"@,
        FinishReason::Deadlocked => "deadlocked"@,
    }
}

/// The name a finish reason goes by in specs.
pub fn finish_reason_name(reason: &FinishReason) -> (r: &'static str)
    ensures
        r@ == finish_reason_label(*reason),
{
    match reason {
        FinishReason::ParticipantsFinished => "participants_finished",
        FinishReason::ParticipantFinished { .. } => "participant_finished",
        FinishReason::ParticipantCompletedLoop { .. } => "participant_completed_loop",
        FinishReason::StepLimitExceeded => "step_limit_exceeded",
        FinishReason::AgentLoopStepLimitExceeded { .. } => "agent_loop_step_limit_exceeded",
        FinishReason::ActionLimitExceeded => "action_limit_exceeded",
        FinishReason::FailedActionLimitExceeded { .. } => "failed_action_limit_exceeded",
        FinishReason::BlockedActionWaitExceeded => "blocked_action_wait_exceeded",
        FinishReason::MessageLimitExceeded => "message_limit_exceeded",
        FinishReason::TimeLimitExceeded => "time_limit_exceeded",
        FinishReason::ParticipantError { .. } => "participant_error",
        FinishReason::EnvironmentError(_) => "environment_error",
        FinishReason::EnvironmentTerminated(_) => "environment_terminated",
        FinishReason::Deadlocked => "deadlocked",
    }
}

/// The failures of the run criteria (a final message; a finish reason to
/// avoid), in the order of the criteria.
pub open spec fn run_criteria_failures(
    criteria: Seq<EvalCriterionSpec>,
    reason: FinishReason,
    final_message: Option<Seq<char>>,
) -> Seq<Seq<char>>
    decreases criteria.len(),
{
    if criteria.len() == 0 {
        Seq::empty()
    } else {
        let prev = run_criteria_failures(criteria.drop_last(), reason, final_message);
        match criteria.last() {
            EvalCriterionSpec::FinalMessageRequired => if final_message matches Some(m) && !blank(m) {
                prev
            } else {
                prev.push("final_message_required failed: missing final agent message"@)
            },
            EvalCriterionSpec::ForbidFinishReason { finish_reason } => if finish_reason_label(reason)
                == finish_reason@ {
                prev.push(
                    "forbid_finish_reason failed: actual finish reason was '"@
                        + finish_reason_label(reason) + "'"@,
                )
            } else {
                prev
            },
            _ => prev,
        }
    }
}

/// Judges how a run ended against the run criteria, listing the failures.
pub fn evaluate_run_criteria(
    criteria: &Vec<EvalCriterionSpec>,
    finish_reason: &FinishReason,
    final_agent_message: Option<&str>,
) -> (r: Vec<String>)
    ensures
        r@.map_values(|p: String| p@) == run_criteria_failures(
            criteria@,
            *finish_reason,
            match final_agent_message {
                Some(m) => Some(m@),
                None => None,
            },
        ),
{
    let ghost fm = match final_agent_message {
        Some(m) => Some(m@),
        None => None::<Seq<char>>,
    };
    let mut failures: Vec<String> = Vec::new();
    for i in 0..criteria.len()
        invariant
            fm == match final_agent_message {
                Some(m) => Some(m@),
                None => None::<Seq<char>>,
            },
            failures@.map_values(|p: String| p@) == run_criteria_failures(
                criteria@.take(i as int),
                *finish_reason,
                fm,
            ),
    {
        assert(criteria@.take(i + 1).drop_last() =~= criteria@.take(i as int));
        assert(criteria@.take(i + 1).last() == criteria@[i as int]);
        match &criteria[i] {
            EvalCriterionSpec::FinalMessageRequired => {
                let has_final = match final_agent_message {
                    Some(m) => !is_blank(m),
                    None => false,
                };
                if !has_final {
                    failures.push(
                        "final_message_required failed: missing final agent message".to_owned(),
                    );
                }
            },
            EvalCriterionSpec::ForbidFinishReason { finish_reason: forbidden } => {
                let actual = finish_reason_name(finish_reason);
                if str_eq(actual, forbidden.as_str()) {
                    let mut m = String::new();
                    string_push_str(&mut m, "forbid_finish_reason failed: actual finish reason was '");
                    string_push_str(&mut m, actual);
                    string_push_str(&mut m, "'");
                    assert(m@ =~= "forbid_finish_reason failed: actual finish reason was '"@
                        + finish_reason_label(*finish_reason) + "'"@);
                    failures.push(m);
                }
            },
            _ => {},
        }
        assert(failures@.map_values(|p: String| p@) =~= run_criteria_failures(
            criteria@.take(i + 1),
            *finish_reason,
            fm,
        ));
    }
    assert(criteria@.take(criteria@.len() as int) =~= criteria@);
    failures
}

} // verus!