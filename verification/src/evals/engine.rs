//! Running an evaluation: the run it asks the orchestrator for, and how the
//! verdicts of the evaluator, the run criteria and the judges combine.
use vstd::prelude::*;

use crate::evals::criteria::{evaluate_run_criteria, run_criteria_failures, summary_text};
use crate::evals::trajectory::{
    payload_matches, serialize_trajectory_events, trace_matches, traced_events,
    trajectory_trace_events, EvalActionAdapter, EvalTraceEvent, EvalTrajectoryEvent,
};
use crate::canonical::registry::opt_view;
use crate::evals::participants::termination_condition_for_user;
use crate::evals::spec::{EvalCriterionSpec, EvalSpec, EvalUserSpec};
use crate::orchestrator::types::{
    EvalResult, FinishReason, InitialInboxMessage, ParticipantId, RunLimits, RunRequest, TaskSpec,
    TerminationCondition, Trajectory, TrajectoryEvent,
};
use crate::text::{blank, is_blank, join, replace_all, replace_str, string_push_str, trim};

verus! {

/// Whether an evaluation only runs, or also optimizes.
#[derive(Debug, Clone, Copy, PartialEq, Eq, Structural)]
pub enum EvalMode {
    Run,
    Optimize,
}

impl EvalMode {
    /// The mode's name.
    pub fn as_str(self) -> (r: &'static str)
        ensures
            r@ == match self {
                EvalMode::Run => "run"@,
                EvalMode::Optimize => "optimize"@,
            },
    {
        match self {
            EvalMode::Run => "run",
            EvalMode::Optimize => "optimize",
        }
    }
}

/// Runs evaluations.
#[derive(Debug, Clone, Copy)]
pub struct EvalEngine;

/// Prepares the skills an evaluation uses, with the componentizer command.
#[derive(Debug, Clone)]
pub struct EvalRunner {
    pub uvx: String,
}

impl EvalRunner {
    /// A runner that componentizes with `uvx`.
    pub fn new() -> (r: Self)
        ensures
            r.uvx@ == "uvx"@,
    {
        EvalRunner { uvx: "uvx".to_owned() }
    }
}

/// Where an evaluation project lives.
#[derive(Debug, Clone, PartialEq, Eq)]
pub struct EvalProjectLayout {
    pub root: String,
    pub evals_dir: String,
    pub catalog_dir: String,
    pub cache_dir: String,
}

/// A catalog skill made ready for a run.
#[derive(Debug, Clone, PartialEq, Eq)]
pub struct PreparedCatalogSkill {
    pub skill_name: String,
    pub skill_version: String,
    pub profile_name: String,
    pub compiled_dir: String,
    pub catalog_dir: String,
    pub compiled_now: bool,
    pub uploaded_now: bool,
}

/// What preparing an evaluation produced.
#[derive(Debug, Clone, PartialEq, Eq)]
pub struct EvalPreparation {
    pub project: EvalProjectLayout,
    pub skills: Vec<PreparedCatalogSkill>,
}

/// Where one run of an evaluation works.
#[derive(Debug, Clone, PartialEq, Eq)]
pub struct EvalRunWorkspace {
    pub root: String,
    pub run_dir: String,
}

/// A request to a judge model to assess a run against one rubric.
#[derive(Debug, Clone)]
pub struct EvalJudgeRequest {
    pub criterion_index: usize,
    pub model: Option<String>,
    pub rubric: String,
    pub system_prompt: String,
    pub user_message: String,
}

/// A judge's assessment of one criterion (its score, a float, is kept by the
/// caller).
#[derive(Debug, Clone)]
pub struct EvalJudgeResult {
    pub criterion_index: usize,
    pub model: Option<String>,
    pub passed: bool,
    pub summary: String,
    pub rubric: String,
    pub response: String,
}

/// A request to a model for suggestions on what to change.
#[derive(Debug, Clone)]
pub struct EvalOptimizationSuggestionRequest {
    pub system_prompt: String,
    pub user_message: String,
}

/// The suggestions a model made.
#[derive(Debug, Clone)]
pub struct EvalOptimizationSuggestionsResponse {
    pub summary: String,
    pub suggestions: Vec<EvalOptimizationTargetSuggestion>,
}

/// One suggestion.
#[derive(Debug, Clone)]
pub struct EvalOptimizationTargetSuggestion {
    pub action: String,
    pub target: Option<EvalOptimizationTargetSuggestionValue>,
    pub reason: String,
}

/// What a suggestion would change.
#[derive(Debug, Clone)]
pub struct EvalOptimizationTargetSuggestionValue {
    pub kind: String,
    pub prompt: Option<String>,
    pub skill: Option<String>,
    pub field: Option<String>,
}

/// The run an evaluation asks for: the spec's id and purpose as the task,
/// bounded steps, failures and time, the end the user calls for, and a
/// start signal to the user.
pub fn eval_run_request(spec: &EvalSpec) -> (r: RunRequest)
    ensures
        r.task.id == spec.id,
        r.task.instructions == spec.scenario.purpose,
        r.limits.max_steps == 256,
        r.limits.max_steps_per_agent_loop == 64,
        r.limits.max_actions == 64,
        r.limits.max_messages == 64,
        r.limits.max_failed_actions == Some(5usize),
        r.limits.max_consecutive_failed_actions == Some(3usize),
        r.limits.max_blocked_action_wait_ms == Some(30_000u64),
        r.limits.max_duration_ms == Some(90_000u64),
        spec.scenario.user is Simulated ==> r.termination_condition
            == TerminationCondition::AnyParticipantFinished,
        spec.scenario.user is Scripted ==> (r.termination_condition matches TerminationCondition::AnyOfParticipantsCompletedLoop(
            ps,
        ) && ps@ == seq![ParticipantId::Agent]),
        r.initial_messages@.len() == 1,
        r.initial_messages@[0].to == ParticipantId::User,
        r.initial_messages@[0].from matches ParticipantId::Custom(n) && n@ == "system"@,
        r.initial_messages@[0].content@ == "start"@,
{
    let mut limits = RunLimits::default_limits();
    limits.max_steps = 256;
    limits.max_failed_actions = Some(5);
    limits.max_consecutive_failed_actions = Some(3);
    limits.max_blocked_action_wait_ms = Some(30_000);
    limits.max_duration_ms = Some(90_000);
    let mut initial_messages: Vec<InitialInboxMessage> = Vec::new();
    initial_messages.push(
        InitialInboxMessage {
            to: ParticipantId::User,
            from: ParticipantId::Custom("system".to_owned()),
            content: "start".to_owned(),
        },
    );
    RunRequest {
        task: TaskSpec { id: spec.id.clone(), instructions: spec.scenario.purpose.clone() },
        limits,
        termination_condition: termination_condition_for_user(&spec.scenario.user),
        initial_messages,
    }
}

/// The content of the last message the agent sent.
pub open spec fn last_agent_message<O, A, U>(events: Seq<TrajectoryEvent<O, A, U>>) -> Option<String>
    decreases events.len(),
{
    if events.len() == 0 {
        None
    } else {
        match events.last() {
            TrajectoryEvent::ParticipantMessage { participant: ParticipantId::Agent, content } => Some(
                content,
            ),
            _ => last_agent_message(events.drop_last()),
        }
    }
}

/// The content of the last message the agent sent.
pub fn final_agent_message<O, A, U>(events: &Vec<TrajectoryEvent<O, A, U>>) -> (r: Option<String>)
    ensures
        r == last_agent_message(events@),
{
    let mut i = events.len();
    assert(events@.take(i as int) =~= events@);
    while i > 0
        invariant
            i <= events@.len(),
            last_agent_message(events@) == last_agent_message(events@.take(i as int)),
        decreases i,
    {
        assert(events@.take(i as int).drop_last() =~= events@.take(i - 1));
        assert(events@.take(i as int).last() == events@[i - 1]);
        match &events[i - 1] {
            TrajectoryEvent::ParticipantMessage { participant: ParticipantId::Agent, content } => {
                return Some(content.clone());
            },
            _ => {},
        }
        i = i - 1;
    }
    None
}

/// `q` is the judge request for a model-judged criterion of `criteria`.
pub open spec fn judge_request_for(
    q: EvalJudgeRequest,
    criteria: Seq<EvalCriterionSpec>,
    system_prompt: Seq<char>,
    user_template: Seq<char>,
    payload_json: Seq<char>,
) -> bool {
    &&& q.criterion_index < criteria.len()
    &&& criteria[q.criterion_index as int] matches EvalCriterionSpec::LlmJudge { rubric, model }
    &&& q.rubric == rubric
    &&& q.model == model
    &&& q.system_prompt@ == system_prompt
    &&& q.user_message@ == replace_all(
        replace_all(user_template, "{{rubric}}"@, rubric@),
        "{{payload_json}}"@,
        payload_json,
    )
}

/// The judge requests of a spec: one per model-judged criterion, with its
/// index, model and rubric, the judge's system prompt, and the user message
/// made of the template with the rubric and then the run's payload filled in.
pub fn build_llm_judge_requests(
    criteria: &Vec<EvalCriterionSpec>,
    system_prompt: &str,
    user_template: &str,
    payload_json: &str,
) -> (r: Vec<EvalJudgeRequest>)
    ensures
        forall|i: int|
            0 <= i < r@.len() ==> judge_request_for(
                #[trigger] r@[i],
                criteria@,
                system_prompt@,
                user_template@,
                payload_json@,
            ),
        forall|i: int, j: int| 0 <= i < j < r@.len() ==> r@[i].criterion_index < r@[j].criterion_index,
        forall|k: int|
            0 <= k < criteria@.len() && (#[trigger] criteria@[k]) is LlmJudge ==> exists|i: int|
                0 <= i < r@.len() && r@[i].criterion_index == k,
{
    proof {
        reveal_strlit("{{rubric}}");
        reveal_strlit("{{payload_json}}");
    }
    let mut requests: Vec<EvalJudgeRequest> = Vec::new();
    for k in 0..criteria.len()
        invariant
            forall|i: int|
                0 <= i < requests@.len() ==> (#[trigger] requests@[i]).criterion_index < k
                    && judge_request_for(
                    requests@[i],
                    criteria@,
                    system_prompt@,
                    user_template@,
                    payload_json@,
                ),
            forall|i: int, j: int|
                0 <= i < j < requests@.len() ==> requests@[i].criterion_index
                    < requests@[j].criterion_index,
            forall|kk: int|
                0 <= kk < k && (#[trigger] criteria@[kk]) is LlmJudge ==> exists|i: int|
                    0 <= i < requests@.len() && requests@[i].criterion_index == kk,
    {
        match &criteria[k] {
            EvalCriterionSpec::LlmJudge { rubric, model } => {
                proof {
                    reveal_strlit("{{rubric}}");
                    reveal_strlit("{{payload_json}}");
                }
                let filled = replace_str(user_template, "{{rubric}}", rubric.as_str());
                let user_message = replace_str(filled.as_str(), "{{payload_json}}", payload_json);
                let ghost before = requests@;
                requests.push(
                    EvalJudgeRequest {
                        criterion_index: k,
                        model: crate::canonical::ir::copy_opt_string(model),
                        rubric: rubric.clone(),
                        system_prompt: system_prompt.to_owned(),
                        user_message,
                    },
                );
                assert forall|kk: int|
                    0 <= kk < k + 1 && (#[trigger] criteria@[kk]) is LlmJudge implies exists|i: int|
                    0 <= i < requests@.len() && requests@[i].criterion_index == kk by {
                    if kk == k {
                        assert(requests@[before.len() as int].criterion_index == kk);
                    } else {
                        let i = choose|i: int|
                            0 <= i < before.len() && before[i].criterion_index == kk;
                        assert(requests@[i] == before[i]);
                    }
                }
            },
            _ => {},
        }
    }
    requests
}

/// The stand-in result of a judge request when no judge can run.
pub fn unconfigured_judge_results(requests: Vec<EvalJudgeRequest>) -> (r: Vec<EvalJudgeResult>)
    ensures
        r@.len() == requests@.len(),
        forall|i: int|
            0 <= i < r@.len() ==> {
                let j = #[trigger] r@[i];
                &&& j.criterion_index == requests@[i].criterion_index
                &&& j.model == requests@[i].model
                &&& j.rubric == requests@[i].rubric
                &&& !j.passed
                &&& j.summary@ == "llm_judge could not run because no judge executor was configured"@
                &&& j.response@.len() == 0
            },
{
    let ghost all = requests@;
    let mut rest = requests;
    let mut out: Vec<EvalJudgeResult> = Vec::new();
    let n = rest.len();
    let mut i: usize = 0;
    assert(all.skip(0) =~= all);
    while rest.len() > 0
        invariant
            rest@ == all.skip(i as int),
            n == all.len(),
            i <= n,
            out@.len() == i,
            forall|k: int|
                0 <= k < i ==> {
                    let j = #[trigger] out@[k];
                    &&& j.criterion_index == all[k].criterion_index
                    &&& j.model == all[k].model
                    &&& j.rubric == all[k].rubric
                    &&& !j.passed
                    &&& j.summary@
                        == "llm_judge could not run because no judge executor was configured"@
                    &&& j.response@.len() == 0
                },
        decreases rest@.len(),
    {
        let request = rest.remove(0);
        assert(request == all[i as int]);
        assert(rest@ =~= all.skip(i + 1));
        out.push(
            EvalJudgeResult {
                criterion_index: request.criterion_index,
                model: request.model,
                passed: false,
                summary: "llm_judge could not run because no judge executor was configured".to_owned(),
                rubric: request.rubric,
                response: String::new(),
            },
        );
        i = i + 1;
    }
    out
}

/// The summary that results from adding `failures` after a summary: the old
/// summary first, unless it is absent or blank, then the failures, one per
/// line.
pub open spec fn merged_summary(summary: Option<String>, failures: Seq<Seq<char>>) -> Seq<char> {
    match summary {
        Some(s) => if blank(s@) {
            join(failures, "\n"@)
        } else {
            join(seq![s@] + failures, "\n"@)
        },
        None => join(failures, "\n"@),
    }
}

/// The messages of the failed judge results.
pub open spec fn judge_failures(results: Seq<EvalJudgeResult>) -> Seq<Seq<char>>
    decreases results.len(),
{
    if results.len() == 0 {
        Seq::empty()
    } else if results.last().passed {
        judge_failures(results.drop_last())
    } else {
        judge_failures(results.drop_last()).push("llm_judge failed: "@ + results.last().summary@)
    }
}

/// The final verdict of an evaluation: the evaluator's, failed, with the
/// failures added to its summary, when run criteria failed; and again when
/// judges failed.
pub open spec fn concluded(
    evaluation: EvalResult,
    run_failures: Seq<Seq<char>>,
    judges: Seq<EvalJudgeResult>,
) -> (bool, Option<Seq<char>>) {
    let (passed1, summary1) = if run_failures.len() == 0 {
        (evaluation.passed, match evaluation.summary {
            Some(s) => Some(s@),
            None => None,
        })
    } else {
        (false, Some(merged_summary(evaluation.summary, run_failures)))
    };
    let jf = judge_failures(judges);
    if jf.len() == 0 {
        (passed1, summary1)
    } else {
        (false, Some(match summary1 {
            Some(s) => if blank(s) {
                join(jf, "\n"@)
            } else {
                join(seq![s] + jf, "\n"@)
            },
            None => join(jf, "\n"@),
        }))
    }
}

fn merge_failures(summary: Option<String>, failures: Vec<String>) -> (r: String)
    ensures
        r@ == merged_summary(summary, failures@.map_values(|p: String| p@)),
{
    let mut messages: Vec<String> = Vec::new();
    match &summary {
        Some(s) => {
            if !is_blank(s.as_str()) {
                messages.push(s.clone());
            }
        },
        None => {},
    }
    let ghost first = messages@;
    let ghost fs = failures@;
    for i in 0..failures.len()
        invariant
            fs == failures@,
            messages@ == first + fs.take(i as int),
    {
        messages.push(failures[i].clone());
        assert(messages@ =~= first + fs.take(i + 1));
    }
    assert(fs.take(fs.len() as int) =~= fs);
    assert(messages@.map_values(|p: String| p@) =~= first.map_values(|p: String| p@)
        + fs.map_values(|p: String| p@));
    proof {
        match summary {
            Some(s) => if !blank(s@) {
                assert(first.map_values(|p: String| p@) =~= seq![s@]);
            } else {
                assert(first.map_values(|p: String| p@) =~= Seq::<Seq<char>>::empty());
            },
            None => {
                assert(first.map_values(|p: String| p@) =~= Seq::<Seq<char>>::empty());
            },
        }
    }
    crate::text::join_strings(&messages, "\n")
}

/// Combines the evaluator's verdict with the failures of the run criteria
/// and of the judges.
pub fn conclude_evaluation(
    evaluation: EvalResult,
    run_failures: Vec<String>,
    judges: &Vec<EvalJudgeResult>,
) -> (r: EvalResult)
    ensures
        (r.passed, match r.summary {
            Some(s) => Some(s@),
            None => None,
        }) == concluded(evaluation, run_failures@.map_values(|p: String| p@), judges@),
{
    let mut evaluation = evaluation;
    let ghost e0 = evaluation;
    if run_failures.len() > 0 {
        let summary = merge_failures(evaluation.summary, run_failures);
        evaluation = EvalResult { passed: false, summary: Some(summary) };
    }
    let mut failures: Vec<String> = Vec::new();
    for i in 0..judges.len()
        invariant
            failures@.map_values(|p: String| p@) == judge_failures(judges@.take(i as int)),
    {
        assert(judges@.take(i + 1).drop_last() =~= judges@.take(i as int));
        assert(judges@.take(i + 1).last() == judges@[i as int]);
        if !judges[i].passed {
            let mut m = String::new();
            string_push_str(&mut m, "llm_judge failed: ");
            string_push_str(&mut m, judges[i].summary.as_str());
            let ghost before = failures@;
            failures.push(m);
            assert(failures@.map_values(|p: String| p@) =~= before.map_values(|p: String| p@).push(
                "llm_judge failed: "@ + judges@[i as int].summary@,
            ));
        }
    }
    assert(judges@.take(judges@.len() as int) =~= judges@);
    if failures.len() > 0 {
        let summary = merge_failures(evaluation.summary, failures);
        evaluation = EvalResult { passed: false, summary: Some(summary) };
    }
    evaluation
}

/// What an evaluation reads off a finished run before any judge runs.
pub struct RunReadings {
    /// The agent's last message.
    pub final_agent_message: Option<String>,
    /// The trace the criteria are checked against.
    pub trace: Vec<EvalTraceEvent>,
    /// The recorded trajectory.
    pub trajectory: Vec<EvalTrajectoryEvent>,
    /// The failures of the criteria checked on the run itself.
    pub run_failures: Vec<String>,
}

/// Reads a finished run: the agent's last message, the trace and the
/// recorded trajectory through `adapter`, and the failures of the spec's run
/// criteria for the way the run ended.
pub fn read_finished_run<T: EvalActionAdapter<A, U>, O, A, U>(
    spec: &EvalSpec,
    finish_reason: &FinishReason,
    trajectory: &Trajectory<O, A, U>,
    adapter: &T,
) -> (r: RunReadings)
    ensures
        r.final_agent_message == last_agent_message(trajectory.events@),
        r.trace@.len() == traced_events(trajectory.events@).len(),
        forall|i: int|
            0 <= i < r.trace@.len() ==> trace_matches(
                *adapter,
                #[trigger] r.trace@[i],
                traced_events(trajectory.events@)[i],
            ),
        r.trajectory@.len() == trajectory.events@.len(),
        forall|i: int|
            0 <= i < r.trajectory@.len() ==> (#[trigger] r.trajectory@[i]).sequence == i
                && payload_matches(*adapter, r.trajectory@[i].payload, trajectory.events@[i]),
        r.run_failures@.len() == run_criteria_failures(
            spec.evaluation.criteria@,
            *finish_reason,
            match r.final_agent_message {
                Some(m) => Some(m@),
                None => None,
            },
        ).len(),
        forall|i: int|
            0 <= i < r.run_failures@.len() ==> (#[trigger] r.run_failures@[i])@ == run_criteria_failures(
                spec.evaluation.criteria@,
                *finish_reason,
                match r.final_agent_message {
                    Some(m) => Some(m@),
                    None => None,
                },
            )[i],
{
    let final_agent_message = final_agent_message(&trajectory.events);
    let trace = trajectory_trace_events(trajectory, adapter);
    let serialized = serialize_trajectory_events(trajectory, adapter);
    let run_failures = match &final_agent_message {
        Some(m) => evaluate_run_criteria(&spec.evaluation.criteria, finish_reason, Some(m.as_str())),
        None => evaluate_run_criteria(&spec.evaluation.criteria, finish_reason, None),
    };
    let ghost rf = run_criteria_failures(
        spec.evaluation.criteria@,
        *finish_reason,
        opt_view(final_agent_message),
    );
    assert(run_failures@.map_values(|p: String| p@) == rf);
    assert forall|i: int| 0 <= i < run_failures@.len() implies (#[trigger] run_failures@[i])@ == rf[i] by {
        assert(run_failures@.map_values(|p: String| p@)[i] == run_failures@[i]@);
    }
    RunReadings { final_agent_message, trace, trajectory: serialized, run_failures }
}

/// The evaluator's verdict, or a failed one saying it is missing.
pub fn evaluation_or_missing(evaluation: Option<EvalResult>) -> (r: EvalResult)
    ensures
        match evaluation {
            Some(e) => r == e,
            None => !r.passed && (r.summary matches Some(s) && s@ == "missing evaluation result"@),
        },
{
    match evaluation {
        Some(e) => e,
        None => EvalResult { passed: false, summary: Some("missing evaluation result".to_owned()) },
    }
}

} // verus!
