//! Run limits, termination conditions and status lines.
use vstd::prelude::*;

use crate::orchestrator::types::{
    ActionRunStatus, FinishReason, ParticipantId, RunLimits, TerminationCondition,
};
use crate::text::string_push_str;

verus! {

/// Counters of a run in progress.
#[derive(Debug, Clone, Copy)]
pub struct RunCounters {
    pub step_count: usize,
    pub action_count: usize,
    pub message_count: usize,
    pub failed_action_count: usize,
    pub consecutive_failed_action_count: usize,
}

impl RunCounters {
    /// All counters at zero.
    pub fn new() -> (r: RunCounters)
        ensures
            r.step_count == 0,
            r.action_count == 0,
            r.message_count == 0,
            r.failed_action_count == 0,
            r.consecutive_failed_action_count == 0,
    {
        RunCounters {
            step_count: 0,
            action_count: 0,
            message_count: 0,
            failed_action_count: 0,
            consecutive_failed_action_count: 0,
        }
    }

    /// A completed action ends a streak of failures.
    pub fn record_action_completed(&mut self)
        ensures
            *final(self) == (RunCounters { consecutive_failed_action_count: 0, ..*old(self) }),
    {
        self.consecutive_failed_action_count = 0;
    }

    /// A failed action counts toward both the total and the current streak.
    pub fn record_action_failed(&mut self)
        requires
            old(self).failed_action_count < usize::MAX,
            old(self).consecutive_failed_action_count < usize::MAX,
        ensures
            *final(self) == (RunCounters {
                failed_action_count: (old(self).failed_action_count + 1) as usize,
                consecutive_failed_action_count: (old(self).consecutive_failed_action_count
                    + 1) as usize,
                ..*old(self)
            }),
    {
        self.failed_action_count = self.failed_action_count + 1;
        self.consecutive_failed_action_count = self.consecutive_failed_action_count + 1;
    }
}

/// The limit a run has reached, checked in this order: steps, total failed
/// actions, consecutive failed actions, elapsed time.
pub open spec fn limit_reached(
    limits: RunLimits,
    counters: RunCounters,
    elapsed_ms: u64,
) -> Option<FinishReason> {
    if counters.step_count >= limits.max_steps {
        Some(FinishReason::StepLimitExceeded)
    } else if limits.max_failed_actions is Some && counters.failed_action_count
        >= limits.max_failed_actions->0 {
        Some(
            FinishReason::FailedActionLimitExceeded {
                total_failures: counters.failed_action_count,
                consecutive_failures: counters.consecutive_failed_action_count,
            },
        )
    } else if limits.max_consecutive_failed_actions is Some
        && counters.consecutive_failed_action_count >= limits.max_consecutive_failed_actions->0 {
        Some(
            FinishReason::FailedActionLimitExceeded {
                total_failures: counters.failed_action_count,
                consecutive_failures: counters.consecutive_failed_action_count,
            },
        )
    } else if limits.max_duration_ms is Some && elapsed_ms >= limits.max_duration_ms->0 {
        Some(FinishReason::TimeLimitExceeded)
    } else {
        None
    }
}

/// The limit, if any, that a run with these counters has reached after
/// `elapsed_ms` milliseconds.
pub fn enforce_run_limits(limits: &RunLimits, counters: &RunCounters, elapsed_ms: u64) -> (r: Option<
    FinishReason,
>)
    ensures
        r == limit_reached(*limits, *counters, elapsed_ms),
{
    if counters.step_count >= limits.max_steps {
        return Some(FinishReason::StepLimitExceeded);
    }
    if let Some(max_failed_actions) = limits.max_failed_actions {
        if counters.failed_action_count >= max_failed_actions {
            return Some(
                FinishReason::FailedActionLimitExceeded {
                    total_failures: counters.failed_action_count,
                    consecutive_failures: counters.consecutive_failed_action_count,
                },
            );
        }
    }
    if let Some(max_consecutive) = limits.max_consecutive_failed_actions {
        if counters.consecutive_failed_action_count >= max_consecutive {
            return Some(
                FinishReason::FailedActionLimitExceeded {
                    total_failures: counters.failed_action_count,
                    consecutive_failures: counters.consecutive_failed_action_count,
                },
            );
        }
    }
    if let Some(max_duration) = limits.max_duration_ms {
        if elapsed_ms >= max_duration {
            return Some(FinishReason::TimeLimitExceeded);
        }
    }
    None
}

/// Some participant in `list` names `p`.
pub open spec fn names_any(list: Seq<ParticipantId>, p: ParticipantId) -> bool {
    exists|i: int| 0 <= i < list.len() && (#[trigger] list[i]).names(p)
}

/// Whether `list` names `p`.
pub fn contains_participant(list: &Vec<ParticipantId>, p: &ParticipantId) -> (r: bool)
    ensures
        r == names_any(list@, *p),
{
    let mut i: usize = 0;
    while i < list.len()
        invariant
            i <= list@.len(),
            forall|j: int| 0 <= j < i ==> !(#[trigger] list@[j]).names(*p),
        decreases list@.len() - i,
    {
        if list[i].same(p) {
            return true;
        }
        i = i + 1;
    }
    false
}

/// Whether a finished participant ends the run: all of them done, any of
/// them, or one of a listed few. Loop-completion conditions never end a
/// run here.
pub open spec fn finish_termination(
    condition: TerminationCondition,
    finished_count: nat,
    participant_count: nat,
    newly_finished: Option<ParticipantId>,
) -> Option<FinishReason> {
    match condition {
        TerminationCondition::AllParticipantsFinished => {
            if participant_count > 0 && finished_count == participant_count {
                Some(FinishReason::ParticipantsFinished)
            } else {
                None
            }
        },
        TerminationCondition::AnyParticipantFinished => match newly_finished {
            Some(p) => Some(FinishReason::ParticipantFinished { participant: p }),
            None => None,
        },
        TerminationCondition::AnyOfParticipantsFinished(list) => match newly_finished {
            Some(p) => if names_any(list@, p) {
                Some(FinishReason::ParticipantFinished { participant: p })
            } else {
                None
            },
            None => None,
        },
        _ => None,
    }
}

/// Whether a run ends now that `finished_count` of its distinct
/// participants have finished, `newly_finished` being the one that just did.
pub fn termination_condition_met(
    condition: &TerminationCondition,
    finished_count: usize,
    participant_count: usize,
    newly_finished: Option<&ParticipantId>,
) -> (r: Option<FinishReason>)
    ensures
        r == finish_termination(
            *condition,
            finished_count as nat,
            participant_count as nat,
            match newly_finished {
                Some(p) => Some(*p),
                None => None,
            },
        ),
{
    match condition {
        TerminationCondition::AllParticipantsFinished => {
            if participant_count > 0 && finished_count == participant_count {
                Some(FinishReason::ParticipantsFinished)
            } else {
                None
            }
        },
        TerminationCondition::AnyParticipantFinished => match newly_finished {
            Some(p) => Some(FinishReason::ParticipantFinished { participant: p.copy() }),
            None => None,
        },
        TerminationCondition::AnyOfParticipantsFinished(list) => match newly_finished {
            Some(p) => {
                if contains_participant(list, p) {
                    Some(FinishReason::ParticipantFinished { participant: p.copy() })
                } else {
                    None
                }
            },
            None => None,
        },
        TerminationCondition::AnyParticipantCompletedLoop => None,
        TerminationCondition::AnyOfParticipantsCompletedLoop(_) => None,
    }
}

/// Whether a completed agent loop ends the run; only the loop-completion
/// conditions can.
pub open spec fn loop_termination(
    condition: TerminationCondition,
    completed: Option<ParticipantId>,
) -> Option<FinishReason> {
    match condition {
        TerminationCondition::AnyParticipantCompletedLoop => match completed {
            Some(p) => Some(FinishReason::ParticipantCompletedLoop { participant: p }),
            None => None,
        },
        TerminationCondition::AnyOfParticipantsCompletedLoop(list) => match completed {
            Some(p) => if names_any(list@, p) {
                Some(FinishReason::ParticipantCompletedLoop { participant: p })
            } else {
                None
            },
            None => None,
        },
        _ => None,
    }
}

/// Whether the run ends now that `completed` has completed an agent loop.
pub fn loop_termination_condition_met(
    condition: &TerminationCondition,
    completed: Option<&ParticipantId>,
) -> (r: Option<FinishReason>)
    ensures
        r == loop_termination(
            *condition,
            match completed {
                Some(p) => Some(*p),
                None => None,
            },
        ),
{
    match condition {
        TerminationCondition::AnyParticipantCompletedLoop => match completed {
            Some(p) => Some(FinishReason::ParticipantCompletedLoop { participant: p.copy() }),
            None => None,
        },
        TerminationCondition::AnyOfParticipantsCompletedLoop(list) => match completed {
            Some(p) => {
                if contains_participant(list, p) {
                    Some(FinishReason::ParticipantCompletedLoop { participant: p.copy() })
                } else {
                    None
                }
            },
            None => None,
        },
        _ => None,
    }
}

/// The status line shown for a deferred run's progress.
pub open spec fn run_status_line(status: ActionRunStatus) -> Seq<char> {
    match status {
        ActionRunStatus::RunSubmitted => "code execution submitted"@,
        ActionRunStatus::RunStarted => "running code"@,
        ActionRunStatus::ActionEnqueued { skill_name, action_name, .. } => if skill_name@.len()
            > 0 && action_name@.len() > 0 {
            "querying "@ + skill_name@ + "."@ + action_name@
        } else {
            "waiting for skill action"@
        },
        ActionRunStatus::ActionClaimed { skill_name, action_name, worker_id, .. } => if skill_name@.len()
            > 0 && action_name@.len() > 0 {
            "running "@ + skill_name@ + "."@ + action_name@ + " ("@ + worker_id@ + ")"@
        } else {
            "running skill action ("@ + worker_id@ + ")"@
        },
        ActionRunStatus::ActionCompleted { skill_name, action_name, .. } => if skill_name@.len()
            > 0 && action_name@.len() > 0 {
            "completed "@ + skill_name@ + "."@ + action_name@
        } else {
            "skill action completed"@
        },
        ActionRunStatus::ActionFailed { skill_name, action_name, message, .. } => if skill_name@.len()
            > 0 && action_name@.len() > 0 {
            "failed "@ + skill_name@ + "."@ + action_name@ + ": "@ + message@
        } else {
            "skill action failed: "@ + message@
        },
        ActionRunStatus::RunResumed => "resuming code execution"@,
    }
}

/// The status line shown for a deferred run's progress.
pub fn format_action_run_status(status: &ActionRunStatus) -> (r: String)
    ensures
        r@ == run_status_line(*status),
{
    let mut s = String::new();
    match status {
        ActionRunStatus::RunSubmitted => string_push_str(&mut s, "code execution submitted"),
        ActionRunStatus::RunStarted => string_push_str(&mut s, "running code"),
        ActionRunStatus::ActionEnqueued { skill_name, action_name, .. } => {
            if !skill_name.as_str().is_empty() && !action_name.as_str().is_empty() {
                string_push_str(&mut s, "querying ");
                string_push_str(&mut s, skill_name.as_str());
                string_push_str(&mut s, ".");
                string_push_str(&mut s, action_name.as_str());
            } else {
                string_push_str(&mut s, "waiting for skill action");
            }
        },
        ActionRunStatus::ActionClaimed { skill_name, action_name, worker_id, .. } => {
            if !skill_name.as_str().is_empty() && !action_name.as_str().is_empty() {
                string_push_str(&mut s, "running ");
                string_push_str(&mut s, skill_name.as_str());
                string_push_str(&mut s, ".");
                string_push_str(&mut s, action_name.as_str());
                string_push_str(&mut s, " (");
                string_push_str(&mut s, worker_id.as_str());
                string_push_str(&mut s, ")");
            } else {
                string_push_str(&mut s, "running skill action (");
                string_push_str(&mut s, worker_id.as_str());
                string_push_str(&mut s, ")");
            }
        },
        ActionRunStatus::ActionCompleted { skill_name, action_name, .. } => {
            if !skill_name.as_str().is_empty() && !action_name.as_str().is_empty() {
                string_push_str(&mut s, "completed ");
                string_push_str(&mut s, skill_name.as_str());
                string_push_str(&mut s, ".");
                string_push_str(&mut s, action_name.as_str());
            } else {
                string_push_str(&mut s, "skill action completed");
            }
        },
        ActionRunStatus::ActionFailed { skill_name, action_name, message, .. } => {
            if !skill_name.as_str().is_empty() && !action_name.as_str().is_empty() {
                string_push_str(&mut s, "failed ");
                string_push_str(&mut s, skill_name.as_str());
                string_push_str(&mut s, ".");
                string_push_str(&mut s, action_name.as_str());
                string_push_str(&mut s, ": ");
                string_push_str(&mut s, message.as_str());
            } else {
                string_push_str(&mut s, "skill action failed: ");
                string_push_str(&mut s, message.as_str());
            }
        },
        ActionRunStatus::RunResumed => string_push_str(&mut s, "resuming code execution"),
    }
    s
}

} // verus!
