use pera::evals::participants::{
    simulated_user_context, termination_condition_for_user, ScriptedUserParticipant,
};
use pera::evals::spec::EvalUserSpec;
use pera::orchestrator::types::{ParticipantId, TerminationCondition};

#[test]
fn scripted_user_initial_message_includes_known_info() {
    let participant = ScriptedUserParticipant::from_spec(&EvalUserSpec::Scripted {
        task: "Plan the trip".to_owned(),
        known_info: "The cost center is DELTA-EU. The planning week starts on 2026-04-06."
            .to_owned(),
        initial_message: "Plan Berlin travel for Alice and Bruno.".to_owned(),
    });

    assert_eq!(
        participant.initial_message(),
        "Plan Berlin travel for Alice and Bruno.\n\nKnown information:\nThe cost center is DELTA-EU. The planning week starts on 2026-04-06."
    );
}

#[test]
fn simulated_user_context_uses_all_simulated_fields() {
    let context = simulated_user_context(
        &EvalUserSpec::Simulated {
            task: "Book travel".to_owned(),
            reason: "It must be booked today".to_owned(),
            known_info: "Two travelers need to be in Berlin.".to_owned(),
            unknown_info: "Available flights and hotel options.".to_owned(),
        },
        false,
    );

    assert!(context.contains("task: Book travel"));
    assert!(context.contains("reason: It must be booked today"));
    assert!(context.contains("known_info: Two travelers need to be in Berlin."));
    assert!(context.contains("unknown_info: Available flights and hotel options."));
}

#[test]
fn scripted_users_use_single_answer_termination() {
    let condition = termination_condition_for_user(&EvalUserSpec::Scripted {
        task: "task".to_owned(),
        known_info: "known".to_owned(),
        initial_message: "hello".to_owned(),
    });

    assert_eq!(
        condition,
        TerminationCondition::AnyOfParticipantsCompletedLoop(vec![ParticipantId::Agent])
    );
}

#[test]
fn simulated_users_use_multi_turn_termination() {
    let condition = termination_condition_for_user(&EvalUserSpec::Simulated {
        task: "task".to_owned(),
        reason: "reason".to_owned(),
        known_info: "known".to_owned(),
        unknown_info: "unknown".to_owned(),
    });

    assert_eq!(condition, TerminationCondition::AnyParticipantFinished);
}

use pera::evals::trajectory::{finish_reason_debug_text, serialize_participant_id};
use pera::orchestrator::types::FinishReason;

#[test]
fn finish_reasons_read_as_their_debug_form() {
    assert_eq!(finish_reason_debug_text(&FinishReason::ParticipantsFinished), "ParticipantsFinished");
    assert_eq!(
        finish_reason_debug_text(&FinishReason::ParticipantFinished {
            participant: ParticipantId::Custom("bob".to_owned()),
        }),
        "ParticipantFinished { participant: Custom(\"bob\") }"
    );
    assert_eq!(
        finish_reason_debug_text(&FinishReason::FailedActionLimitExceeded {
            total_failures: 12,
            consecutive_failures: 3,
        }),
        "FailedActionLimitExceeded { total_failures: 12, consecutive_failures: 3 }"
    );
    assert_eq!(
        finish_reason_debug_text(&FinishReason::EnvironmentError("say \"hi\"\n".to_owned())),
        "EnvironmentError(\"say \\\"hi\\\"\\n\")"
    );
    assert_eq!(
        finish_reason_debug_text(&FinishReason::ParticipantError {
            participant: ParticipantId::Agent,
            message: "boom".to_owned(),
        }),
        "ParticipantError { participant: Agent, message: \"boom\" }"
    );
    assert_eq!(serialize_participant_id(&ParticipantId::Custom("judge".to_owned())), "judge");
    assert_eq!(serialize_participant_id(&ParticipantId::User), "user");
}

use pera::evals::engine::evaluation_or_missing;
use pera::orchestrator::types::EvalResult;

#[test]
fn a_missing_evaluation_counts_as_failed() {
    let missing = evaluation_or_missing(None);
    assert!(!missing.passed);
    assert_eq!(missing.summary.as_deref(), Some("missing evaluation result"));
    let given = evaluation_or_missing(Some(EvalResult { passed: true, summary: None }));
    assert!(given.passed);
    assert!(given.summary.is_none());
}
