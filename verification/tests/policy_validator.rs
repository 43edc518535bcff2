use newral_core::policy::AiMode;
use newral_core::policy::PolicyConfig;
use newral_core::policy::PolicyDecision;
use newral_core::policy::PolicyEngine;
use newral_core::policy::ProposalSource;
use newral_core::policy::TaskRequestProposal;
use newral_core::reputation::apply_decisions;
use newral_core::reputation::apply_delta;
use newral_core::reputation::plan_validation_flags;
use newral_core::reputation::reputation_delta;
use newral_core::reputation::FlagReason;
use newral_core::validator::apply_ai_flag;
use newral_core::validator::decide;
use newral_core::validator::fold_shard_counts;
use newral_core::validator::inspect;
use newral_core::validator::recheck_decision;
use newral_core::validator::AgentResult;
use newral_core::validator::Decision;
use newral_core::validator::ServerSandboxResult;
use newral_core::validator::TaskPayload;
use newral_core::validator::ValidateRequest;

fn empty_payload() -> TaskPayload {
    TaskPayload {
        kind: None,
        script: None,
        script_url: None,
        script_sha256: None,
        args: None,
        inputs: None,
        group_id: None,
        parent_task_id: None,
    }
}

fn server_result(status: &str, stdout: &str, stdout_sha256: &str) -> ServerSandboxResult {
    ServerSandboxResult {
        status: status.to_string(),
        stdout: stdout.to_string(),
        stderr: String::new(),
        duration_ms: 5,
        started_at_ms: 0,
        ended_at_ms: 5,
        exit_code: Some(0),
        error: None,
        stdout_sha256: stdout_sha256.to_string(),
        script_sha256: "s".to_string(),
    }
}

#[test]
fn ai_off_denies_ai_proposals() {
    let mut config = PolicyConfig::new_default();
    config.ai_mode = AiMode::AiOff;
    let engine = PolicyEngine::new(config);
    let decision = engine.evaluate_task_request(TaskRequestProposal {
        requested_tasks: 1,
        source: ProposalSource::Ai,
    });
    assert!(matches!(decision, PolicyDecision::Denied { .. }));
}

#[test]
fn clamps_requested_tasks() {
    let mut config = PolicyConfig::new_default();
    config.max_concurrent_tasks = 2;
    let engine = PolicyEngine::new(config);
    let decision = engine.evaluate_task_request(TaskRequestProposal {
        requested_tasks: 5,
        source: ProposalSource::System,
    });
    match decision {
        PolicyDecision::Limited { granted_tasks, .. } => assert_eq!(granted_tasks, 2),
        _ => panic!("expected limited decision"),
    }
}

#[test]
fn allows_within_cap_with_no_reasons() {
    let engine = PolicyEngine::new(PolicyConfig::new_default());
    let decision = engine.evaluate_task_request(TaskRequestProposal {
        requested_tasks: 3,
        source: ProposalSource::System,
    });
    match decision {
        PolicyDecision::Allowed { reasons } => assert!(reasons.is_empty()),
        _ => panic!("expected allowed decision"),
    }
}

#[test]
fn deny_reason_names_ai_off() {
    let engine = PolicyEngine::new(PolicyConfig::new_default());
    let decision = engine.evaluate_task_request(TaskRequestProposal {
        requested_tasks: 1,
        source: ProposalSource::Ai,
    });
    match decision {
        PolicyDecision::Denied { reasons } => {
            assert_eq!(reasons.len(), 1);
            assert!(reasons[0].contains("ai_off"));
        },
        _ => panic!("expected denied decision"),
    }
}

#[test]
fn clamp_reason_carries_both_numbers() {
    let mut config = PolicyConfig::new_default();
    config.max_concurrent_tasks = 2;
    let engine = PolicyEngine::new(config);
    let decision = engine.evaluate_task_request(TaskRequestProposal {
        requested_tasks: 5,
        source: ProposalSource::System,
    });
    match decision {
        PolicyDecision::Limited { reasons, .. } => {
            assert_eq!(reasons, vec!["requested_tasks 5 exceeds max 2".to_string()]);
        },
        _ => panic!("expected limited decision"),
    }
}

#[test]
fn proposal_source_tags() {
    assert!(matches!(ProposalSource::from_optional(Some("ai")), ProposalSource::Ai));
    assert!(matches!(ProposalSource::from_optional(Some("AI")), ProposalSource::Ai));
    assert!(matches!(ProposalSource::from_optional(Some("system")), ProposalSource::System));
    assert!(matches!(ProposalSource::from_optional(Some("other")), ProposalSource::Unknown));
    assert!(matches!(ProposalSource::from_optional(None), ProposalSource::Unknown));
}

#[test]
fn ai_mode_labels_round_trip() {
    assert_eq!(AiMode::AiAdvisory.as_str(), "AI_ADVISORY");
    assert!(matches!(AiMode::parse("AI_FULL"), Some(AiMode::AiFull)));
    assert!(AiMode::parse("nonsense").is_none());
}

#[test]
fn decision_from_outcome() {
    let request = ValidateRequest {
        task_id: 1,
        device_id: 2,
        result_hash: None,
        outcome: Some("suspicious".to_string()),
    };
    assert!(matches!(decide(&request), Decision::Suspicious));
}

#[test]
fn decision_label() {
    let decision = Decision::NeedsRecheck;
    assert_eq!(decision.as_str(), "needs_recheck");
}

#[test]
fn decision_falls_back_to_hash_hints() {
    let request = ValidateRequest {
        task_id: 1,
        device_id: 2,
        result_hash: Some("recheck".to_string()),
        outcome: None,
    };
    assert!(matches!(decide(&request), Decision::NeedsRecheck));
    let clean = ValidateRequest {
        task_id: 1,
        device_id: 2,
        result_hash: None,
        outcome: None,
    };
    assert!(matches!(decide(&clean), Decision::Valid));
}

#[test]
fn recheck_matches_bit_for_bit() {
    let server = server_result("ok", "A", "hash-a");
    let agent = AgentResult {
        status: Some("ok".to_string()),
        stdout: Some("A".to_string()),
        stderr: None,
        duration_ms: Some(5),
        stdout_sha256: Some("hash-a".to_string()),
        script_sha256: None,
        error: None,
    };
    assert!(matches!(recheck_decision(Some(&agent), &server), Decision::Valid));
}

#[test]
fn validator_mismatch_needs_recheck_and_costs_one_point() {
    let server = server_result("ok", "B", "hash-b");
    let agent = AgentResult {
        status: Some("ok".to_string()),
        stdout: Some("A".to_string()),
        stderr: None,
        duration_ms: Some(5),
        stdout_sha256: Some("hash-a".to_string()),
        script_sha256: None,
        error: None,
    };
    let decision = recheck_decision(Some(&agent), &server);
    assert!(matches!(decision, Decision::NeedsRecheck));
    assert_eq!(reputation_delta(&decision), -1);
    assert_eq!(apply_delta(0, &decision), -1);
    let flags = plan_validation_flags(&decision, -1);
    assert!(flags.is_empty());
}

#[test]
fn recheck_without_agent_result_needs_recheck() {
    let server = server_result("ok", "A", "hash-a");
    assert!(matches!(recheck_decision(None, &server), Decision::NeedsRecheck));
}

#[test]
fn screener_flag_makes_recheck_suspicious() {
    let server = server_result("ok", "A", "hash-a");
    let agent = AgentResult {
        status: Some("ok".to_string()),
        stdout: Some("A".to_string()),
        stderr: None,
        duration_ms: Some(5),
        stdout_sha256: Some("hash-a".to_string()),
        script_sha256: None,
        error: None,
    };
    let compared = recheck_decision(Some(&agent), &server);
    assert!(matches!(compared, Decision::Valid));
    let flag = "risky_code_pattern".to_string();
    assert!(matches!(apply_ai_flag(compared, Some(&flag)), Decision::Suspicious));
    assert!(matches!(apply_ai_flag(compared, None), Decision::Valid));
}

#[test]
fn remote_script_is_marked_for_recheck_not_rerun() {
    let mut payload = empty_payload();
    payload.script_url = Some("https://blobs.example/worker.py".to_string());
    let result = server_result("ok", "1", "h");
    let flag = inspect(&payload, &result);
    assert_eq!(flag, Some("remote_script".to_string()));
    let decision = apply_ai_flag(Decision::Valid, flag.as_ref());
    assert!(matches!(decision, Decision::NeedsRecheck));
}

#[test]
fn empty_inline_script_has_nothing_to_check() {
    let mut payload = empty_payload();
    payload.script = Some(String::new());
    let result = server_result("ok", "1", "h");
    assert_eq!(inspect(&payload, &result), Some("missing_script".to_string()));
}

#[test]
fn inspect_flags_risky_script() {
    let mut payload = empty_payload();
    payload.script = Some("import os\nprint(1)".to_string());
    let result = server_result("ok", "1", "h");
    assert_eq!(inspect(&payload, &result), Some("risky_code_pattern".to_string()));
}

#[test]
fn inspect_reports_missing_script() {
    let payload = empty_payload();
    let result = server_result("ok", "1", "h");
    assert_eq!(inspect(&payload, &result), Some("missing_script".to_string()));
}

#[test]
fn inspect_reports_execution_error() {
    let mut payload = empty_payload();
    payload.script = Some("print(1)".to_string());
    let result = server_result("error", "", "h");
    assert_eq!(inspect(&payload, &result), Some("execution_error".to_string()));
}

#[test]
fn inspect_accepts_clean_run() {
    let mut payload = empty_payload();
    payload.script = Some("print(1)".to_string());
    let result = server_result("ok", "1", "h");
    assert_eq!(inspect(&payload, &result), None);
}

#[test]
fn suspicious_result_flags_and_low_score_flags() {
    let flags = plan_validation_flags(&Decision::Suspicious, -3);
    assert_eq!(flags.len(), 1);
    assert!(matches!(flags[0], FlagReason::SuspiciousResult));
    assert_eq!(flags[0].as_str(), "suspicious_result");

    let both = plan_validation_flags(&Decision::Suspicious, -15);
    assert_eq!(both.len(), 2);
    assert!(matches!(both[1], FlagReason::LowReputation));

    let low_only = plan_validation_flags(&Decision::Valid, -10);
    assert_eq!(low_only.len(), 1);
    assert!(matches!(low_only[0], FlagReason::LowReputation));
}

#[test]
fn reputation_order_does_not_matter() {
    let forward = vec![Decision::Valid, Decision::Suspicious, Decision::NeedsRecheck];
    let backward = vec![Decision::NeedsRecheck, Decision::Suspicious, Decision::Valid];
    assert_eq!(apply_decisions(0, &forward), apply_decisions(0, &backward));
    assert_eq!(apply_decisions(0, &forward), -5);
}

#[test]
fn shard_counts_fold_totals_and_completed() {
    let rows = vec![
        ("done".to_string(), 2u64),
        ("running".to_string(), 1u64),
        ("completed".to_string(), 1u64),
        ("queued".to_string(), 3u64),
    ];
    let (total, completed) = fold_shard_counts(&rows);
    assert_eq!(total, 7);
    assert_eq!(completed, 3);
}
