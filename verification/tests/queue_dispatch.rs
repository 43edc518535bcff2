use newral_core::dispatch::batch_to_single;
use newral_core::dispatch::project_status_after_submit;
use newral_core::dispatch::request_task_batch;
use newral_core::dispatch::submit_task;
use newral_core::dispatch::AgentRecord;
use newral_core::dispatch::DispatchError;
use newral_core::dispatch::ProjectStatus;
use newral_core::policy::PolicyConfig;
use newral_core::policy::PolicyEngine;
use newral_core::policy::ProposalSource;
use newral_core::queue::TaskStatus;
use newral_core::queue::TaskStore;
use newral_core::registry::parse_agent_uid;
use newral_core::registry::resolve_agent_uid;
use newral_core::registry::AgentRegistry;
use newral_core::demo::generate_demo_text;
use newral_core::demo::plan_demo_chunk_payloads;
use newral_core::demo::split_text;
use newral_core::registry::HardwareStore;
use newral_core::registry::LivenessTracker;
use newral_core::registry::MetricsLog;
use newral_core::registry::PreferenceStore;

fn seeded_store() -> TaskStore {
    let mut store = TaskStore::new();
    store.insert(Some("alpha".to_string()), "payload-1".to_string(), TaskStatus::Queued);
    store.insert(Some("beta".to_string()), "payload-2".to_string(), TaskStatus::Queued);
    store.insert(Some("alpha".to_string()), "payload-3".to_string(), TaskStatus::Queued);
    store
}

fn healthy_agent() -> AgentRecord {
    AgentRecord { id: 7, blocked: false, blocked_reason: None }
}

#[test]
fn lease_is_fifo_and_marks_running() {
    let mut store = seeded_store();
    let leased = store.lease_batch(None, 2);
    assert_eq!(leased.len(), 2);
    assert_eq!(leased[0].id, 1);
    assert_eq!(leased[1].id, 2);
    let counts = store.counts_by_status();
    assert_eq!(counts.queued, 1);
    assert_eq!(counts.running, 2);
}

#[test]
fn two_leases_never_share_a_task() {
    let mut store = seeded_store();
    let first = store.lease_batch(None, 2);
    let second = store.lease_batch(None, 2);
    for a in &first {
        for b in &second {
            assert_ne!(a.id, b.id);
        }
    }
    assert_eq!(first.len(), 2);
    assert_eq!(second.len(), 1);
}

#[test]
fn lease_respects_type_filter() {
    let mut store = seeded_store();
    let filter = vec!["alpha".to_string()];
    let leased = store.lease_batch(Some(&filter), 10);
    assert_eq!(leased.len(), 2);
    for task in &leased {
        assert_eq!(task.task_type.as_deref(), Some("alpha"));
    }
    let counts = store.counts_by_status();
    assert_eq!(counts.queued, 1);
}

#[test]
fn complete_moves_task_to_done_and_keeps_result() {
    let mut store = seeded_store();
    let leased = store.lease_batch(None, 1);
    assert_eq!(leased.len(), 1);
    let outcome = store.complete(leased[0].id, "{\"ok\":true}".to_string(), Some(3));
    assert!(outcome.is_ok());
    let counts = store.counts_by_status();
    assert_eq!(counts.done, 1);
    assert_eq!(store.results.len(), 1);
    assert_eq!(store.results[0].task_id, leased[0].id);
}

#[test]
fn completing_twice_keeps_status_and_appends_rows() {
    let mut store = seeded_store();
    let _ = store.lease_batch(None, 1);
    assert!(store.complete(1, "first".to_string(), Some(3)).is_ok());
    assert!(store.complete(1, "first".to_string(), Some(3)).is_ok());
    let counts = store.counts_by_status();
    assert_eq!(counts.done, 1);
    assert_eq!(store.results.len(), 2);
}

#[test]
fn total_is_conserved_across_operations() {
    let mut store = seeded_store();
    store.insert(None, "group".to_string(), TaskStatus::Group);
    let _ = store.lease_batch(None, 1);
    let _ = store.complete(1, "done".to_string(), None);
    let counts = store.counts_by_status();
    let non_group = store.rows.len() as u64 - counts.group;
    assert_eq!(counts.queued + counts.running + counts.done + counts.stopped, non_group);
}

#[test]
fn cancel_in_flight_stops_queued_and_running() {
    let mut store = seeded_store();
    let _ = store.lease_batch(None, 1);
    let changed = store.cancel_in_flight();
    assert_eq!(changed, 3);
    let counts = store.counts_by_status();
    assert_eq!(counts.stopped, 3);
    assert_eq!(counts.queued, 0);
    assert_eq!(counts.running, 0);
}

#[test]
fn blocked_agent_gets_no_tasks_whatever_the_policy() {
    let mut store = seeded_store();
    let agent = AgentRecord {
        id: 7,
        blocked: true,
        blocked_reason: Some("abuse".to_string()),
    };
    let engine = PolicyEngine::new(PolicyConfig::new_default());
    let response = request_task_batch(
        &mut store,
        &agent,
        &engine,
        ProjectStatus::Active,
        5,
        ProposalSource::Ai,
        None,
        None,
    )
    .expect("blocked response");
    assert_eq!(response.status, "blocked");
    assert!(response.blocked);
    assert!(response.tasks.is_empty());
    assert_eq!(response.blocked_reason.as_deref(), Some("abuse"));
    assert_eq!(store.counts_by_status().queued, 3);
}

#[test]
fn blocked_reply_reports_the_policy_verdict_unchanged() {
    let agent = AgentRecord { id: 7, blocked: true, blocked_reason: None };
    let mut config = PolicyConfig::new_default();
    config.max_concurrent_tasks = 2;
    let engine = PolicyEngine::new(config);

    let mut store = seeded_store();
    let allowed = request_task_batch(
        &mut store,
        &agent,
        &engine,
        ProjectStatus::Active,
        1,
        ProposalSource::System,
        None,
        None,
    )
    .expect("blocked reply");
    assert_eq!(allowed.policy_decision, "allow");
    assert!(allowed.reasons.is_empty());

    let limited = request_task_batch(
        &mut store,
        &agent,
        &engine,
        ProjectStatus::Active,
        5,
        ProposalSource::System,
        None,
        None,
    )
    .expect("blocked reply");
    assert_eq!(limited.policy_decision, "limit");
    assert!(limited.reasons.is_empty());

    let denied = request_task_batch(
        &mut store,
        &agent,
        &engine,
        ProjectStatus::Active,
        1,
        ProposalSource::Ai,
        None,
        None,
    )
    .expect("blocked reply");
    assert_eq!(denied.policy_decision, "deny");
    assert!(denied.reasons.is_empty());
    assert_eq!(store.counts_by_status().queued, 3);
}

#[test]
fn a_submission_marks_the_project_active() {
    assert_eq!(project_status_after_submit(ProjectStatus::Paused), ProjectStatus::Active);
    assert_eq!(project_status_after_submit(ProjectStatus::Stopped), ProjectStatus::Active);
    assert_eq!(project_status_after_submit(ProjectStatus::Active), ProjectStatus::Active);
}

#[test]
fn ai_denial_is_an_error_with_reasons() {
    let mut store = seeded_store();
    let engine = PolicyEngine::new(PolicyConfig::new_default());
    let outcome = request_task_batch(
        &mut store,
        &healthy_agent(),
        &engine,
        ProjectStatus::Active,
        1,
        ProposalSource::Ai,
        None,
        None,
    );
    match outcome {
        Err(DispatchError::PolicyDenied { reasons }) => {
            assert_eq!(reasons.len(), 1);
            assert!(reasons[0].contains("ai_off"));
        },
        _ => panic!("expected policy denial"),
    }
    assert_eq!(store.counts_by_status().queued, 3);
}

#[test]
fn paused_project_returns_no_tasks() {
    let mut store = seeded_store();
    let engine = PolicyEngine::new(PolicyConfig::new_default());
    let response = request_task_batch(
        &mut store,
        &healthy_agent(),
        &engine,
        ProjectStatus::Paused,
        1,
        ProposalSource::System,
        None,
        None,
    )
    .expect("paused response");
    assert_eq!(response.status, "paused");
    assert!(response.tasks.is_empty());
    assert_eq!(response.reasons, vec!["project_not_active".to_string()]);
}

#[test]
fn batch_clamp_limits_granted_and_leased() {
    let mut store = seeded_store();
    let mut config = PolicyConfig::new_default();
    config.max_concurrent_tasks = 2;
    let engine = PolicyEngine::new(config);
    let response = request_task_batch(
        &mut store,
        &healthy_agent(),
        &engine,
        ProjectStatus::Active,
        5,
        ProposalSource::System,
        None,
        None,
    )
    .expect("clamped batch");
    assert_eq!(response.policy_decision, "limit");
    assert_eq!(response.granted_tasks, 2);
    assert!(response.tasks.len() <= 2);
}

#[test]
fn stored_preferences_filter_when_caller_gives_none() {
    let mut store = seeded_store();
    let engine = PolicyEngine::new(PolicyConfig::new_default());
    let response = request_task_batch(
        &mut store,
        &healthy_agent(),
        &engine,
        ProjectStatus::Active,
        10,
        ProposalSource::System,
        None,
        Some(vec!["beta".to_string()]),
    )
    .expect("filtered batch");
    assert_eq!(response.tasks.len(), 1);
    assert_eq!(response.tasks[0].task_type.as_deref(), Some("beta"));
}

#[test]
fn submit_requires_project_and_result() {
    let mut store = seeded_store();
    assert!(matches!(
        submit_task(&mut store, None, 1, Some("r".to_string()), None),
        Err(DispatchError::MissingProject)
    ));
    assert!(matches!(
        submit_task(&mut store, Some(1), 1, None, None),
        Err(DispatchError::MissingResult)
    ));
    assert!(matches!(
        submit_task(&mut store, Some(1), 99, Some("r".to_string()), None),
        Err(DispatchError::TaskNotFound)
    ));
    let accepted = submit_task(&mut store, Some(1), 1, Some("r".to_string()), Some(4));
    assert!(accepted.is_ok());
    assert_eq!(store.counts_by_status().done, 1);
}

#[test]
fn batch_to_single_takes_first_task() {
    let mut store = seeded_store();
    let engine = PolicyEngine::new(PolicyConfig::new_default());
    let response = request_task_batch(
        &mut store,
        &healthy_agent(),
        &engine,
        ProjectStatus::Active,
        2,
        ProposalSource::System,
        None,
        None,
    )
    .expect("batch");
    let single = batch_to_single("allow", response, Some(1));
    assert_eq!(single.task_id, Some(1));
    assert_eq!(single.payload.as_deref(), Some("payload-1"));
    assert_eq!(single.project_id, Some(1));

    let mut drained = seeded_store();
    let _ = drained.cancel_in_flight();
    let engine = PolicyEngine::new(PolicyConfig::new_default());
    let empty = request_task_batch(
        &mut drained,
        &healthy_agent(),
        &engine,
        ProjectStatus::Active,
        2,
        ProposalSource::System,
        None,
        None,
    )
    .expect("empty batch");
    let none = batch_to_single("allow", empty, Some(1));
    assert_eq!(none.task_id, None);
    assert_eq!(none.payload, None);
    assert_eq!(none.project_id, None);
}

#[test]
fn demo_round_drains_the_queue() {
    let mut store = TaskStore::new();
    let chunks = split_text(&generate_demo_text(), 5);
    let expected = chunks.len() as u64;
    store.insert(Some("demo_group".to_string()), "{}".to_string(), TaskStatus::Group);
    for payload in plan_demo_chunk_payloads(chunks, "demo-run", 1) {
        let script = payload.script.expect("inline script");
        store.insert(Some("demo_wordcount".to_string()), script, TaskStatus::Queued);
    }
    let engine = PolicyEngine::new(PolicyConfig::new_default());
    let batch = request_task_batch(
        &mut store,
        &healthy_agent(),
        &engine,
        ProjectStatus::Active,
        5,
        ProposalSource::System,
        None,
        None,
    )
    .expect("demo batch");
    assert_eq!(batch.tasks.len() as u64, expected);
    for task in &batch.tasks {
        submit_task(&mut store, Some(1), task.id, Some("{\"a\":1}".to_string()), None)
            .expect("submit");
    }
    let counts = store.counts_by_status();
    assert_eq!(counts.queued, 0);
    assert_eq!(counts.running, 0);
    assert_eq!(counts.done, expected);
    assert_eq!(counts.group, 1);
}

#[test]
fn legacy_node_id_always_resolves_to_same_uuid() {
    let first = resolve_agent_uid(None, Some("legacy-node-9")).expect("resolve");
    let second = resolve_agent_uid(None, Some("legacy-node-9")).expect("resolve");
    assert_eq!(first.0, second.0);
    assert_eq!(first.1.as_deref(), Some("legacy-node-9"));
    let expected = uuid::Uuid::new_v5(&uuid::Uuid::NAMESPACE_URL, b"legacy-node-9").as_u128();
    assert_eq!(first.0, expected);
}

#[test]
fn invalid_agent_uid_is_refused() {
    assert!(parse_agent_uid("not-a-uuid").is_err());
    let canonical = "936da01f-9abd-4d9d-80c7-02af85c822a8";
    let parsed = parse_agent_uid(canonical).expect("uuid");
    assert_eq!(parsed, uuid::Uuid::parse_str(canonical).unwrap().as_u128());
}

#[test]
fn upsert_preserves_absent_fields_and_block_state() {
    let mut registry = AgentRegistry::new();
    let first = registry.upsert(42, Some("edge-01".to_string()), Some(80), None, None, 100);
    assert_eq!(first.id, 1);
    assert!(!first.blocked);

    registry.agents[0].blocked = true;
    registry.agents[0].blocked_reason = Some("manual".to_string());

    let second = registry.upsert(42, None, None, Some(50), None, 200);
    assert_eq!(second.id, 1);
    assert!(second.blocked);
    assert_eq!(second.blocked_reason.as_deref(), Some("manual"));
    assert_eq!(registry.agents.len(), 1);
    assert_eq!(registry.agents[0].display_name.as_deref(), Some("edge-01"));
    assert_eq!(registry.agents[0].cpu_limit_percent, Some(80));
    assert_eq!(registry.agents[0].gpu_limit_percent, Some(50));
    assert_eq!(registry.agents[0].last_seen, 200);
}

#[test]
fn find_blocked_reports_block_state() {
    let mut registry = AgentRegistry::new();
    let _ = registry.upsert(5, None, None, None, None, 10);
    let found = registry.find_blocked(5).expect("registered agent");
    assert!(!found.blocked);
    assert!(registry.find_blocked(6).is_none());
}

#[test]
fn preferences_replace_per_project() {
    let mut prefs = PreferenceStore::new();
    prefs.set_preferences(1, 10, vec!["alpha".to_string()]);
    prefs.set_preferences(1, 11, vec!["beta".to_string()]);
    prefs.set_preferences(1, 10, vec!["gamma".to_string(), "delta".to_string()]);
    let stored = prefs.fetch_preferences(1, 10).expect("stored preference");
    assert_eq!(stored, vec!["gamma".to_string(), "delta".to_string()]);
    assert_eq!(
        prefs.fetch_preferences(1, 11).expect("other project"),
        vec!["beta".to_string()]
    );
    assert!(prefs.fetch_preferences(2, 10).is_none());
}

#[test]
fn hardware_snapshot_is_replaced_and_metrics_append() {
    let mut hardware = HardwareStore::new();
    hardware.set_hardware(1, "cpu-a".to_string());
    hardware.set_hardware(1, "cpu-b".to_string());
    assert_eq!(hardware.rows.len(), 1);
    assert_eq!(hardware.rows[0].1, "cpu-b");

    let mut log = MetricsLog::new();
    log.append_metrics(1, newral_core::sandbox::MetricsSample {
        cpu_load_pct: Some(10),
        ram_used_kb: Some(1),
        ram_total_kb: Some(2),
        gpu_load_pct: None,
    });
    log.append_metrics(1, newral_core::sandbox::MetricsSample {
        cpu_load_pct: Some(20),
        ram_used_kb: Some(1),
        ram_total_kb: Some(2),
        gpu_load_pct: None,
    });
    assert_eq!(log.rows.len(), 2);
    assert_eq!(log.rows[0].1.cpu_load_pct, Some(10));
}

#[test]
fn liveness_classifies_online_and_idle() {
    let mut tracker = LivenessTracker::new();
    tracker.record("node-a", 100);
    tracker.record("node-b", 50);
    tracker.record("node-a", 120);
    let summary = tracker.summarize(130, 30);
    assert_eq!(summary.len(), 2);
    assert_eq!(summary[0].id, "node-a");
    assert_eq!(summary[0].status, "online");
    assert_eq!(summary[0].last_seen_secs, 10);
    assert_eq!(summary[1].id, "node-b");
    assert_eq!(summary[1].status, "idle");
    assert_eq!(summary[1].last_seen_secs, 80);
}
