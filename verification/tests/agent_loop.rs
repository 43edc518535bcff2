use newral_core::agent::batch_request_bounds;
use newral_core::agent::classify_batch_reply;
use newral_core::agent::next_phase;
use newral_core::agent::pick_in_range;
use newral_core::agent::run_loop_step;
use newral_core::agent::AgentEvent;
use newral_core::agent::AgentPhase;
use newral_core::agent::FetchOutcome;
use newral_core::agent::RunStep;

#[test]
fn lifecycle_walks_start_to_stop() {
    let mut phase = AgentPhase::Starting;
    phase = next_phase(phase, AgentEvent::BeginRegistration);
    assert_eq!(phase, AgentPhase::Registering);
    phase = next_phase(phase, AgentEvent::Registered { blocked: false });
    assert_eq!(phase, AgentPhase::Running);
    phase = next_phase(phase, AgentEvent::Pause);
    assert_eq!(phase, AgentPhase::Paused);
    phase = next_phase(phase, AgentEvent::Resume);
    assert_eq!(phase, AgentPhase::Running);
    phase = next_phase(phase, AgentEvent::StopRequested);
    assert_eq!(phase, AgentPhase::Stopping);
    phase = next_phase(phase, AgentEvent::Halted);
    assert_eq!(phase, AgentPhase::Stopped);
}

#[test]
fn blocked_phase_absorbs_every_event() {
    let blocked = next_phase(AgentPhase::Registering, AgentEvent::Registered { blocked: true });
    assert_eq!(blocked, AgentPhase::Blocked);
    assert_eq!(next_phase(blocked, AgentEvent::Resume), AgentPhase::Blocked);
    assert_eq!(next_phase(blocked, AgentEvent::StopRequested), AgentPhase::Blocked);
    assert_eq!(next_phase(blocked, AgentEvent::BeginRegistration), AgentPhase::Blocked);
}

#[test]
fn run_loop_prefers_stop_then_pause_then_fetch() {
    assert_eq!(run_loop_step(true, false, false, 3), RunStep::Exit);
    assert_eq!(run_loop_step(false, true, false, 3), RunStep::Exit);
    assert_eq!(run_loop_step(false, false, true, 3), RunStep::BackOff);
    assert_eq!(run_loop_step(false, false, false, 0), RunStep::FetchBatch);
    assert_eq!(run_loop_step(false, false, false, 2), RunStep::RunNext);
}

#[test]
fn batch_reply_classification() {
    assert_eq!(classify_batch_reply(Some(true), "allow", 3, 3), FetchOutcome::MarkBlocked);
    assert_eq!(classify_batch_reply(None, "deny", 3, 3), FetchOutcome::NoWork);
    assert_eq!(classify_batch_reply(Some(false), "allow", 0, 3), FetchOutcome::NoWork);
    assert_eq!(classify_batch_reply(None, "allow", 3, 0), FetchOutcome::NoWork);
    assert_eq!(classify_batch_reply(None, "limit", 2, 2), FetchOutcome::Enqueue);
}

#[test]
fn batch_bounds_are_sane() {
    assert_eq!(batch_request_bounds(0, 0), (1, 1));
    assert_eq!(batch_request_bounds(3, 8), (3, 8));
    assert_eq!(batch_request_bounds(5, 2), (5, 5));
}

#[test]
fn picked_values_stay_in_range() {
    for roll in 0..20u64 {
        let v = pick_in_range(15, 180, roll);
        assert!((15..=180).contains(&v));
    }
    assert_eq!(pick_in_range(7, 7, 999), 7);
}
