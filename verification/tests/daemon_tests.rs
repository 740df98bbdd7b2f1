use slashcmd::daemon::malformed_response;
use slashcmd::daemon::missing_key_error;
use slashcmd::daemon::read_failed_response;
use slashcmd::daemon::DaemonState;
use slashcmd::daemon::DaemonStep;
use slashcmd::daemon::ExplainerCell;
use slashcmd::daemon::ExplainerPlan;
use slashcmd::daemon::DAEMON_IDLE_TIMEOUT_SECS;

#[test]
fn idle_timeout_shuts_the_loop_down() {
    // With no accepted connection past the threshold the loop terminates.
    let st = DaemonState::start();
    let t = DAEMON_IDLE_TIMEOUT_SECS;
    assert_eq!(st.tick(t + 1, t, false), DaemonStep::Shutdown);
    // Even a pending connection does not outrank the idle check.
    assert_eq!(st.tick(t + 1, t, true), DaemonStep::Shutdown);
    // Within the threshold the loop serves or sleeps.
    assert_eq!(st.tick(t, t, false), DaemonStep::Sleep);
    assert_eq!(st.tick(5, t, true), DaemonStep::HandleConnection);
    // At the very start nothing has elapsed and nothing shuts down.
    assert_eq!(st.tick(0, t, false), DaemonStep::Sleep);
}

#[test]
fn activity_resets_the_idle_window() {
    let mut st = DaemonState::start();
    assert_eq!(st.last_activity, 0);
    st.record_activity(100);
    assert_eq!(st.last_activity, 100);
    let t = DAEMON_IDLE_TIMEOUT_SECS;
    assert_eq!(st.tick(100 + t, t, false), DaemonStep::Sleep);
    assert_eq!(st.tick(101 + t, t, false), DaemonStep::Shutdown);
    assert!(!st.shutdown);
    st.request_shutdown();
    assert!(st.shutdown);
}

#[test]
fn failure_responses_always_name_a_reason() {
    let m = malformed_response();
    assert!(!m.success);
    assert!(m.result.is_none());
    assert!(!m.error.unwrap().is_empty());
    let r = read_failed_response();
    assert!(!r.success);
    assert_eq!(r.error.unwrap(), "Failed to read request");
}

#[test]
fn explainer_cell_is_lazy_and_warms_once() {
    let mut cell = ExplainerCell::new();
    // No key and no client: the request must fail, with the fixed reason.
    assert_eq!(cell.plan(false), ExplainerPlan::MissingKey);
    assert_eq!(
        missing_key_error(),
        "GEMINI_API_KEY not set. Set it to enable command explanations."
    );
    // A key: create and warm on first use.
    assert_eq!(cell.plan(true), ExplainerPlan::Proceed { create: true, warm: true });
    cell.mark_ready();
    // Later requests reuse the warm client, even without the key in hand.
    assert_eq!(cell.plan(false), ExplainerPlan::Proceed { create: false, warm: false });
    assert_eq!(cell.plan(true), ExplainerPlan::Proceed { create: false, warm: false });
}
