use slashcmd::safety::initial_state;
use slashcmd::safety::step;
use slashcmd::safety::SafetyState;
use slashcmd::safety::SessionAction;
use slashcmd::safety::SessionEvent;
use slashcmd::tui::explanation_is_danger;
use slashcmd::tui::session_outcome;
use slashcmd::tui::wants_explanation;
use slashcmd::tui::TuiResult;
use slashcmd::prompt::parse_response;

#[test]
fn safe_query_auto_executes_with_zero_keypresses() {
    // The resolver says the command is safe and the query has no explanation
    // intent: the very first poll, with no key pressed, executes.
    let r = parse_response("{\"command\": \"ls -la\", \"safe\": true}").unwrap();
    assert!(r.safe);
    assert!(!wants_explanation("list files"));
    let s0 = initial_state(r.safe, false, true);
    assert_eq!(s0, SafetyState::AutoExecute);
    let (s1, a1) = step(s0, SessionEvent::Tick);
    assert_eq!(s1, SafetyState::Executed);
    assert_eq!(a1, SessionAction::Execute);
    match session_outcome(s1, &r.command).unwrap() {
        TuiResult::Execute(c) => assert_eq!(c, "ls -la"),
        TuiResult::Cancel => panic!("safe command must execute"),
    }
}

#[test]
fn explain_keyword_suppresses_auto_execution() {
    // The query asks for an explanation, so even a safe command waits.
    assert!(wants_explanation("explain list files"));
    assert!(wants_explanation("EXPLAIN it"));
    let s0 = initial_state(true, true, true);
    assert_eq!(s0, SafetyState::AwaitExplanation);
    let (s1, a1) = step(s0, SessionEvent::Explanation { danger: false });
    assert_eq!(s1, SafetyState::Confirm);
    assert_eq!(a1, SessionAction::ShowExplanation { danger: false });
    let (s2, a2) = step(s1, SessionEvent::Enter);
    assert_eq!(s2, SafetyState::Executed);
    assert_eq!(a2, SessionAction::Execute);
}

#[test]
fn danger_enter_copies_and_cancels() {
    // An unsafe command whose explanation is DANGER-tagged: Enter only
    // copies to the clipboard and the session ends cancelled.
    let r = parse_response("{\"command\": \"rm -rf /tmp/x\", \"safe\": false}").unwrap();
    assert!(!r.safe);
    let s0 = initial_state(r.safe, false, true);
    assert_eq!(s0, SafetyState::AwaitExplanation);
    let exp = "[DANGER] Recursively deletes the directory.";
    assert!(explanation_is_danger(exp));
    let (s1, a1) = step(s0, SessionEvent::Explanation { danger: true });
    assert_eq!(s1, SafetyState::DangerConfirm);
    assert_eq!(a1, SessionAction::ShowExplanation { danger: true });
    let (s2, a2) = step(s1, SessionEvent::Enter);
    assert_eq!(s2, SafetyState::Cancelled);
    assert_eq!(a2, SessionAction::CopyToClipboard);
    assert!(a2 != SessionAction::Execute);
    match session_outcome(s2, &r.command).unwrap() {
        TuiResult::Cancel => {},
        TuiResult::Execute(_) => panic!("a DANGER command must never execute"),
    }
}

#[test]
fn danger_session_never_reaches_executed() {
    // Drive the machine from DangerConfirm with every event: no step emits
    // Execute and no state is Executed.
    let events = [
        SessionEvent::Tick,
        SessionEvent::Explanation { danger: true },
        SessionEvent::Explanation { danger: false },
        SessionEvent::ExplanationFailed,
        SessionEvent::ChannelClosed,
        SessionEvent::Enter,
        SessionEvent::Cancel,
    ];
    for first in events.iter() {
        let mut s = SafetyState::DangerConfirm;
        for e in events.iter() {
            let (s1, a) = step(s, if s == SafetyState::DangerConfirm { *first } else { *e });
            assert!(a != SessionAction::Execute);
            assert!(s1 != SafetyState::Executed);
            s = s1;
        }
    }
}

#[test]
fn unsafe_command_waits_for_explanation_or_confirmation() {
    // safe == false: nothing executes on ticks alone.
    let s0 = initial_state(false, false, true);
    assert_eq!(s0, SafetyState::AwaitExplanation);
    let (s1, a1) = step(s0, SessionEvent::Tick);
    assert_eq!(s1, SafetyState::AwaitExplanation);
    assert_eq!(a1, SessionAction::Stay);
    // A failed explanation falls open to manual confirmation.
    let (s2, a2) = step(s1, SessionEvent::ExplanationFailed);
    assert_eq!(s2, SafetyState::Confirm);
    assert_eq!(a2, SessionAction::ShowPlainConfirm);
    // Cancel never executes.
    let (s3, a3) = step(s2, SessionEvent::Cancel);
    assert_eq!(s3, SafetyState::Cancelled);
    assert_eq!(a3, SessionAction::Stay);
}

#[test]
fn no_explainer_goes_straight_to_confirm() {
    let s0 = initial_state(false, false, false);
    assert_eq!(s0, SafetyState::Confirm);
    let (s1, a1) = step(s0, SessionEvent::Enter);
    assert_eq!(s1, SafetyState::Executed);
    assert_eq!(a1, SessionAction::Execute);
}

#[test]
fn terminal_states_absorb_events() {
    for s in [SafetyState::Executed, SafetyState::Cancelled] {
        let (s1, a1) = step(s, SessionEvent::Enter);
        assert_eq!(s1, s);
        assert_eq!(a1, SessionAction::Stay);
    }
}
