//! The three-tier safety state machine.
//!
//! One interactive session resolves a query to a command together with a
//! safety flag, then decides whether the command auto-executes, waits for an
//! explanation, asks for confirmation, or — for a DANGER-tagged command —
//! only ever offers a clipboard hand-off. The machine here is pure: the
//! session loop feeds it events (explanation arrival or failure, key
//! presses, idle polls) and performs the action it returns.

use vstd::prelude::*;

verus! {

/// Session states. `Executed` and `Cancelled` are terminal.
#[derive(Clone, Copy, Debug, PartialEq, Eq, Structural)]
pub enum SafetyState {
    /// The command is safe and no explanation was asked for: it executes
    /// with zero keypresses.
    AutoExecute,
    /// Waiting for the explainer; keys are still live.
    AwaitExplanation,
    /// Explanation shown (or failed, or never requested): Enter executes.
    Confirm,
    /// Explanation was DANGER-tagged: Enter only copies to the clipboard.
    DangerConfirm,
    /// No execution happened and none will.
    Cancelled,
    /// The command text was handed to the caller for execution.
    Executed,
}

/// What the session loop observed in one poll iteration.
#[derive(Clone, Copy, Debug, PartialEq, Eq, Structural)]
pub enum SessionEvent {
    /// The explanation arrived; `danger` says whether it was DANGER-tagged.
    Explanation { danger: bool },
    /// The explainer reported a failure: fail open to manual confirmation.
    ExplanationFailed,
    /// The explanation channel closed without a result.
    ChannelClosed,
    /// Enter was pressed.
    Enter,
    /// Ctrl-C or Esc was pressed.
    Cancel,
    /// Nothing happened in this poll iteration.
    Tick,
}

/// What the session loop must do after a step.
#[derive(Clone, Copy, Debug, PartialEq, Eq, Structural)]
pub enum SessionAction {
    /// Nothing to do.
    Stay,
    /// Hand the command text to the caller for execution.
    Execute,
    /// Copy the command to the clipboard; never execute it.
    CopyToClipboard,
    /// Overwrite the reserved region with the explanation and show the
    /// matching confirmation prompt.
    ShowExplanation { danger: bool },
    /// The explanation failed: clear the reserved region and show the plain
    /// confirmation prompt.
    ShowPlainConfirm,
}

/// The state a session starts in, from the resolver's safety flag, whether
/// the query explicitly asked for an explanation, and whether an explanation
/// source exists at all.
pub open spec fn spec_initial_state(
    safe: bool,
    wants_explanation: bool,
    has_explainer: bool,
) -> SafetyState {
    if safe && !wants_explanation {
        SafetyState::AutoExecute
    } else if has_explainer {
        SafetyState::AwaitExplanation
    } else {
        SafetyState::Confirm
    }
}

/// The transition table: next state and required action for one event.
pub open spec fn spec_step(s: SafetyState, e: SessionEvent) -> (SafetyState, SessionAction) {
    match s {
        SafetyState::AutoExecute => (SafetyState::Executed, SessionAction::Execute),
        SafetyState::AwaitExplanation => match e {
            SessionEvent::Explanation { danger } => if danger {
                (SafetyState::DangerConfirm, SessionAction::ShowExplanation { danger: true })
            } else {
                (SafetyState::Confirm, SessionAction::ShowExplanation { danger: false })
            },
            SessionEvent::ExplanationFailed => (
                SafetyState::Confirm,
                SessionAction::ShowPlainConfirm,
            ),
            SessionEvent::ChannelClosed => (SafetyState::Confirm, SessionAction::Stay),
            SessionEvent::Enter => (SafetyState::Executed, SessionAction::Execute),
            SessionEvent::Cancel => (SafetyState::Cancelled, SessionAction::Stay),
            SessionEvent::Tick => (SafetyState::AwaitExplanation, SessionAction::Stay),
        },
        SafetyState::Confirm => match e {
            SessionEvent::Enter => (SafetyState::Executed, SessionAction::Execute),
            SessionEvent::Cancel => (SafetyState::Cancelled, SessionAction::Stay),
            _ => (SafetyState::Confirm, SessionAction::Stay),
        },
        SafetyState::DangerConfirm => match e {
            SessionEvent::Enter => (SafetyState::Cancelled, SessionAction::CopyToClipboard),
            SessionEvent::Cancel => (SafetyState::Cancelled, SessionAction::Stay),
            _ => (SafetyState::DangerConfirm, SessionAction::Stay),
        },
        SafetyState::Cancelled => (SafetyState::Cancelled, SessionAction::Stay),
        SafetyState::Executed => (SafetyState::Executed, SessionAction::Stay),
    }
}

/// Pick the state a session starts in.
pub fn initial_state(safe: bool, wants_explanation: bool, has_explainer: bool) -> (r:
    SafetyState)
    ensures
        r == spec_initial_state(safe, wants_explanation, has_explainer),
{
    if safe && !wants_explanation {
        SafetyState::AutoExecute
    } else if has_explainer {
        SafetyState::AwaitExplanation
    } else {
        SafetyState::Confirm
    }
}

/// Advance the machine by one observed event.
pub fn step(s: SafetyState, e: SessionEvent) -> (r: (SafetyState, SessionAction))
    ensures
        r == spec_step(s, e),
{
    match s {
        SafetyState::AutoExecute => (SafetyState::Executed, SessionAction::Execute),
        SafetyState::AwaitExplanation => match e {
            SessionEvent::Explanation { danger } => if danger {
                (SafetyState::DangerConfirm, SessionAction::ShowExplanation { danger: true })
            } else {
                (SafetyState::Confirm, SessionAction::ShowExplanation { danger: false })
            },
            SessionEvent::ExplanationFailed => (
                SafetyState::Confirm,
                SessionAction::ShowPlainConfirm,
            ),
            SessionEvent::ChannelClosed => (SafetyState::Confirm, SessionAction::Stay),
            SessionEvent::Enter => (SafetyState::Executed, SessionAction::Execute),
            SessionEvent::Cancel => (SafetyState::Cancelled, SessionAction::Stay),
            SessionEvent::Tick => (SafetyState::AwaitExplanation, SessionAction::Stay),
        },
        SafetyState::Confirm => match e {
            SessionEvent::Enter => (SafetyState::Executed, SessionAction::Execute),
            SessionEvent::Cancel => (SafetyState::Cancelled, SessionAction::Stay),
            _ => (SafetyState::Confirm, SessionAction::Stay),
        },
        SafetyState::DangerConfirm => match e {
            SessionEvent::Enter => (SafetyState::Cancelled, SessionAction::CopyToClipboard),
            SessionEvent::Cancel => (SafetyState::Cancelled, SessionAction::Stay),
            _ => (SafetyState::DangerConfirm, SessionAction::Stay),
        },
        SafetyState::Cancelled => (SafetyState::Cancelled, SessionAction::Stay),
        SafetyState::Executed => (SafetyState::Executed, SessionAction::Stay),
    }
}

/// The run of a session: the final state and the action emitted at each
/// event, in order.
pub open spec fn spec_run(s: SafetyState, events: Seq<SessionEvent>) -> (SafetyState, Seq<
    SessionAction,
>)
    decreases events.len(),
{
    if events.len() == 0 {
        (s, seq![])
    } else {
        let first = spec_step(s, events[0]);
        let rest = spec_run(first.0, events.drop_first());
        (rest.0, seq![first.1] + rest.1)
    }
}

/// One action is emitted per event.
pub proof fn lemma_run_len(s: SafetyState, events: Seq<SessionEvent>)
    ensures
        spec_run(s, events).1.len() == events.len(),
    decreases events.len(),
{
    if events.len() > 0 {
        lemma_run_len(spec_step(s, events[0]).0, events.drop_first());
    }
}

/// No transition creates the `AutoExecute` state: it only ever holds at the
/// start of a session, for a safe command with no explanation intent.
pub proof fn lemma_auto_execute_only_initial(s: SafetyState, e: SessionEvent)
    ensures
        spec_step(s, e).0 != SafetyState::AutoExecute,
{
}

/// A safe command without explicit explanation intent reaches `Executed`
/// with zero keypresses: the session starts in `AutoExecute`, and the very
/// first poll iteration — whatever it observes, a key or nothing at all —
/// emits `Execute` and lands in `Executed`, where every later event is
/// ignored.
pub proof fn lemma_safe_auto_executes(has_explainer: bool, events: Seq<SessionEvent>)
    requires
        events.len() >= 1,
    ensures
        spec_initial_state(true, false, has_explainer) == SafetyState::AutoExecute,
        spec_run(SafetyState::AutoExecute, events).0 == SafetyState::Executed,
        spec_run(SafetyState::AutoExecute, events).1[0] == SessionAction::Execute,
{
    lemma_terminal_stays(SafetyState::Executed, events.drop_first());
}

/// A terminal state absorbs every event without emitting any action.
pub proof fn lemma_terminal_stays(s: SafetyState, events: Seq<SessionEvent>)
    requires
        s == SafetyState::Executed || s == SafetyState::Cancelled,
    ensures
        spec_run(s, events).0 == s,
        forall|i: int|
            0 <= i < spec_run(s, events).1.len() ==> spec_run(s, events).1[i]
                == SessionAction::Stay,
    decreases events.len(),
{
    if events.len() > 0 {
        lemma_terminal_stays(s, events.drop_first());
        assert forall|i: int| 0 <= i < spec_run(s, events).1.len() implies spec_run(
            s,
            events,
        ).1[i] == SessionAction::Stay by {
            if i > 0 {
                assert(spec_run(s, events).1[i] == spec_run(s, events.drop_first()).1[i - 1]);
            }
        }
    }
}

/// An unsafe command is never executed without explicit confirmation: a
/// session that does not start in `AutoExecute` — in particular one for a
/// `safe == false` command, which starts in `AwaitExplanation` — emits
/// `Execute` only at an `Enter` keypress.
pub proof fn lemma_no_execution_without_confirmation(s: SafetyState, events: Seq<SessionEvent>)
    requires
        s != SafetyState::AutoExecute,
    ensures
        forall|i: int|
            0 <= i < spec_run(s, events).1.len() && spec_run(s, events).1[i]
                == SessionAction::Execute ==> events[i] == SessionEvent::Enter,
    decreases events.len(),
{
    lemma_run_len(s, events);
    if events.len() > 0 {
        let s1 = spec_step(s, events[0]).0;
        lemma_run_len(s1, events.drop_first());
        lemma_auto_execute_only_initial(s, events[0]);
        lemma_no_execution_without_confirmation(s1, events.drop_first());
        assert forall|i: int|
            0 <= i < spec_run(s, events).1.len() && spec_run(s, events).1[i]
                == SessionAction::Execute implies events[i] == SessionEvent::Enter by {
            if i > 0 {
                assert(spec_run(s, events).1[i] == spec_run(s1, events.drop_first()).1[i - 1]);
                assert(events.drop_first()[i - 1] == events[i]);
            }
        }
    }
}

/// For a `safe == false` command the machine never auto-executes: whatever
/// the query asked and whether or not an explainer exists, every `Execute`
/// the session emits coincides with an `Enter` keypress — execution waits
/// for explicit confirmation.
pub proof fn lemma_unsafe_needs_enter(
    wants_explanation: bool,
    has_explainer: bool,
    events: Seq<SessionEvent>,
)
    ensures
        ({
            let start = spec_initial_state(false, wants_explanation, has_explainer);
            forall|i: int|
                0 <= i < spec_run(start, events).1.len() && spec_run(start, events).1[i]
                    == SessionAction::Execute ==> events[i] == SessionEvent::Enter
        }),
{
    lemma_no_execution_without_confirmation(
        spec_initial_state(false, wants_explanation, has_explainer),
        events,
    );
}

/// A DANGER-tagged command is never executed: the DANGER explanation moves
/// the session to `DangerConfirm`; from there no run ever reaches `Executed`
/// and no step ever emits `Execute` — `Enter` gives only the clipboard
/// hand-off, then the session is cancelled.
pub proof fn lemma_danger_never_executed(events: Seq<SessionEvent>)
    ensures
        spec_step(SafetyState::AwaitExplanation, SessionEvent::Explanation { danger: true }).0
            == SafetyState::DangerConfirm,
        spec_step(SafetyState::DangerConfirm, SessionEvent::Enter) == (
            SafetyState::Cancelled,
            SessionAction::CopyToClipboard,
        ),
        spec_run(SafetyState::DangerConfirm, events).0 != SafetyState::Executed,
        forall|i: int|
            0 <= i < spec_run(SafetyState::DangerConfirm, events).1.len() ==> spec_run(
                SafetyState::DangerConfirm,
                events,
            ).1[i] != SessionAction::Execute,
{
    lemma_danger_closed(SafetyState::DangerConfirm, events);
}

/// From `DangerConfirm` the only reachable states are `DangerConfirm` and
/// `Cancelled`, and no step on the way emits `Execute`.
pub proof fn lemma_danger_closed(s: SafetyState, events: Seq<SessionEvent>)
    requires
        s == SafetyState::DangerConfirm || s == SafetyState::Cancelled,
    ensures
        spec_run(s, events).0 == SafetyState::DangerConfirm || spec_run(s, events).0
            == SafetyState::Cancelled,
        forall|i: int|
            0 <= i < spec_run(s, events).1.len() ==> spec_run(s, events).1[i]
                != SessionAction::Execute,
    decreases events.len(),
{
    if events.len() > 0 {
        let s1 = spec_step(s, events[0]).0;
        lemma_danger_closed(s1, events.drop_first());
        assert forall|i: int| 0 <= i < spec_run(s, events).1.len() implies spec_run(
            s,
            events,
        ).1[i] != SessionAction::Execute by {
            if i > 0 {
                assert(spec_run(s, events).1[i] == spec_run(s1, events.drop_first()).1[i - 1]);
            }
        }
    }
}

} // verus!
