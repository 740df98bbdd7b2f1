//! The daemon supervisor's decisions.
//!
//! The daemon keeps remote sessions warm and serves request lines over the
//! local endpoint. Its loop is driven entirely by the pure functions here:
//! each iteration compares the elapsed time against the idle threshold,
//! takes one pending connection if there is one, and otherwise sleeps one
//! quantum. Request lines are read with the protocol parser; every reply —
//! including the reply to a malformed line — is a well-formed response.

use vstd::prelude::*;

use crate::ipc::enc_response;
use crate::ipc::resp_of_line;
use crate::ipc::IpcResponse;
use crate::ipc::IpcResponseV;
use crate::prompt::CommandResult;

verus! {

/// Seconds of inactivity after which the daemon shuts down.
pub const DAEMON_IDLE_TIMEOUT_SECS: u64 = 300;

/// Seconds between two keep-alive refreshes of a remote session; shorter
/// than the remote side's own idle-close window.
pub const KEEP_ALIVE_INTERVAL_SECS: u64 = 30;

/// Milliseconds the loop sleeps when nothing is pending.
pub const POLL_SLEEP_MILLIS: u64 = 10;

/// What one loop iteration does.
#[derive(Clone, Copy, Debug, PartialEq, Eq, Structural)]
pub enum DaemonStep {
    /// The idle threshold is exceeded: release the endpoint and stop.
    Shutdown,
    /// A connection is pending: read one request, write one response.
    HandleConnection,
    /// Nothing to do: sleep one quantum.
    Sleep,
}

/// The idle test: some time has passed and the last accepted request is
/// longer ago than the threshold.
pub open spec fn spec_timed_out(elapsed: u64, last_activity: u64, timeout: u64) -> bool {
    elapsed > 0 && elapsed - last_activity > timeout
}

/// What the loop decides from one poll: the idle test comes first, then a
/// pending connection, then sleep.
pub open spec fn spec_tick(
    elapsed: u64,
    last_activity: u64,
    timeout: u64,
    has_connection: bool,
) -> DaemonStep {
    if spec_timed_out(elapsed, last_activity, timeout) {
        DaemonStep::Shutdown
    } else if has_connection {
        DaemonStep::HandleConnection
    } else {
        DaemonStep::Sleep
    }
}

/// The daemon's mutable state: when the last request was accepted, and
/// whether shutdown was requested. Last-activity only ever moves forward.
pub struct DaemonState {
    /// Seconds from daemon start to the last accepted request; zero at
    /// start.
    pub last_activity: u64,
    /// Set once, on shutdown; read by the keep-alive tasks.
    pub shutdown: bool,
}

impl DaemonState {
    /// The state at daemon start.
    pub fn start() -> (r: DaemonState)
        ensures
            r.last_activity == 0,
            !r.shutdown,
    {
        DaemonState { last_activity: 0, shutdown: false }
    }

    /// Record an accepted request. Time only moves forward, so the
    /// last-activity stamp is monotonically non-decreasing.
    pub fn record_activity(&mut self, elapsed: u64)
        requires
            old(self).last_activity <= elapsed,
        ensures
            final(self).last_activity == elapsed,
            final(self).last_activity >= old(self).last_activity,
            final(self).shutdown == old(self).shutdown,
    {
        self.last_activity = elapsed;
    }

    /// Raise the shutdown flag for the keep-alive tasks.
    pub fn request_shutdown(&mut self)
        ensures
            final(self).shutdown,
            final(self).last_activity == old(self).last_activity,
    {
        self.shutdown = true;
    }

    /// Decide one loop iteration.
    pub fn tick(&self, elapsed: u64, timeout: u64, has_connection: bool) -> (r: DaemonStep)
        requires
            self.last_activity <= elapsed,
        ensures
            r == spec_tick(elapsed, self.last_activity, timeout, has_connection),
    {
        if elapsed > 0 && elapsed - self.last_activity > timeout {
            DaemonStep::Shutdown
        } else if has_connection {
            DaemonStep::HandleConnection
        } else {
            DaemonStep::Sleep
        }
    }
}

/// One poll observation: how many seconds have elapsed since start, and
/// whether a connection is pending.
pub struct PollObs {
    pub elapsed: u64,
    pub conn: bool,
}

/// The index at which the loop shuts down, given the observations of every
/// iteration in order, or `None` if it never does.
pub open spec fn spec_daemon_run(last: u64, polls: Seq<PollObs>, timeout: u64) -> Option<int>
    decreases polls.len(),
{
    if polls.len() == 0 {
        None
    } else {
        let p = polls[0];
        if spec_timed_out(p.elapsed, last, timeout) {
            Some(0)
        } else {
            let next_last = if p.conn {
                p.elapsed
            } else {
                last
            };
            match spec_daemon_run(next_last, polls.drop_first(), timeout) {
                Some(i) => Some(i + 1),
                None => None,
            }
        }
    }
}

/// The idle timeout is honoured: if no connection is accepted up to some
/// poll whose elapsed time exceeds the threshold past the last activity,
/// the loop terminates by that poll.
pub proof fn lemma_idle_timeout_terminates(
    last: u64,
    polls: Seq<PollObs>,
    timeout: u64,
    i: int,
)
    requires
        0 <= i < polls.len(),
        forall|j: int| 0 <= j <= i ==> !polls[j].conn,
        polls[i].elapsed > 0,
        polls[i].elapsed - last > timeout,
    ensures
        spec_daemon_run(last, polls, timeout) is Some,
        spec_daemon_run(last, polls, timeout).unwrap() <= i,
    decreases i,
{
    let p = polls[0];
    if spec_timed_out(p.elapsed, last, timeout) {
    } else {
        assert(i > 0);
        assert(!p.conn);
        let rest = polls.drop_first();
        assert(forall|j: int| 0 <= j <= i - 1 ==> !rest[j].conn);
        assert(rest[i - 1] == polls[i]);
        lemma_idle_timeout_terminates(last, rest, timeout, i - 1);
    }
}

/// The fixed diagnostic for a request line that does not parse.
pub open spec fn spec_invalid_request_text() -> Seq<char> {
    "Invalid request: not a valid request line"@
}

/// The fixed diagnostic for a connection whose request could not be read.
pub open spec fn spec_read_failed_text() -> Seq<char> {
    "Failed to read request"@
}

/// The reply to a malformed request line: a failure with the fixed
/// diagnostic, never a crash.
pub fn malformed_response() -> (r: IpcResponse)
    ensures
        r@.wf(),
        !r@.success,
        r@.result is None,
        r@.error == Some(spec_invalid_request_text()),
{
    proof {
        reveal_strlit("Invalid request: not a valid request line");
    }
    IpcResponse {
        success: false,
        result: None,
        error: Some(String::from_str("Invalid request: not a valid request line")),
    }
}

/// The reply to a connection whose request could not be read at all.
pub fn read_failed_response() -> (r: IpcResponse)
    ensures
        r@.wf(),
        !r@.success,
        r@.result is None,
        r@.error == Some(spec_read_failed_text()),
{
    proof {
        reveal_strlit("Failed to read request");
    }
    IpcResponse {
        success: false,
        result: None,
        error: Some(String::from_str("Failed to read request")),
    }
}

/// What a remote outcome's error reads as on the wire: the reason itself,
/// or a fixed word where the reason is empty, so that a failed response
/// always names one.
pub open spec fn spec_error_text(e: Seq<char>) -> Seq<char> {
    if e.len() == 0 {
        "Unknown error"@
    } else {
        e
    }
}

/// The reply carrying a remote text outcome: success with the text, or
/// failure with the reason.
pub fn outcome_response(outcome: Result<String, String>) -> (r: IpcResponse)
    ensures
        r@.wf(),
        r@.success == outcome is Ok,
        outcome is Ok ==> r@.result == Some(outcome.unwrap()@) && r@.error is None,
        outcome is Err ==> r@.result is None && r@.error == Some(
            spec_error_text(outcome.unwrap_err()@),
        ),
{
    proof {
        reveal_strlit("Unknown error");
    }
    match outcome {
        Ok(text) => IpcResponse { success: true, result: Some(text), error: None },
        Err(e) => {
            let msg = if e.as_str().is_empty() {
                String::from_str("Unknown error")
            } else {
                e
            };
            IpcResponse { success: false, result: None, error: Some(msg) }
        },
    }
}

/// The reply carrying the resolver's outcome: the command text alone goes
/// back over the wire.
pub fn command_response(outcome: Result<CommandResult, String>) -> (r: IpcResponse)
    ensures
        r@.wf(),
        r@.success == outcome is Ok,
        outcome is Ok ==> r@.result == Some(outcome.unwrap().command@) && r@.error is None,
        outcome is Err ==> r@.result is None && r@.error == Some(
            spec_error_text(outcome.unwrap_err()@),
        ),
{
    match outcome {
        Ok(cr) => outcome_response(Ok(cr.command)),
        Err(e) => outcome_response(Err(e)),
    }
}

/// The daemon never crashes on a bad line, and never answers one with
/// success: the reply written for a malformed request parses back as a
/// failure that names a reason.
pub proof fn lemma_malformed_reply_is_failure()
    ensures
        ({
            let v = IpcResponseV {
                success: false,
                result: None,
                error: Some(spec_invalid_request_text()),
            };
            &&& resp_of_line(enc_response(v)) == Some(v)
            &&& v.wf()
            &&& !v.success
            &&& v.error.unwrap().len() > 0
        }),
{
    reveal_strlit("Invalid request: not a valid request line");
    let v = IpcResponseV {
        success: false,
        result: None,
        error: Some(spec_invalid_request_text()),
    };
    crate::ipc::lemma_response_roundtrip(v);
}

/// The state of the lazily-initialised explainer handle: the client is
/// created on the first explain request, and warmed once.
pub struct ExplainerCell {
    pub has_client: bool,
    pub warmed: bool,
}

/// What must happen before an explain request can be served.
#[derive(Clone, Copy, Debug, PartialEq, Eq, Structural)]
pub enum ExplainerPlan {
    /// No key is configured and no client exists: fail the request.
    MissingKey,
    /// Serve it, creating the client first and warming it first where the
    /// flags say so.
    Proceed { create: bool, warm: bool },
}

/// The plan for serving one explain request in the given cell state.
pub open spec fn spec_explainer_plan(cell: ExplainerCell, has_key: bool) -> ExplainerPlan {
    if !cell.has_client && !has_key {
        ExplainerPlan::MissingKey
    } else {
        ExplainerPlan::Proceed { create: !cell.has_client, warm: !cell.warmed }
    }
}

impl ExplainerCell {
    /// The cell before any explain request: nothing created, nothing warm.
    pub fn new() -> (r: ExplainerCell)
        ensures
            !r.has_client,
            !r.warmed,
    {
        ExplainerCell { has_client: false, warmed: false }
    }

    /// Decide what the daemon must do before serving an explain request.
    pub fn plan(&self, has_key: bool) -> (r: ExplainerPlan)
        ensures
            r == spec_explainer_plan(*self, has_key),
    {
        if !self.has_client && !has_key {
            ExplainerPlan::MissingKey
        } else {
            ExplainerPlan::Proceed { create: !self.has_client, warm: !self.warmed }
        }
    }

    /// Record that the client now exists and has been warmed.
    pub fn mark_ready(&mut self)
        ensures
            final(self).has_client,
            final(self).warmed,
    {
        self.has_client = true;
        self.warmed = true;
    }
}

/// The error a missing explainer key is reported with.
pub fn missing_key_error() -> (r: String)
    ensures
        r@ == "GEMINI_API_KEY not set. Set it to enable command explanations."@,
        r@.len() > 0,
{
    proof {
        reveal_strlit("GEMINI_API_KEY not set. Set it to enable command explanations.");
    }
    String::from_str("GEMINI_API_KEY not set. Set it to enable command explanations.")
}

} // verus!
