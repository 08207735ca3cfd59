//! Runs of external tools: what is to be run, how a run ended, and what that
//! means for the operation that asked for it.
//!
//! A run is given a bounded time. A tool that does not answer within it
//! counts as one that gave nothing, so that no request waits for ever.

use vstd::prelude::*;

verus! {

/// An external tool with the arguments to run it with.
#[derive(Clone, Debug, PartialEq, Eq)]
pub struct Invocation {
    pub program: String,
    pub args: Vec<String>,
}

pub struct InvocationView {
    pub program: Seq<char>,
    pub args: Seq<Seq<char>>,
}

impl View for Invocation {
    type V = InvocationView;

    open spec fn view(&self) -> InvocationView {
        InvocationView { program: self.program@, args: self.args.deep_view() }
    }
}

impl DeepView for Invocation {
    type V = InvocationView;

    open spec fn deep_view(&self) -> InvocationView {
        self@
    }
}

/// How the run of an external tool ended.
#[derive(Clone, Copy, Debug, PartialEq, Eq, Structural)]
pub enum ToolOutcome {
    /// The tool ran and exited with this code.
    Exited { code: i32 },
    /// The tool ran and was ended by a signal.
    Killed,
    /// The tool could not be started for lack of rights.
    Denied,
    /// The tool could not be started for another reason, as when it is not
    /// installed.
    Unavailable,
    /// The tool did not end within the time it was given.
    TimedOut,
}

/// Why a control operation failed.
#[derive(Clone, Copy, Debug, PartialEq, Eq, Structural)]
pub enum ControlError {
    /// The process or service that was named does not exist any more.
    TargetNotFound,
    /// The operation needs rights that the caller lacks.
    PermissionDenied,
    /// The external tool failed or reported failure.
    ExternalToolFailure,
}

/// What the end of a run means: success where the tool exited with code
/// zero, a lack of rights where it could not be started for that reason, and
/// a failure of the tool in every other case.
pub open spec fn verdict_of(outcome: ToolOutcome) -> Result<(), ControlError> {
    match outcome {
        ToolOutcome::Exited { code } => if code == 0 {
            Ok(())
        } else {
            Err(ControlError::ExternalToolFailure)
        },
        ToolOutcome::Killed => Err(ControlError::ExternalToolFailure),
        ToolOutcome::Denied => Err(ControlError::PermissionDenied),
        ToolOutcome::Unavailable => Err(ControlError::ExternalToolFailure),
        ToolOutcome::TimedOut => Err(ControlError::ExternalToolFailure),
    }
}

/// Tells what the end of a run means: see [`verdict_of`].
pub fn verdict(outcome: ToolOutcome) -> (result: Result<(), ControlError>)
    ensures
        result == verdict_of(outcome),
{
    match outcome {
        ToolOutcome::Exited { code } => if code == 0 {
            Ok(())
        } else {
            Err(ControlError::ExternalToolFailure)
        },
        ToolOutcome::Killed => Err(ControlError::ExternalToolFailure),
        ToolOutcome::Denied => Err(ControlError::PermissionDenied),
        ToolOutcome::Unavailable => Err(ControlError::ExternalToolFailure),
        ToolOutcome::TimedOut => Err(ControlError::ExternalToolFailure),
    }
}

/// What a tool printed is read where the run came to an end, whatever its
/// exit code. A run that did not start or ran out of time leaves nothing to
/// read.
pub open spec fn readable(outcome: ToolOutcome) -> bool {
    outcome is Exited || outcome is Killed
}

/// Tells whether the output of a run is to be read: see [`readable`].
pub fn is_readable(outcome: ToolOutcome) -> (yes: bool)
    ensures
        yes == readable(outcome),
{
    match outcome {
        ToolOutcome::Exited { .. } => true,
        ToolOutcome::Killed => true,
        _ => false,
    }
}

/// Tells whether a run succeeded: the tool ran and exited with code zero.
pub fn succeeded(outcome: ToolOutcome) -> (ok: bool)
    ensures
        ok == (outcome == ToolOutcome::Exited { code: 0 }),
        ok == (verdict_of(outcome) is Ok),
{
    match outcome {
        ToolOutcome::Exited { code } => code == 0,
        _ => false,
    }
}

/// The time that a tool is given to end, in milliseconds.
pub const TIME_LIMIT_MS: u64 = 5_000;

/// The pause between two looks at a running tool, in milliseconds.
pub const POLL_MS: u64 = 10;

/// What to do next with a tool that was started.
#[derive(Clone, Copy, Debug, PartialEq, Eq, Structural)]
pub enum WaitStep {
    /// The run has ended, in this way.
    Finish(ToolOutcome),
    /// The time is up: the tool is to be killed, and its run counts as
    /// [`ToolOutcome::TimedOut`].
    GiveUp,
    /// The tool is still running within its time: look again after a pause.
    Wait,
}

/// The next step of a wait. `ended` tells whether the tool has ended, and if
/// so with which exit code, or with none where a signal ended it. A tool that
/// has ended is finished however long it took; one that is still running is
/// given up once it has been waited for as long as the limit, and waited for
/// otherwise.
pub open spec fn wait_step_of(ended: Option<Option<i32>>, waited_ms: u64, limit_ms: u64) -> WaitStep {
    match ended {
        Some(Some(code)) => WaitStep::Finish(ToolOutcome::Exited { code }),
        Some(None) => WaitStep::Finish(ToolOutcome::Killed),
        None => if waited_ms >= limit_ms {
            WaitStep::GiveUp
        } else {
            WaitStep::Wait
        },
    }
}

/// Decides the next step of a wait: see [`wait_step_of`].
pub fn wait_step(ended: Option<Option<i32>>, waited_ms: u64, limit_ms: u64) -> (step: WaitStep)
    ensures
        step == wait_step_of(ended, waited_ms, limit_ms),
{
    match ended {
        Some(Some(code)) => WaitStep::Finish(ToolOutcome::Exited { code }),
        Some(None) => WaitStep::Finish(ToolOutcome::Killed),
        None => if waited_ms >= limit_ms {
            WaitStep::GiveUp
        } else {
            WaitStep::Wait
        },
    }
}

/// How a wait that took the step `step` ends: a finished run as it ended, a
/// run that was given up as timed out. A wait that goes on has not ended.
pub open spec fn end_of(step: WaitStep) -> Option<ToolOutcome> {
    match step {
        WaitStep::Finish(outcome) => Some(outcome),
        WaitStep::GiveUp => Some(ToolOutcome::TimedOut),
        WaitStep::Wait => None,
    }
}

/// Tells how a wait ends after a step: see [`end_of`].
pub fn wait_end(step: WaitStep) -> (end: Option<ToolOutcome>)
    ensures
        end == end_of(step),
{
    match step {
        WaitStep::Finish(outcome) => Some(outcome),
        WaitStep::GiveUp => Some(ToolOutcome::TimedOut),
        WaitStep::Wait => None,
    }
}

/// No wait goes on past its limit: once a tool has been waited for as long
/// as the limit, the wait ends, and a tool that outlasts it never counts as
/// having succeeded or as leaving anything to read.
pub proof fn lemma_wait_is_bounded(ended: Option<Option<i32>>, waited_ms: u64, limit_ms: u64)
    requires
        waited_ms >= limit_ms,
    ensures
        end_of(wait_step_of(ended, waited_ms, limit_ms)) is Some,
        ended is None ==> end_of(wait_step_of(ended, waited_ms, limit_ms)) == Some(
            ToolOutcome::TimedOut,
        ) && !readable(ToolOutcome::TimedOut) && verdict_of(ToolOutcome::TimedOut) is Err,
{
}

} // verus!
