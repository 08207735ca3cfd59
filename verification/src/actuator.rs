//! Control of processes: ending, suspending and resuming a process by a
//! signal, and changing its scheduling priority by a tier.
//!
//! Nothing here acts on the host. Each operation says what is to be done;
//! the caller does it and reports how it went. A target that is gone is an
//! ordinary outcome, never a fault.

use crate::command::{ControlError, Invocation, InvocationView};
use crate::snapshot::{has_pid, HostSnapshot, HostSnapshotView};
use crate::text::{decimal, push_decimal, same_text, signed_decimal, signed_decimal_string};
use vstd::prelude::*;

verus! {

/// The signals that control a process.
#[derive(Clone, Copy, Debug, PartialEq, Eq, Structural)]
pub enum Signal {
    /// Ends the process at once.
    Kill,
    /// Stops the process until it is continued.
    Stop,
    /// Continues a stopped process.
    Continue,
}

/// The number that the operating system gives a signal.
pub open spec fn signal_number(signal: Signal) -> nat {
    match signal {
        Signal::Kill => 9,
        Signal::Stop => 19,
        Signal::Continue => 18,
    }
}

/// A signal to be delivered to a process.
#[derive(Clone, Copy, Debug, PartialEq, Eq, Structural)]
pub struct SignalRequest {
    pub pid: u32,
    pub signal: Signal,
}

/// What is to be done to end the process `pid`: the kill signal is to be
/// delivered where the snapshot holds the process, and the operation fails
/// for want of a target where it does not.
pub open spec fn terminate_plan(snapshot: HostSnapshotView, pid: u32) -> Result<
    SignalRequest,
    ControlError,
> {
    if has_pid(snapshot.processes, pid) {
        Ok(SignalRequest { pid, signal: Signal::Kill })
    } else {
        Err(ControlError::TargetNotFound)
    }
}

/// Plans the end of the process `pid`: see [`terminate_plan`]. The snapshot is
/// taken as it is and not refreshed, so a process that has gone since is
/// still signalled, and the delivery then fails.
pub fn terminate(snapshot: &HostSnapshot, pid: u32) -> (plan: Result<SignalRequest, ControlError>)
    ensures
        plan == terminate_plan(snapshot@, pid),
{
    if snapshot.contains_process(pid) {
        Ok(SignalRequest { pid, signal: Signal::Kill })
    } else {
        Err(ControlError::TargetNotFound)
    }
}

/// The request that suspends the process `pid`. Whether the process exists is
/// not looked up: the delivery tells.
pub fn suspend(pid: u32) -> (request: SignalRequest)
    ensures
        request == (SignalRequest { pid, signal: Signal::Stop }),
{
    SignalRequest { pid, signal: Signal::Stop }
}

/// The request that resumes the process `pid`.
pub fn resume(pid: u32) -> (request: SignalRequest)
    ensures
        request == (SignalRequest { pid, signal: Signal::Continue }),
{
    SignalRequest { pid, signal: Signal::Continue }
}

/// The run of the `kill` tool that delivers a signal: the signal's number
/// behind a dash, then the process id.
pub open spec fn signal_command_of(request: SignalRequest) -> InvocationView {
    InvocationView {
        program: "kill"@,
        args: seq![seq!['-'] + decimal(signal_number(request.signal)), decimal(request.pid as nat)],
    }
}

/// The run of the `kill` tool that delivers a signal: see
/// [`signal_command_of`].
pub fn signal_command(request: SignalRequest) -> (run: Invocation)
    ensures
        run@ == signal_command_of(request),
{
    let number: u64 = match request.signal {
        Signal::Kill => 9,
        Signal::Stop => 19,
        Signal::Continue => 18,
    };
    let mut flag = String::new();
    flag.push('-');
    push_decimal(&mut flag, number);
    let mut target = String::new();
    push_decimal(&mut target, request.pid as u64);
    assert(target@ =~= decimal(request.pid as nat));
    let mut args: Vec<String> = Vec::new();
    args.push(flag);
    args.push(target);
    assert(args.deep_view() =~= signal_command_of(request).args);
    Invocation { program: "kill".to_owned(), args }
}

/// How a planned operation ended, given whether what was planned could be
/// done: a plan that failed keeps its error, and a signal that could not be
/// delivered is a failure of the facility that was to deliver it.
pub open spec fn concluded(plan: Result<SignalRequest, ControlError>, delivered: bool) -> Result<
    (),
    ControlError,
> {
    match plan {
        Ok(_) => if delivered {
            Ok(())
        } else {
            Err(ControlError::ExternalToolFailure)
        },
        Err(error) => Err(error),
    }
}

/// Tells how a planned operation ended: see [`concluded`]. Success means that
/// the signal was delivered, not that the process has ended or stopped by
/// then.
pub fn conclude(plan: Result<SignalRequest, ControlError>, delivered: bool) -> (result: Result<
    (),
    ControlError,
>)
    ensures
        result == concluded(plan, delivered),
{
    match plan {
        Ok(_) => if delivered {
            Ok(())
        } else {
            Err(ControlError::ExternalToolFailure)
        },
        Err(error) => Err(error),
    }
}

/// To end a process that the snapshot does not hold fails, whatever a
/// delivery would have reported.
pub proof fn lemma_absent_target_fails(snapshot: HostSnapshotView, pid: u32, delivered: bool)
    requires
        !has_pid(snapshot.processes, pid),
    ensures
        concluded(terminate_plan(snapshot, pid), delivered) == Err::<(), ControlError>(
            ControlError::TargetNotFound,
        ),
{
}

/// The tiers of scheduling priority.
#[derive(Clone, Copy, Debug, PartialEq, Eq, Structural)]
pub enum Tier {
    High,
    Normal,
    Low,
}

/// The tier that a word names: `High` and `Low` name theirs, and every other
/// word names the normal tier.
pub open spec fn tier_of(word: Seq<char>) -> Tier {
    if word == "High"@ {
        Tier::High
    } else if word == "Low"@ {
        Tier::Low
    } else {
        Tier::Normal
    }
}

/// Reads a word as a tier: see [`tier_of`].
pub fn parse_tier(word: &str) -> (tier: Tier)
    ensures
        tier == tier_of(word@),
{
    if same_text(word, "High") {
        Tier::High
    } else if same_text(word, "Low") {
        Tier::Low
    } else {
        Tier::Normal
    }
}

/// The most favourable nice value that the scheduler accepts.
pub const NICE_MOST_FAVOURABLE: i64 = -20;

/// The nice value that neither favours nor disfavours a process.
pub const NICE_NEUTRAL: i64 = 0;

/// The least favourable nice value that the scheduler accepts.
pub const NICE_LEAST_FAVOURABLE: i64 = 19;

/// The nice value of a tier: the most favourable for the high tier, the least
/// favourable for the low one, the neutral one for the normal tier.
pub open spec fn nice_of(tier: Tier) -> int {
    match tier {
        Tier::High => NICE_MOST_FAVOURABLE as int,
        Tier::Normal => NICE_NEUTRAL as int,
        Tier::Low => NICE_LEAST_FAVOURABLE as int,
    }
}

/// The nice value of a tier: see [`nice_of`].
pub fn nice_value(tier: Tier) -> (nice: i64)
    ensures
        nice == nice_of(tier),
{
    match tier {
        Tier::High => NICE_MOST_FAVOURABLE,
        Tier::Normal => NICE_NEUTRAL,
        Tier::Low => NICE_LEAST_FAVOURABLE,
    }
}

/// The run of the `renice` tool that gives the process `pid` the priority of
/// the tier that `word` names.
pub open spec fn priority_command_of(pid: u32, word: Seq<char>) -> InvocationView {
    InvocationView {
        program: "renice"@,
        args: seq!["-n"@, signed_decimal(nice_of(tier_of(word))), "-p"@, decimal(pid as nat)],
    }
}

/// The run that sets the priority of the process `pid` to the tier that
/// `tier` names: see [`priority_command_of`]. A word that names no tier is
/// taken as the normal tier, since priority is advice to the scheduler.
pub fn set_priority(pid: u32, tier: &str) -> (run: Invocation)
    ensures
        run@ == priority_command_of(pid, tier@),
{
    let nice = nice_value(parse_tier(tier));
    let mut target = String::new();
    push_decimal(&mut target, pid as u64);
    assert(target@ =~= decimal(pid as nat));
    let mut args: Vec<String> = Vec::new();
    args.push("-n".to_owned());
    args.push(signed_decimal_string(nice));
    args.push("-p".to_owned());
    args.push(target);
    assert(args.deep_view() =~= priority_command_of(pid, tier@).args);
    Invocation { program: "renice".to_owned(), args }
}

/// A word that names no tier sets the priority exactly as `Normal` does.
pub proof fn lemma_unrecognized_tier_is_normal(pid: u32, word: Seq<char>)
    requires
        word != "High"@,
        word != "Normal"@,
        word != "Low"@,
    ensures
        tier_of(word) == Tier::Normal,
        tier_of(word) == tier_of("Normal"@),
        priority_command_of(pid, word) == priority_command_of(pid, "Normal"@),
{
    reveal_strlit("High");
    reveal_strlit("Normal");
    reveal_strlit("Low");
    assert("Normal"@.len() != "High"@.len());
    assert("Normal"@.len() != "Low"@.len());
}

} // verus!
