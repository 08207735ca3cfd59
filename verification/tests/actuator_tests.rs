use syswatch::actuator::{
    conclude, nice_value, parse_tier, resume, set_priority, signal_command, suspend, terminate,
    Signal, SignalRequest, Tier, NICE_LEAST_FAVOURABLE, NICE_MOST_FAVOURABLE, NICE_NEUTRAL,
};
use syswatch::command::{
    is_readable, succeeded, verdict, wait_end, wait_step, ControlError, ToolOutcome, WaitStep,
    POLL_MS, TIME_LIMIT_MS,
};
use syswatch::snapshot::{HostSnapshot, ProcessDetail, ProcessSample, Reading};

fn strings(items: &[&str]) -> Vec<String> {
    items.iter().map(|s| s.to_string()).collect()
}

fn snapshot_with(pids: &[u32]) -> HostSnapshot {
    let mut snapshot = HostSnapshot::new(None, None);
    let samples = pids
        .iter()
        .map(|pid| ProcessSample {
            pid: *pid,
            detail: Some(ProcessDetail {
                name: "p".to_string(),
                owner_id: None,
                exe: String::new(),
                cmd: String::new(),
                status: String::new(),
                cpu_milli: 0,
                memory: 0,
                disk_read: 0,
            }),
        })
        .collect();
    snapshot.refresh(Reading::Processes(samples));
    snapshot
}

#[test]
fn terminate_of_a_known_process_asks_for_the_kill_signal() {
    let snapshot = snapshot_with(&[1, 40, 4_000_000_000]);
    assert_eq!(terminate(&snapshot, 40), Ok(SignalRequest { pid: 40, signal: Signal::Kill }));
    assert_eq!(
        terminate(&snapshot, 4_000_000_000),
        Ok(SignalRequest { pid: 4_000_000_000, signal: Signal::Kill })
    );
    assert_eq!(conclude(terminate(&snapshot, 40), true), Ok(()));
    assert_eq!(conclude(terminate(&snapshot, 40), false), Err(ControlError::ExternalToolFailure));
}

#[test]
fn terminate_of_an_absent_process_fails() {
    let snapshot = snapshot_with(&[1, 40]);
    assert_eq!(terminate(&snapshot, 41), Err(ControlError::TargetNotFound));
    assert_eq!(terminate(&HostSnapshot::new(None, None), 1), Err(ControlError::TargetNotFound));
    for delivered in [true, false] {
        let result = conclude(terminate(&snapshot, 41), delivered);
        assert_eq!(result, Err(ControlError::TargetNotFound));
        assert!(!result.is_ok());
    }
}

#[test]
fn terminate_looks_at_the_last_snapshot_only() {
    let mut snapshot = snapshot_with(&[7]);
    assert!(terminate(&snapshot, 7).is_ok());
    snapshot.refresh(Reading::Processes(Vec::new()));
    assert_eq!(terminate(&snapshot, 7), Err(ControlError::TargetNotFound));
}

#[test]
fn suspend_and_resume_name_their_signals() {
    assert_eq!(suspend(123), SignalRequest { pid: 123, signal: Signal::Stop });
    assert_eq!(resume(123), SignalRequest { pid: 123, signal: Signal::Continue });
}

#[test]
fn signals_are_delivered_by_the_kill_tool() {
    let run = signal_command(suspend(4321));
    assert_eq!(run.program, "kill");
    assert_eq!(run.args, strings(&["-19", "4321"]));
    let run = signal_command(resume(0));
    assert_eq!(run.program, "kill");
    assert_eq!(run.args, strings(&["-18", "0"]));
    let run = signal_command(SignalRequest { pid: u32::MAX, signal: Signal::Kill });
    assert_eq!(run.args, strings(&["-9", "4294967295"]));
}

#[test]
fn tiers_are_read_from_their_words() {
    assert_eq!(parse_tier("High"), Tier::High);
    assert_eq!(parse_tier("Normal"), Tier::Normal);
    assert_eq!(parse_tier("Low"), Tier::Low);
    for word in ["", "high", "HIGH", "low", "Lowest", "High ", "Realtime", "normal", "0"] {
        assert_eq!(parse_tier(word), Tier::Normal, "{:?}", word);
    }
}

#[test]
fn tiers_map_to_the_ends_of_the_nice_range() {
    assert_eq!(nice_value(Tier::High), -20);
    assert_eq!(nice_value(Tier::Normal), 0);
    assert_eq!(nice_value(Tier::Low), 19);
    assert_eq!(NICE_MOST_FAVOURABLE, -20);
    assert_eq!(NICE_NEUTRAL, 0);
    assert_eq!(NICE_LEAST_FAVOURABLE, 19);
}

#[test]
fn priority_is_set_by_renice() {
    let run = set_priority(812, "High");
    assert_eq!(run.program, "renice");
    assert_eq!(run.args, strings(&["-n", "-20", "-p", "812"]));
    assert_eq!(set_priority(812, "Low").args, strings(&["-n", "19", "-p", "812"]));
    assert_eq!(set_priority(812, "Normal").args, strings(&["-n", "0", "-p", "812"]));
}

#[test]
fn unrecognized_tier_behaves_as_normal() {
    let normal = set_priority(77, "Normal");
    for word in ["", "Medium", "high", "LOW", "Highest", "-20", "Normal "] {
        assert_eq!(set_priority(77, word), normal, "{:?}", word);
    }
}

#[test]
fn only_exit_code_zero_is_success() {
    assert!(succeeded(ToolOutcome::Exited { code: 0 }));
    assert_eq!(verdict(ToolOutcome::Exited { code: 0 }), Ok(()));
    for outcome in [
        ToolOutcome::Exited { code: 1 },
        ToolOutcome::Exited { code: -1 },
        ToolOutcome::Exited { code: 3 },
        ToolOutcome::Killed,
        ToolOutcome::Denied,
        ToolOutcome::Unavailable,
        ToolOutcome::TimedOut,
    ] {
        assert!(!succeeded(outcome), "{:?}", outcome);
        assert!(verdict(outcome).is_err(), "{:?}", outcome);
    }
}

#[test]
fn lack_of_rights_is_told_apart() {
    assert_eq!(verdict(ToolOutcome::Denied), Err(ControlError::PermissionDenied));
    assert_eq!(verdict(ToolOutcome::Exited { code: 1 }), Err(ControlError::ExternalToolFailure));
    assert_eq!(verdict(ToolOutcome::Killed), Err(ControlError::ExternalToolFailure));
    assert_eq!(verdict(ToolOutcome::Unavailable), Err(ControlError::ExternalToolFailure));
    assert_eq!(verdict(ToolOutcome::TimedOut), Err(ControlError::ExternalToolFailure));
}

#[test]
fn output_is_read_where_the_run_ended() {
    assert!(is_readable(ToolOutcome::Exited { code: 0 }));
    assert!(is_readable(ToolOutcome::Exited { code: 3 }));
    assert!(is_readable(ToolOutcome::Killed));
    assert!(!is_readable(ToolOutcome::Denied));
    assert!(!is_readable(ToolOutcome::Unavailable));
    assert!(!is_readable(ToolOutcome::TimedOut));
}

#[test]
fn ended_tool_is_finished_however_long_it_took() {
    for waited in [0u64, 1, 4_999, 5_000, 5_001, u64::MAX] {
        assert_eq!(
            wait_step(Some(Some(0)), waited, TIME_LIMIT_MS),
            WaitStep::Finish(ToolOutcome::Exited { code: 0 })
        );
        assert_eq!(
            wait_step(Some(Some(3)), waited, TIME_LIMIT_MS),
            WaitStep::Finish(ToolOutcome::Exited { code: 3 })
        );
        assert_eq!(
            wait_step(Some(None), waited, TIME_LIMIT_MS),
            WaitStep::Finish(ToolOutcome::Killed)
        );
    }
}

#[test]
fn running_tool_is_given_up_at_the_limit() {
    assert_eq!(TIME_LIMIT_MS, 5_000);
    assert_eq!(POLL_MS, 10);
    assert_eq!(wait_step(None, 0, TIME_LIMIT_MS), WaitStep::Wait);
    assert_eq!(wait_step(None, 4_999, TIME_LIMIT_MS), WaitStep::Wait);
    assert_eq!(wait_step(None, 5_000, TIME_LIMIT_MS), WaitStep::GiveUp);
    assert_eq!(wait_step(None, u64::MAX, TIME_LIMIT_MS), WaitStep::GiveUp);
    assert_eq!(wait_step(None, 0, 0), WaitStep::GiveUp);
    assert_eq!(wait_step(None, u64::MAX - 1, u64::MAX), WaitStep::Wait);
}

#[test]
fn wait_ends_when_finished_or_given_up() {
    assert_eq!(
        wait_end(WaitStep::Finish(ToolOutcome::Exited { code: 1 })),
        Some(ToolOutcome::Exited { code: 1 })
    );
    assert_eq!(wait_end(WaitStep::Finish(ToolOutcome::Killed)), Some(ToolOutcome::Killed));
    assert_eq!(wait_end(WaitStep::GiveUp), Some(ToolOutcome::TimedOut));
    assert_eq!(wait_end(WaitStep::Wait), None);
    let given_up = wait_end(wait_step(None, 9_000, TIME_LIMIT_MS)).unwrap();
    assert!(!succeeded(given_up));
    assert!(!is_readable(given_up));
}
