use rclone_mount_ext::process::{signal_sent, target_of, CloseStep, RcloneProcess, WaitOutcome};

#[test]
fn new_process_is_alive_and_not_closing() {
    let process = RcloneProcess::new(Some(7));
    assert!(process.is_alive());
    assert!(!process.is_closing());
    assert_eq!(process.pid, Some(7));
}

#[test]
fn close_asks_waits_and_kills_a_process_that_stays_alive() {
    let mut process = RcloneProcess::new(Some(1234));
    let first = process.close();
    assert!(process.is_closing());
    assert_eq!(first, CloseStep::SendTerm(1234));
    let second = process.close_on(first);
    assert_eq!(second, CloseStep::Wait(5));
    let third = process.close_on(second);
    assert_eq!(third, CloseStep::SendKill);
    assert_eq!(process.close_on(third), CloseStep::Closed);
    assert_eq!(process.close_on(CloseStep::Closed), CloseStep::Closed);
}

#[test]
fn close_of_unknown_pid_begins_with_the_wait() {
    let mut process = RcloneProcess::new(None);
    assert_eq!(process.close(), CloseStep::Wait(5));
}

#[test]
fn close_of_dead_process_does_nothing() {
    let mut process = RcloneProcess::new(Some(1));
    assert!(!process.wait_ended(WaitOutcome::Exited { success: true }));
    assert_eq!(process.close(), CloseStep::Closed);
    assert!(process.is_closing());
}

#[test]
fn close_stops_as_soon_as_the_process_exits() {
    let mut process = RcloneProcess::new(Some(9));
    let first = process.close();
    process.wait_ended(WaitOutcome::Exited { success: false });
    assert_eq!(process.close_on(first), CloseStep::Closed);
    assert_eq!(process.close_on(CloseStep::Wait(5)), CloseStep::Closed);
}

#[test]
fn failure_is_retried_and_success_is_not() {
    assert!(RcloneProcess::new(None).wait_ended(WaitOutcome::Exited { success: false }));
    assert!(!RcloneProcess::new(None).wait_ended(WaitOutcome::Exited { success: true }));
    assert!(RcloneProcess::new(None).wait_ended(WaitOutcome::Failed));
}

#[test]
fn closing_process_is_never_retried() {
    for outcome in [
        WaitOutcome::Exited { success: false },
        WaitOutcome::Exited { success: true },
        WaitOutcome::Failed,
    ] {
        let mut process = RcloneProcess::new(Some(3));
        process.close();
        assert!(!process.wait_ended(outcome));
        assert!(process.is_closing());
    }
}

#[test]
fn exit_ends_life_and_failed_wait_does_not() {
    let mut process = RcloneProcess::new(Some(3));
    process.wait_ended(WaitOutcome::Failed);
    assert!(process.is_alive());
    process.wait_ended(WaitOutcome::Exited { success: false });
    assert!(!process.is_alive());
    process.wait_ended(WaitOutcome::Failed);
    assert!(!process.is_alive());
}

#[test]
fn kill_target_keeps_the_bits_of_the_pid() {
    assert_eq!(target_of(0), 0);
    assert_eq!(target_of(2147483647), i32::MAX);
    assert_eq!(target_of(2147483648), i32::MIN);
    assert_eq!(target_of(u32::MAX), -1);
}

#[test]
fn minus_one_is_a_signal_that_was_not_sent() {
    assert!(signal_sent(-1).is_err());
    assert!(signal_sent(0).is_ok());
    assert!(signal_sent(1).is_ok());
    assert!(signal_sent(-2).is_ok());
}
