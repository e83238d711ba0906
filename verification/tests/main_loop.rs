use rclone_mount_ext::dbus::{
    Bus, FdoLoginService, FdoScreenSaverService, ListenerCommand, ListenerInput, SleepListener,
    UnlockListener,
};
use rclone_mount_ext::event::Event;
use rclone_mount_ext::args::Args;
use rclone_mount_ext::mount_point::MountPointError;
use rclone_mount_ext::run::{run_on, run_start, RunCommand, RunError, RunInput};
use rclone_mount_ext::supervisor::{
    initial_events, AfterClose, Command, Input, RetryDecision, RetryMark, Supervisor,
};

fn event(event: Event, child_alive: bool) -> Input<u8> {
    Input::Received { event, child_alive }
}

#[test]
fn loop_starts_with_listeners_and_mount() {
    assert_eq!(
        initial_events(),
        vec![Event::StartSleepListener, Event::StartUnlockListener, Event::Mount]
    );
}

#[test]
fn listeners_are_started() {
    let mut supervisor: Supervisor<u8> = Supervisor::new();
    assert_eq!(
        supervisor.step(event(Event::StartSleepListener, false)),
        Command::StartSleepListener
    );
    assert_eq!(supervisor.step(Input::Done), Command::Receive);
    assert_eq!(
        supervisor.step(event(Event::StartUnlockListener, false)),
        Command::StartUnlockListener
    );
}

#[test]
fn mount_keeps_and_watches_the_process() {
    let mut supervisor = Supervisor::new();
    assert_eq!(supervisor.start(), Command::Receive);
    assert_eq!(supervisor.step(event(Event::Mount, false)), Command::Mount);
    assert_eq!(supervisor.step(Input::Mounted(1)), Command::Watch);
    assert_eq!(supervisor.kept_process(), Some(&1));
    assert_eq!(supervisor.step(Input::Done), Command::Receive);
}

#[test]
fn failed_mount_is_retried() {
    let mut supervisor = Supervisor::new();
    assert_eq!(supervisor.step(event(Event::Mount, false)), Command::Mount);
    assert_eq!(supervisor.step(Input::MountFailed), Command::Retry);
    assert_eq!(supervisor.kept_process(), None);
}

#[test]
fn live_process_is_left_alone() {
    let mut supervisor = Supervisor::new();
    supervisor.step(Input::Mounted(1));
    assert_eq!(supervisor.step(event(Event::Mount, true)), Command::Receive);
    assert_eq!(supervisor.kept_process(), Some(&1));
}

#[test]
fn dead_process_is_closed_before_the_next_mount() {
    let mut supervisor = Supervisor::new();
    supervisor.step(Input::Mounted(1));
    assert_eq!(
        supervisor.step(event(Event::Mount, false)),
        Command::Close(1, AfterClose::Mount)
    );
    assert_eq!(supervisor.kept_process(), None);
    assert_eq!(supervisor.step(Input::Closed(AfterClose::Mount)), Command::Mount);
}

#[test]
fn sleep_unmounts_and_unlock_mounts_again() {
    let mut supervisor = Supervisor::new();
    supervisor.step(Input::Mounted(1));
    let sleep = SleepListener.prepare_for_sleep(true).unwrap();
    assert_eq!(
        supervisor.step(event(sleep, true)),
        Command::Close(1, AfterClose::Receive)
    );
    assert_eq!(supervisor.step(Input::Closed(AfterClose::Receive)), Command::Receive);
    let unlock = UnlockListener.active_changed(false).unwrap();
    assert_eq!(supervisor.step(event(unlock, false)), Command::Mount);
}

#[test]
fn unmount_without_process_does_nothing() {
    let mut supervisor = Supervisor::new();
    assert_eq!(supervisor.step(event(Event::Unmount, false)), Command::Receive);
}

#[test]
fn error_closes_and_exits() {
    let mut supervisor = Supervisor::new();
    supervisor.step(Input::Mounted(1));
    assert_eq!(
        supervisor.step(event(Event::Error, true)),
        Command::Close(1, AfterClose::Exit)
    );
    assert_eq!(supervisor.step(Input::Closed(AfterClose::Exit)), Command::Exit);
    assert_eq!(supervisor.kept_process(), None);
    assert_eq!(Supervisor::new().step(event(Event::Error, false)), Command::Exit);
}

#[test]
fn closed_queue_closes_and_exits() {
    let mut supervisor = Supervisor::new();
    supervisor.step(Input::Mounted(4));
    assert_eq!(
        supervisor.step(Input::QueueClosed),
        Command::Close(4, AfterClose::Exit)
    );
    assert_eq!(supervisor.step(Input::QueueClosed), Command::Exit);
}

#[test]
fn one_retry_at_a_time() {
    let mut mark = RetryMark::new();
    assert_eq!(mark.request(), RetryDecision::Schedule(30));
    assert_eq!(mark.request(), RetryDecision::Skip);
    assert_eq!(mark.request(), RetryDecision::Skip);
    assert_eq!(mark.due(), Event::Mount);
    mark.release();
    assert_eq!(mark.request(), RetryDecision::Schedule(30));
}

#[test]
fn signals_call_for_events() {
    assert_eq!(SleepListener.prepare_for_sleep(true), Some(Event::Unmount));
    assert_eq!(SleepListener.prepare_for_sleep(false), None);
    assert_eq!(UnlockListener.active_changed(false), Some(Event::Mount));
    assert_eq!(UnlockListener.active_changed(true), None);
}

#[test]
fn sleep_listener_course() {
    let listener = SleepListener;
    assert_eq!(listener.start(), ListenerCommand::Connect(Bus::System));
    assert_eq!(listener.next(ListenerInput::Connected), ListenerCommand::MakeProxy);
    assert_eq!(listener.next(ListenerInput::ProxyMade), ListenerCommand::Subscribe);
    assert_eq!(listener.next(ListenerInput::Subscribed), ListenerCommand::NextSignal);
    assert_eq!(
        listener.next(ListenerInput::Signal(true)),
        ListenerCommand::Send(Event::Unmount)
    );
    assert_eq!(listener.next(ListenerInput::Sent), ListenerCommand::NextSignal);
    assert_eq!(listener.next(ListenerInput::NotSent), ListenerCommand::Stop);
    assert_eq!(listener.next(ListenerInput::Signal(false)), ListenerCommand::NextSignal);
    assert_eq!(
        listener.next(ListenerInput::StreamEnded),
        ListenerCommand::SendLast(Event::StartSleepListener)
    );
    assert_eq!(
        listener.next(ListenerInput::BadSignal),
        ListenerCommand::SendLast(Event::StartSleepListener)
    );
    assert_eq!(listener.next(ListenerInput::LastSent), ListenerCommand::Stop);
    assert_eq!(
        listener.next(ListenerInput::SetupFailed),
        ListenerCommand::SendLast(Event::Error)
    );
}

#[test]
fn unlock_listener_course() {
    let listener = UnlockListener;
    assert_eq!(listener.start(), ListenerCommand::Connect(Bus::Session));
    assert_eq!(
        listener.next(ListenerInput::Signal(false)),
        ListenerCommand::Send(Event::Mount)
    );
    assert_eq!(listener.next(ListenerInput::Signal(true)), ListenerCommand::NextSignal);
    assert_eq!(
        listener.next(ListenerInput::StreamEnded),
        ListenerCommand::SendLast(Event::StartUnlockListener)
    );
    assert_eq!(
        listener.next(ListenerInput::BadSignal),
        ListenerCommand::SendLast(Event::StartUnlockListener)
    );
    assert_eq!(
        listener.next(ListenerInput::SetupFailed),
        ListenerCommand::SendLast(Event::Error)
    );
}

#[test]
fn listener_that_ends_is_replaced() {
    let mut supervisor: Supervisor<u8> = Supervisor::new();
    supervisor.step(Input::Mounted(2));
    let last = SleepListener.next(ListenerInput::StreamEnded);
    assert!(matches!(last, ListenerCommand::SendLast(_)));
    if let ListenerCommand::SendLast(restart) = last {
        assert_eq!(supervisor.step(event(restart, true)), Command::StartSleepListener);
    }
    assert_eq!(supervisor.kept_process(), Some(&2));
}

#[test]
fn every_process_is_closed_once_and_in_order() {
    let mut supervisor = Supervisor::new();
    let mut closed = vec![];
    let mut next: u8 = 0;
    let mut events = vec![
        (Event::Mount, false),
        (Event::Mount, true),
        (Event::Mount, false),
        (Event::Unmount, true),
        (Event::Unmount, false),
        (Event::Mount, false),
        (Event::Error, true),
    ]
    .into_iter();
    let mut command = supervisor.start();
    loop {
        let input = match command {
            Command::Receive => {
                let (event, child_alive) = events.next().unwrap();
                Input::Received { event, child_alive }
            }
            Command::Close(process, after) => {
                closed.push(process);
                Input::Closed(after)
            }
            Command::Mount => {
                assert_eq!(supervisor.kept_process(), None);
                next += 1;
                Input::Mounted(next)
            }
            Command::Exit => break,
            _ => Input::Done,
        };
        command = supervisor.step(input);
    }
    assert_eq!(next, 3);
    assert_eq!(closed, vec![1, 2, 3]);
}

fn run_args() -> Args {
    Args {
        log_timestamp: true,
        rclone_entry: "drive".to_string(),
        secret_target: None,
        no_stdin_password: false,
        rclone_args: vec![],
    }
}

#[test]
fn daemon_sets_up_and_serves() {
    let args = run_args();
    assert_eq!(run_start(&args), RunCommand::InitLog { timestamp: true });
    assert_eq!(run_on(&args, RunInput::LogReady), RunCommand::ReadRuntimeDir);
    assert_eq!(
        run_on(&args, RunInput::RuntimeDir(Some("/run".to_string()))),
        RunCommand::Serve { mount_point: "/run/app/rclone/drive".to_string() }
    );
    assert_eq!(run_on(&args, RunInput::LoopEnded), RunCommand::Return(Ok(())));
}

#[test]
fn daemon_fails_only_at_setup() {
    let args = run_args();
    assert_eq!(
        run_on(&args, RunInput::LogFailed),
        RunCommand::Return(Err(RunError::Log))
    );
    let unset = RunError::MountPoint(MountPointError::RuntimeDirNotSet);
    assert_eq!(
        run_on(&args, RunInput::RuntimeDir(None)),
        RunCommand::Return(Err(unset))
    );
    assert_eq!(RunError::Log.message(), None);
    assert_eq!(unset.message(), Some("XDG_RUNTIME_DIR isn't set"));
}
