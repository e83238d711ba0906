//! The daemon from start to end: what it sets up, when the main loop runs, and how it returns.

use crate::args::Args;
use crate::mount_point;
use crate::mount_point::MountPointError;
use crate::supervisor;
use vstd::prelude::*;

verus! {

/// Why the daemon could not run.
#[derive(Debug, Clone, Copy, PartialEq, Eq, Structural)]
pub enum RunError {
    /// The log could not be set up.
    Log,
    /// There is no mount point.
    MountPoint(MountPointError),
}

/// What the daemon does next.
#[derive(Debug, PartialEq, Eq)]
pub enum RunCommand {
    /// Set up the log, with the time in its records or without.
    InitLog { timestamp: bool },
    /// Read `XDG_RUNTIME_DIR`.
    ReadRuntimeDir,
    /// Run the main loop, which mounts at this place.
    Serve { mount_point: String },
    /// Return.
    Return(Result<(), RunError>),
}

/// What a [`RunCommand`] says.
pub enum RunCommandView {
    InitLog { timestamp: bool },
    ReadRuntimeDir,
    Serve { mount_point: Seq<char> },
    Return(Result<(), RunError>),
}

impl View for RunCommand {
    type V = RunCommandView;

    open spec fn view(&self) -> RunCommandView {
        match self {
            RunCommand::InitLog { timestamp } => RunCommandView::InitLog { timestamp: *timestamp },
            RunCommand::ReadRuntimeDir => RunCommandView::ReadRuntimeDir,
            RunCommand::Serve { mount_point } => RunCommandView::Serve {
                mount_point: mount_point@,
            },
            RunCommand::Return(result) => RunCommandView::Return(*result),
        }
    }
}

/// What came of the daemon's last command.
#[derive(Debug, PartialEq, Eq)]
pub enum RunInput {
    LogReady,
    LogFailed,
    /// The value of `XDG_RUNTIME_DIR`, if it is set.
    RuntimeDir(Option<String>),
    /// The main loop has come to its end.
    LoopEnded,
}

/// What a [`RunInput`] says.
pub enum RunInputView {
    LogReady,
    LogFailed,
    RuntimeDir(Option<Seq<char>>),
    LoopEnded,
}

impl View for RunInput {
    type V = RunInputView;

    open spec fn view(&self) -> RunInputView {
        match self {
            RunInput::LogReady => RunInputView::LogReady,
            RunInput::LogFailed => RunInputView::LogFailed,
            RunInput::RuntimeDir(dir) => RunInputView::RuntimeDir(
                match dir {
                    Some(dir) => Some(dir@),
                    None => None,
                },
            ),
            RunInput::LoopEnded => RunInputView::LoopEnded,
        }
    }
}

impl RunError {
    /// The error in words; a log that cannot be set up comes with words of its own.
    pub fn message(&self) -> (message: Option<&'static str>)
        ensures
            match *self {
                RunError::Log => message is None,
                RunError::MountPoint(MountPointError::RuntimeDirNotSet) => message is Some
                    && message->0@ == "XDG_RUNTIME_DIR isn't set"@,
            },
    {
        match self {
            RunError::Log => None,
            RunError::MountPoint(error) => Some(error.message()),
        }
    }
}

/// What the daemon for `entry` does after `input`.
pub open spec fn next_run(entry: Seq<char>, input: RunInputView) -> RunCommandView {
    match input {
        RunInputView::LogReady => RunCommandView::ReadRuntimeDir,
        RunInputView::LogFailed => RunCommandView::Return(Err(RunError::Log)),
        RunInputView::RuntimeDir(dir) => match dir {
            Some(dir) => RunCommandView::Serve {
                mount_point: mount_point::mount_point_in(dir, entry),
            },
            None => RunCommandView::Return(
                Err(RunError::MountPoint(MountPointError::RuntimeDirNotSet)),
            ),
        },
        RunInputView::LoopEnded => RunCommandView::Return(Ok(())),
    }
}

/// What the daemon does first.
pub fn run_start(args: &Args) -> (command: RunCommand)
    ensures
        command@ == (RunCommandView::InitLog { timestamp: args.log_timestamp }),
        command == (RunCommand::InitLog { timestamp: args.log_timestamp }),
{
    RunCommand::InitLog { timestamp: args.log_timestamp }
}

/// Says what the daemon does after `input`.
pub fn run_on(args: &Args, input: RunInput) -> (command: RunCommand)
    ensures
        command@ == next_run(args.rclone_entry@, input@),
        input is LogReady ==> command is ReadRuntimeDir,
        input is LogFailed ==> command == RunCommand::Return(Err(RunError::Log)),
        input is LoopEnded ==> command == RunCommand::Return(Ok(())),
        input == RunInput::RuntimeDir(None) ==> command == RunCommand::Return(
            Err(RunError::MountPoint(MountPointError::RuntimeDirNotSet)),
        ),
        input matches RunInput::RuntimeDir(Some(dir)) ==> {
            let entry = args.rclone_entry@;
            &&& command is Serve
            &&& entry.len() > 0 && entry[0] == '/' ==> command->mount_point@ == entry
            &&& entry.len() == 0 || entry[0] != '/' ==> command->mount_point@ == (if dir@.len() == 0
                || dir@.last() == '/' {
                dir@
            } else {
                dir@.push('/')
            }) + "app/rclone/"@ + entry
        },
{
    match input {
        RunInput::LogReady => RunCommand::ReadRuntimeDir,
        RunInput::LogFailed => RunCommand::Return(Err(RunError::Log)),
        RunInput::RuntimeDir(dir) => match mount_point::mount_point(
            dir,
            args.rclone_entry.as_str(),
        ) {
            Ok(mount_point) => RunCommand::Serve { mount_point },
            Err(error) => RunCommand::Return(Err(RunError::MountPoint(error))),
        },
        RunInput::LoopEnded => RunCommand::Return(Ok(())),
    }
}

/// Whether `input` can come of `command`.
pub open spec fn answers(command: RunCommandView, input: RunInputView) -> bool {
    match command {
        RunCommandView::InitLog { .. } => input is LogReady || input is LogFailed,
        RunCommandView::ReadRuntimeDir => input is RuntimeDir,
        RunCommandView::Serve { .. } => input is LoopEnded,
        RunCommandView::Return(_) => false,
    }
}

/// The command that the daemon has reached after `inputs`.
pub open spec fn reached(
    timestamp: bool,
    entry: Seq<char>,
    inputs: Seq<RunInputView>,
) -> RunCommandView {
    if inputs.len() == 0 {
        RunCommandView::InitLog { timestamp }
    } else {
        next_run(entry, inputs.last())
    }
}

/// `inputs` is a course that the daemon can take: each input comes of the command before it.
pub open spec fn is_course(timestamp: bool, entry: Seq<char>, inputs: Seq<RunInputView>) -> bool
    decreases inputs.len(),
{
    inputs.len() > 0 ==> is_course(timestamp, entry, inputs.drop_last()) && answers(
        reached(timestamp, entry, inputs.drop_last()),
        inputs.last(),
    )
}

/// Each step of the daemon is taken for one reason only: the runtime directory is read once the
/// log is ready, the main loop runs once the directory is known, and the daemon returns if the log
/// cannot be set up, the directory is not set or the main loop has ended, each with its own
/// result.
pub proof fn law_run_steps_have_their_reasons(entry: Seq<char>, input: RunInputView)
    ensures
        next_run(entry, input) !is InitLog,
        next_run(entry, input) is ReadRuntimeDir <==> input is LogReady,
        next_run(entry, input) is Serve <==> (input matches RunInputView::RuntimeDir(dir)
            && dir is Some),
        next_run(entry, input) == RunCommandView::Return(Ok(())) <==> input is LoopEnded,
        next_run(entry, input) == RunCommandView::Return(Err(RunError::Log)) <==> input
            is LogFailed,
        next_run(entry, input) == RunCommandView::Return(
            Err(RunError::MountPoint(MountPointError::RuntimeDirNotSet)),
        ) <==> (input matches RunInputView::RuntimeDir(dir) && dir is None),
{
}

/// Where everything works, the daemon sets up the log as it is told, runs the main loop on the
/// entry's mount point under the runtime directory, and returns without an error when the loop has
/// ended.
pub proof fn law_daemon_serves_its_entry(timestamp: bool, entry: Seq<char>, dir: Seq<char>)
    ensures
        ({
            let ready = seq![RunInputView::LogReady];
            let known = ready.push(RunInputView::RuntimeDir(Some(dir)));
            let ended = known.push(RunInputView::LoopEnded);
            let none = Seq::<RunInputView>::empty();
            &&& is_course(timestamp, entry, none)
            &&& reached(timestamp, entry, none) == (RunCommandView::InitLog { timestamp })
            &&& is_course(timestamp, entry, ready)
            &&& reached(timestamp, entry, ready) is ReadRuntimeDir
            &&& is_course(timestamp, entry, known)
            &&& reached(timestamp, entry, known) is Serve
            &&& entry.len() > 0 && entry[0] == '/' ==> reached(
                timestamp,
                entry,
                known,
            )->mount_point == entry
            &&& entry.len() == 0 || entry[0] != '/' ==> reached(
                timestamp,
                entry,
                known,
            )->mount_point == (if dir.len() == 0 || dir.last() == '/' {
                dir
            } else {
                dir.push('/')
            }) + "app/rclone/"@ + entry
            &&& is_course(timestamp, entry, ended)
            &&& reached(timestamp, entry, ended) == RunCommandView::Return(Ok(()))
        }),
{
    let none = Seq::<RunInputView>::empty();
    let ready = seq![RunInputView::LogReady];
    let known = ready.push(RunInputView::RuntimeDir(Some(dir)));
    let ended = known.push(RunInputView::LoopEnded);
    mount_point::law_mount_point_of_any_entry(dir, entry);
    assert(is_course(timestamp, entry, none));
    assert(ready.drop_last() == none);
    assert(is_course(timestamp, entry, ready));
    assert(known.drop_last() == ready);
    assert(is_course(timestamp, entry, known));
    assert(ended.drop_last() == known);
}

/// Without a log or without a runtime directory the daemon returns at once, and the main loop
/// never runs.
pub proof fn law_failed_setup_returns(timestamp: bool, entry: Seq<char>)
    ensures
        ({
            let failed = seq![RunInputView::LogFailed];
            let unset = seq![RunInputView::LogReady, RunInputView::RuntimeDir(None)];
            &&& is_course(timestamp, entry, failed)
            &&& reached(timestamp, entry, failed) == RunCommandView::Return(Err(RunError::Log))
            &&& is_course(timestamp, entry, unset)
            &&& reached(timestamp, entry, unset) == RunCommandView::Return(
                Err(RunError::MountPoint(MountPointError::RuntimeDirNotSet)),
            )
        }),
{
    let none = Seq::<RunInputView>::empty();
    let failed = seq![RunInputView::LogFailed];
    let ready = seq![RunInputView::LogReady];
    let unset = seq![RunInputView::LogReady, RunInputView::RuntimeDir(None)];
    assert(is_course(timestamp, entry, none));
    assert(failed.drop_last() == none);
    assert(is_course(timestamp, entry, failed));
    assert(ready.drop_last() == none);
    assert(is_course(timestamp, entry, ready));
    assert(unset.drop_last() == ready);
}

/// The daemon fails exactly if the log cannot be set up or there is no mount point. Otherwise it
/// returns only after the main loop has received an error event, and then without an error: neither
/// a mount that fails nor the error event itself makes it fail.
pub proof fn law_run_fails_only_at_setup<P>(
    timestamp: bool,
    entry: Seq<char>,
    inputs: Seq<RunInputView>,
    loop_inputs: Seq<supervisor::Input<P>>,
    result: Result<(), RunError>,
)
    requires
        is_course(timestamp, entry, inputs),
        reached(timestamp, entry, inputs) == RunCommandView::Return(result),
        inputs.contains(RunInputView::LoopEnded) ==> supervisor::is_course(loop_inputs)
            && supervisor::reached(loop_inputs) is Exit,
    ensures
        result is Err <==> inputs.contains(RunInputView::LogFailed) || inputs.contains(
            RunInputView::RuntimeDir(None),
        ),
        result == Err::<(), RunError>(RunError::Log) <==> inputs.contains(RunInputView::LogFailed),
        result == Err::<(), RunError>(RunError::MountPoint(MountPointError::RuntimeDirNotSet))
            <==> inputs.contains(RunInputView::RuntimeDir(None)),
        result is Ok <==> inputs.contains(RunInputView::LoopEnded),
        result is Ok ==> exists|i: int|
            0 <= i < loop_inputs.len() && supervisor::is_error(#[trigger] loop_inputs[i]),
{
    reveal_with_fuel(is_course, 4);
    let last = inputs.len() - 1;
    let front = inputs.drop_last();
    assert(inputs[last] == inputs.last());
    match inputs.last() {
        RunInputView::LogFailed => {
            assert(front.len() == 0);
        },
        RunInputView::RuntimeDir(dir) => {
            assert(reached(timestamp, entry, front) is ReadRuntimeDir);
            assert(front.last() is LogReady);
            assert(front.drop_last().len() == 0);
            assert(inputs[0] is LogReady);
        },
        _ => {
            assert(reached(timestamp, entry, front) is Serve);
            assert(front.last() is RuntimeDir);
            assert(front.drop_last().last() is LogReady);
            assert(front.drop_last().drop_last().len() == 0);
            assert(inputs[0] is LogReady);
            assert(inputs[1] == front.last());
            assert(inputs.contains(RunInputView::LoopEnded));
            supervisor::law_exit_only_on_error(loop_inputs);
        },
    }
}

} // verus!
