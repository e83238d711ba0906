//! Mounting the entry: from clearing the mount point to a running `rclone` that has its password.

use crate::args::Args;
use vstd::prelude::*;

verus! {

/// How long `rclone` may take to ask for the password, in seconds.
pub const PROMPT_TIMEOUT_SECS: u64 = 10;

/// Why mounting failed.
#[derive(Debug, Clone, Copy, PartialEq, Eq, Structural)]
pub enum MountError {
    /// A step failed by itself and comes with an error of its own.
    Step,
    /// The prompt did not come in time.
    PromptTimeout,
    /// The prompt could not be read.
    PromptUnreadable,
}

impl MountError {
    /// The error in words; a failed step comes with words of its own.
    pub fn message(&self) -> (message: Option<&'static str>)
        ensures
            match *self {
                MountError::Step => message is None,
                MountError::PromptTimeout => message is Some && message->0@
                    == "Timeout of waiting `password:`"@,
                MountError::PromptUnreadable => message is Some && message->0@
                    == "Error reading `password:` from rclone err stream"@,
            },
    {
        match self {
            MountError::Step => None,
            MountError::PromptTimeout => Some("Timeout of waiting `password:`"),
            MountError::PromptUnreadable => Some(
                "Error reading `password:` from rclone err stream",
            ),
        }
    }
}

/// What to do next in mounting.
#[derive(Debug, Clone, Copy, PartialEq, Eq, Structural)]
pub enum MountCommand {
    /// Unmount what may still be mounted, whether that works or not.
    ForceUmount,
    /// See whether the mount point exists.
    CheckDir,
    /// Create the mount point and the directories above it.
    CreateDir,
    /// Start `rclone` with its three streams piped.
    Spawn,
    /// Start logging what it writes to its standard output.
    LogOutput,
    /// Fetch the password.
    FetchPassword,
    /// Wait for the prompt on the error stream, for at most this many seconds.
    AwaitPrompt(u64),
    /// Write the password to the standard input.
    WritePassword,
    /// Flush the standard input.
    Flush,
    /// Log that the streams for the password are missing.
    ReportStreams,
    /// Start logging what it writes to its error stream.
    LogErrors,
    /// Mounting is done and the process is to be kept.
    Finish,
    /// Give up.
    Fail(MountError),
}

/// What came of the last command.
#[derive(Debug, Clone, Copy, PartialEq, Eq, Structural)]
pub enum MountInput {
    Umounted,
    /// The mount point exists, or not.
    DirExists(bool),
    DirCreated,
    Spawned,
    /// The output is being logged; which of the streams for the password are there.
    OutputLogged { stdin: bool, stderr: bool },
    PasswordFetched,
    PromptSeen,
    PromptTimedOut,
    PromptUnreadable,
    PasswordWritten,
    Flushed,
    StreamsReported,
    ErrorsLogged,
    /// The command failed.
    Failed,
}

/// What to do after `input`.
pub open spec fn next_mount(no_stdin_password: bool, input: MountInput) -> MountCommand {
    match input {
        MountInput::Umounted => MountCommand::CheckDir,
        MountInput::DirExists(exists) => if exists {
            MountCommand::Spawn
        } else {
            MountCommand::CreateDir
        },
        MountInput::DirCreated => MountCommand::Spawn,
        MountInput::Spawned => MountCommand::LogOutput,
        MountInput::OutputLogged { stdin, stderr } => if no_stdin_password {
            MountCommand::LogErrors
        } else if stdin && stderr {
            MountCommand::FetchPassword
        } else {
            MountCommand::ReportStreams
        },
        MountInput::PasswordFetched => MountCommand::AwaitPrompt(PROMPT_TIMEOUT_SECS),
        MountInput::PromptSeen => MountCommand::WritePassword,
        MountInput::PromptTimedOut => MountCommand::Fail(MountError::PromptTimeout),
        MountInput::PromptUnreadable => MountCommand::Fail(MountError::PromptUnreadable),
        MountInput::PasswordWritten => MountCommand::Flush,
        MountInput::Flushed => MountCommand::LogErrors,
        MountInput::StreamsReported => MountCommand::LogErrors,
        MountInput::ErrorsLogged => MountCommand::Finish,
        MountInput::Failed => MountCommand::Fail(MountError::Step),
    }
}

/// What to do first. The mount point is unmounted before it is accessed, because accessing it
/// may fail otherwise.
pub fn mount_start() -> (command: MountCommand)
    ensures
        command == MountCommand::ForceUmount,
{
    MountCommand::ForceUmount
}

/// Says what to do after `input`.
pub fn mount_on(args: &Args, input: MountInput) -> (command: MountCommand)
    ensures
        command == next_mount(args.no_stdin_password, input),
{
    match input {
        MountInput::Umounted => MountCommand::CheckDir,
        MountInput::DirExists(false) => MountCommand::CreateDir,
        MountInput::DirExists(true) | MountInput::DirCreated => MountCommand::Spawn,
        MountInput::Spawned => MountCommand::LogOutput,
        MountInput::OutputLogged { stdin, stderr } => {
            if args.no_stdin_password {
                MountCommand::LogErrors
            } else if stdin && stderr {
                MountCommand::FetchPassword
            } else {
                MountCommand::ReportStreams
            }
        },
        MountInput::PasswordFetched => MountCommand::AwaitPrompt(PROMPT_TIMEOUT_SECS),
        MountInput::PromptSeen => MountCommand::WritePassword,
        MountInput::PromptTimedOut => MountCommand::Fail(MountError::PromptTimeout),
        MountInput::PromptUnreadable => MountCommand::Fail(MountError::PromptUnreadable),
        MountInput::PasswordWritten => MountCommand::Flush,
        MountInput::Flushed | MountInput::StreamsReported => MountCommand::LogErrors,
        MountInput::ErrorsLogged => MountCommand::Finish,
        MountInput::Failed => MountCommand::Fail(MountError::Step),
    }
}

/// Whether `input` can come of `command`.
pub open spec fn answers(command: MountCommand, input: MountInput) -> bool {
    match command {
        MountCommand::ForceUmount => input is Umounted,
        MountCommand::CheckDir => input is DirExists || input is Failed,
        MountCommand::CreateDir => input is DirCreated || input is Failed,
        MountCommand::Spawn => input is Spawned || input is Failed,
        MountCommand::LogOutput => input is OutputLogged,
        MountCommand::FetchPassword => input is PasswordFetched || input is Failed,
        MountCommand::AwaitPrompt(_) => input is PromptSeen || input is PromptTimedOut
            || input is PromptUnreadable,
        MountCommand::WritePassword => input is PasswordWritten || input is Failed,
        MountCommand::Flush => input is Flushed || input is Failed,
        MountCommand::ReportStreams => input is StreamsReported,
        MountCommand::LogErrors => input is ErrorsLogged,
        MountCommand::Finish | MountCommand::Fail(_) => false,
    }
}

/// The command that mounting has reached after `inputs`.
pub open spec fn reached(no_stdin_password: bool, inputs: Seq<MountInput>) -> MountCommand {
    if inputs.len() == 0 {
        MountCommand::ForceUmount
    } else {
        next_mount(no_stdin_password, inputs.last())
    }
}

/// `inputs` is a course that mounting can take: each input comes of the command before it.
pub open spec fn is_course(no_stdin_password: bool, inputs: Seq<MountInput>) -> bool
    decreases inputs.len(),
{
    inputs.len() > 0 ==> is_course(no_stdin_password, inputs.drop_last()) && answers(
        reached(no_stdin_password, inputs.drop_last()),
        inputs.last(),
    )
}

/// The mount point is not touched, and nothing is started, before it has been unmounted: every
/// command but the first comes after that.
pub proof fn law_umount_comes_first(no_stdin_password: bool, inputs: Seq<MountInput>)
    requires
        is_course(no_stdin_password, inputs),
        inputs.len() > 0,
    ensures
        inputs[0] is Umounted,
    decreases inputs.len(),
{
    if inputs.len() > 1 {
        law_umount_comes_first(no_stdin_password, inputs.drop_last());
    }
}

/// `rclone` is started only where there is a directory: whether the password goes through the
/// standard input or not, it is started exactly when the mount point was found to exist or has
/// just been created, and the mount point is created exactly when it was found missing.
pub proof fn law_rclone_starts_in_an_existing_directory(
    no_stdin_password: bool,
    input: MountInput,
)
    ensures
        next_mount(no_stdin_password, input) is Spawn <==> (input == MountInput::DirExists(true)
            || input is DirCreated),
        next_mount(no_stdin_password, input) is CreateDir <==> input == MountInput::DirExists(
            false,
        ),
        next_mount(no_stdin_password, input) is CheckDir <==> input is Umounted,
        next_mount(no_stdin_password, input) !is ForceUmount,
{
}

/// The same over whole courses: a course that comes to starting `rclone` has just found the mount
/// point or created it, and one that has just found it missing comes to creating it.
pub proof fn law_course_has_a_directory_before_rclone(
    no_stdin_password: bool,
    inputs: Seq<MountInput>,
)
    requires
        is_course(no_stdin_password, inputs),
    ensures
        reached(no_stdin_password, inputs) is Spawn ==> inputs.len() >= 2 && (inputs.last()
            == MountInput::DirExists(true) || (inputs.last() is DirCreated && inputs[inputs.len()
            - 2] == MountInput::DirExists(false))),
        inputs.len() > 0 && inputs.last() == MountInput::DirExists(false) ==> reached(
            no_stdin_password,
            inputs,
        ) is CreateDir,
{
    reveal_with_fuel(is_course, 3);
}

/// Whether the password goes through the standard input makes a difference at one point only:
/// when `rclone` runs and its output is being logged.
pub proof fn law_password_choice_matters_once(input: MountInput)
    ensures
        next_mount(true, input) != next_mount(false, input) <==> input is OutputLogged,
{
}

/// Each step with the password is taken for one reason only. It is fetched if it is to go through
/// the standard input and the streams for it are there; the prompt is awaited for ten seconds
/// once it is fetched; it is written once the prompt was seen, and flushed once it was written.
pub proof fn law_password_steps_have_their_reasons(no_stdin_password: bool, input: MountInput)
    ensures
        next_mount(no_stdin_password, input) is FetchPassword <==> !no_stdin_password && input == (
        MountInput::OutputLogged { stdin: true, stderr: true }),
        next_mount(no_stdin_password, input) == MountCommand::AwaitPrompt(10) <==> input
            is PasswordFetched,
        next_mount(no_stdin_password, input) is AwaitPrompt <==> input is PasswordFetched,
        next_mount(no_stdin_password, input) is WritePassword <==> input is PromptSeen,
        next_mount(no_stdin_password, input) is Flush <==> input is PasswordWritten,
{
}

/// Each stream is logged for one reason only. The output is logged once `rclone` runs; missing
/// streams are reported if the password was to go through them; and the errors are logged once
/// the password is through, or missing streams were reported, or no password is to be handed
/// over.
pub proof fn law_logging_has_its_reasons(no_stdin_password: bool, input: MountInput)
    ensures
        next_mount(no_stdin_password, input) is LogOutput <==> input is Spawned,
        next_mount(no_stdin_password, input) is ReportStreams <==> !no_stdin_password && (input
            matches MountInput::OutputLogged { stdin, stderr } && !(stdin && stderr)),
        next_mount(no_stdin_password, input) is LogErrors <==> (input is Flushed
            || input is StreamsReported || (no_stdin_password && input is OutputLogged)),
{
}

/// Mounting ends for a reason: it keeps the process once its errors are being logged, and gives
/// up exactly if a step failed or the prompt did not come in time or could not be read, each with
/// its own error.
pub proof fn law_mount_ends_for_a_reason(no_stdin_password: bool, input: MountInput)
    ensures
        next_mount(no_stdin_password, input) is Finish <==> input is ErrorsLogged,
        next_mount(no_stdin_password, input) == MountCommand::Fail(MountError::Step) <==> input
            is Failed,
        next_mount(no_stdin_password, input) == MountCommand::Fail(MountError::PromptTimeout)
            <==> input is PromptTimedOut,
        next_mount(no_stdin_password, input) == MountCommand::Fail(MountError::PromptUnreadable)
            <==> input is PromptUnreadable,
{
}

/// What happens when everything works: the mount point exists or is created, `rclone` is started,
/// and it gets its password if it is to have it and the streams are there.
pub open spec fn smooth_course(
    no_stdin_password: bool,
    existed: bool,
    stdin: bool,
    stderr: bool,
) -> Seq<MountInput> {
    (if existed {
        seq![MountInput::Umounted, MountInput::DirExists(true)]
    } else {
        seq![MountInput::Umounted, MountInput::DirExists(false), MountInput::DirCreated]
    }) + seq![MountInput::Spawned, MountInput::OutputLogged { stdin, stderr }] + (
    if no_stdin_password {
        Seq::<MountInput>::empty()
    } else if stdin && stderr {
        seq![
            MountInput::PasswordFetched,
            MountInput::PromptSeen,
            MountInput::PasswordWritten,
            MountInput::Flushed,
        ]
    } else {
        seq![MountInput::StreamsReported]
    }) + seq![MountInput::ErrorsLogged]
}

/// Where everything works, mounting succeeds: it takes the smooth course, and that course ends
/// with the process being kept.
pub proof fn law_smooth_mount_succeeds(
    no_stdin_password: bool,
    existed: bool,
    stdin: bool,
    stderr: bool,
)
    ensures
        ({
            let inputs = smooth_course(no_stdin_password, existed, stdin, stderr);
            &&& is_course(no_stdin_password, inputs)
            &&& reached(no_stdin_password, inputs) is Finish
        }),
{
    let inputs = smooth_course(no_stdin_password, existed, stdin, stderr);
    assert forall|i: int| 0 < i <= inputs.len() implies answers(
        reached(no_stdin_password, #[trigger] inputs.take(i - 1)),
        inputs[i - 1],
    ) by {
        let before = inputs.take(i - 1);
        if i > 1 {
            assert(before.last() == inputs[i - 2]);
        }
    }
    lemma_course_by_steps(no_stdin_password, inputs);
}

/// A sequence in which each input answers the command before it is a course.
proof fn lemma_course_by_steps(no_stdin_password: bool, inputs: Seq<MountInput>)
    requires
        forall|i: int|
            0 < i <= inputs.len() ==> answers(
                reached(no_stdin_password, #[trigger] inputs.take(i - 1)),
                inputs[i - 1],
            ),
    ensures
        is_course(no_stdin_password, inputs),
    decreases inputs.len(),
{
    if inputs.len() > 0 {
        let front = inputs.drop_last();
        assert(inputs.take(inputs.len() - 1) =~= front);
        assert forall|i: int| 0 < i <= front.len() implies answers(
            reached(no_stdin_password, #[trigger] front.take(i - 1)),
            front[i - 1],
        ) by {
            assert(front.take(i - 1) =~= inputs.take(i - 1));
        }
        lemma_course_by_steps(no_stdin_password, front);
    }
}

/// The part of a course that leads to writing the password.
pub open spec fn prompted() -> Seq<MountInput> {
    seq![
        MountInput::Spawned,
        MountInput::OutputLogged { stdin: true, stderr: true },
        MountInput::PasswordFetched,
        MountInput::PromptSeen,
    ]
}

/// The password is written only if it is to go through the standard input, and then only after
/// it was fetched and the `rclone` just started was seen to ask for it.
pub proof fn law_password_is_written_when_asked_for(
    no_stdin_password: bool,
    inputs: Seq<MountInput>,
)
    requires
        is_course(no_stdin_password, inputs),
        reached(no_stdin_password, inputs) is WritePassword,
    ensures
        !no_stdin_password,
        inputs.len() >= 4,
        inputs.skip(inputs.len() - 4) == prompted(),
{
    reveal_with_fuel(is_course, 4);
    let three = inputs.drop_last();
    let two = three.drop_last();
    let one = two.drop_last();
    assert(reached(no_stdin_password, three) is AwaitPrompt);
    assert(reached(no_stdin_password, two) is FetchPassword);
    assert(reached(no_stdin_password, one) is LogOutput);
    assert(inputs.skip(inputs.len() - 4) =~= prompted());
}

/// Told to keep off the standard input, mounting neither fetches the password nor waits for the
/// prompt nor writes anything.
pub proof fn law_no_password_through_stdin(inputs: Seq<MountInput>)
    requires
        is_course(true, inputs),
    ensures
        !(reached(true, inputs) is FetchPassword),
        !(reached(true, inputs) is AwaitPrompt),
        !(reached(true, inputs) is WritePassword),
        !(reached(true, inputs) is Flush),
    decreases inputs.len(),
{
    if inputs.len() > 0 {
        law_no_password_through_stdin(inputs.drop_last());
    }
}

/// A process is kept only if `rclone` was started and, where the password goes through the
/// standard input, has it, or its streams were found missing.
pub proof fn law_finished_mount_is_complete(no_stdin_password: bool, inputs: Seq<MountInput>)
    requires
        is_course(no_stdin_password, inputs),
        reached(no_stdin_password, inputs) is Finish,
    ensures
        inputs.contains(MountInput::Spawned),
        no_stdin_password || inputs.contains(MountInput::Flushed) || inputs.contains(
            MountInput::StreamsReported,
        ),
{
    lemma_progress(no_stdin_password, inputs);
}

/// How far a command is from the end at most.
pub open spec fn steps_left(command: MountCommand) -> nat {
    match command {
        MountCommand::ForceUmount => 10,
        MountCommand::CheckDir => 9,
        MountCommand::CreateDir => 8,
        MountCommand::Spawn => 7,
        MountCommand::LogOutput => 6,
        MountCommand::FetchPassword => 5,
        MountCommand::AwaitPrompt(_) => 4,
        MountCommand::WritePassword => 3,
        MountCommand::Flush => 2,
        MountCommand::ReportStreams => 2,
        MountCommand::LogErrors => 1,
        MountCommand::Finish | MountCommand::Fail(_) => 0,
    }
}

/// What has happened for certain when a command is reached.
proof fn lemma_progress(no_stdin_password: bool, inputs: Seq<MountInput>)
    requires
        is_course(no_stdin_password, inputs),
    ensures
        ({
            let left = steps_left(reached(no_stdin_password, inputs));
            let failed = reached(no_stdin_password, inputs) is Fail;
            &&& inputs.len() + left <= 10
            &&& left <= 6 && !failed ==> inputs.contains(MountInput::Spawned)
            &&& left <= 1 && !failed ==> no_stdin_password || inputs.contains(MountInput::Flushed)
                || inputs.contains(MountInput::StreamsReported)
        }),
    decreases inputs.len(),
{
    if inputs.len() > 0 {
        let front = inputs.drop_last();
        lemma_progress(no_stdin_password, front);
        assert(inputs.contains(inputs.last())) by {
            assert(inputs[inputs.len() - 1] == inputs.last());
        }
        assert forall|input: MountInput| #[trigger] front.contains(input) implies inputs.contains(
            input,
        ) by {
            let i = choose|i: int| 0 <= i < front.len() && front[i] == input;
            assert(inputs[i] == input);
        }
    }
}

/// Mounting comes to an end: after ten commands at most it keeps the process or gives up.
pub proof fn law_mount_ends(no_stdin_password: bool, inputs: Seq<MountInput>)
    requires
        is_course(no_stdin_password, inputs),
    ensures
        inputs.len() <= 10,
        inputs.len() == 10 ==> reached(no_stdin_password, inputs) is Finish || reached(
            no_stdin_password,
            inputs,
        ) is Fail,
{
    lemma_progress(no_stdin_password, inputs);
}

} // verus!
