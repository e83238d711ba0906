use rclone_mount_ext::args::Args;
use rclone_mount_ext::command::{mount_command, umount_command};
use rclone_mount_ext::mount::{mount_on, mount_start, MountCommand, MountError, MountInput};
use rclone_mount_ext::mount_point::{mount_point, MountPointError};
use std::path::PathBuf;

fn args(no_stdin_password: bool) -> Args {
    Args {
        log_timestamp: false,
        rclone_entry: "drive".to_string(),
        secret_target: None,
        no_stdin_password,
        rclone_args: vec!["--read-only".to_string(), "-v".to_string()],
    }
}

/// Runs the course that `inputs` gives and returns all the commands.
fn course(args: &Args, inputs: &[MountInput]) -> Vec<MountCommand> {
    let mut commands = vec![mount_start()];
    for &input in inputs {
        commands.push(mount_on(args, input));
    }
    commands
}

#[test]
fn mount_point_under_runtime_dir() {
    assert_eq!(
        mount_point(Some("/run/user/1000".to_string()), "drive"),
        Ok("/run/user/1000/app/rclone/drive".to_string())
    );
}

#[test]
fn mount_point_needs_runtime_dir() {
    assert_eq!(mount_point(None, "drive"), Err(MountPointError::RuntimeDirNotSet));
    assert_eq!(MountPointError::RuntimeDirNotSet.message(), "XDG_RUNTIME_DIR isn't set");
}

#[test]
fn mount_point_agrees_with_path_buf() {
    for dir in ["", "/", "/run", "/run/", "run", "/r//", "\u{e4}/\u{df}", "."] {
        for entry in ["", "a", "/", "/abs", "a/b", "a/", "../x", "\u{20ac}", ".", "//"] {
            let mut buf = PathBuf::from(dir);
            buf.push("app");
            buf.push("rclone");
            buf.push(entry);
            assert_eq!(
                mount_point(Some(dir.to_string()), entry).unwrap(),
                buf.to_str().unwrap()
            );
        }
    }
}

#[test]
fn different_entries_have_different_mount_points() {
    let dir = Some("/run".to_string());
    assert_ne!(mount_point(dir.clone(), "a"), mount_point(dir, "b"));
}

#[test]
fn umount_command_line() {
    let line = umount_command("/mnt/x");
    assert_eq!(line.program, "fusermount3");
    assert_eq!(line.args, ["-uq", "/mnt/x"]);
}

#[test]
fn mount_command_line() {
    let line = mount_command(&args(false), "/mnt/x");
    assert_eq!(line.program, "rclone");
    assert_eq!(
        line.args,
        ["mount", "--vfs-cache-mode", "full", "drive:", "/mnt/x", "--read-only", "-v"]
    );
}

#[test]
fn mount_with_password() {
    let commands = course(
        &args(false),
        &[
            MountInput::Umounted,
            MountInput::DirExists(false),
            MountInput::DirCreated,
            MountInput::Spawned,
            MountInput::OutputLogged { stdin: true, stderr: true },
            MountInput::PasswordFetched,
            MountInput::PromptSeen,
            MountInput::PasswordWritten,
            MountInput::Flushed,
            MountInput::ErrorsLogged,
        ],
    );
    assert_eq!(
        commands,
        vec![
            MountCommand::ForceUmount,
            MountCommand::CheckDir,
            MountCommand::CreateDir,
            MountCommand::Spawn,
            MountCommand::LogOutput,
            MountCommand::FetchPassword,
            MountCommand::AwaitPrompt(10),
            MountCommand::WritePassword,
            MountCommand::Flush,
            MountCommand::LogErrors,
            MountCommand::Finish,
        ]
    );
}

#[test]
fn mount_without_password() {
    let commands = course(
        &args(true),
        &[
            MountInput::Umounted,
            MountInput::DirExists(true),
            MountInput::Spawned,
            MountInput::OutputLogged { stdin: true, stderr: true },
            MountInput::ErrorsLogged,
        ],
    );
    assert_eq!(
        commands,
        vec![
            MountCommand::ForceUmount,
            MountCommand::CheckDir,
            MountCommand::Spawn,
            MountCommand::LogOutput,
            MountCommand::LogErrors,
            MountCommand::Finish,
        ]
    );
}

#[test]
fn missing_streams_are_reported() {
    for (stdin, stderr) in [(false, false), (true, false), (false, true)] {
        let input = MountInput::OutputLogged { stdin, stderr };
        assert_eq!(mount_on(&args(false), input), MountCommand::ReportStreams);
        assert_eq!(mount_on(&args(true), input), MountCommand::LogErrors);
    }
    assert_eq!(
        mount_on(&args(false), MountInput::StreamsReported),
        MountCommand::LogErrors
    );
}

#[test]
fn mount_errors() {
    assert_eq!(
        mount_on(&args(false), MountInput::PromptTimedOut),
        MountCommand::Fail(MountError::PromptTimeout)
    );
    assert_eq!(
        mount_on(&args(false), MountInput::PromptUnreadable),
        MountCommand::Fail(MountError::PromptUnreadable)
    );
    assert_eq!(
        mount_on(&args(false), MountInput::Failed),
        MountCommand::Fail(MountError::Step)
    );
    assert_eq!(
        MountError::PromptTimeout.message(),
        Some("Timeout of waiting `password:`")
    );
    assert_eq!(
        MountError::PromptUnreadable.message(),
        Some("Error reading `password:` from rclone err stream")
    );
    assert_eq!(MountError::Step.message(), None);
}
