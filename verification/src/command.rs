//! The programs that the daemon runs.

use crate::args::Args;
use vstd::prelude::*;

verus! {

/// A program and its arguments.
#[derive(Debug, PartialEq, Eq)]
pub struct CommandLine {
    pub program: String,
    pub args: Vec<String>,
}

/// What a [`CommandLine`] says.
pub struct CommandLineView {
    pub program: Seq<char>,
    pub args: Seq<Seq<char>>,
}

/// The texts of a list of strings.
pub open spec fn texts(strings: Seq<String>) -> Seq<Seq<char>> {
    strings.map_values(|string: String| string@)
}

impl View for CommandLine {
    type V = CommandLineView;

    open spec fn view(&self) -> CommandLineView {
        CommandLineView { program: self.program@, args: texts(self.args@) }
    }
}

/// The command that unmounts whatever is mounted at `mount_point`.
pub fn umount_command(mount_point: &str) -> (command: CommandLine)
    ensures
        command@ == (CommandLineView {
            program: "fusermount3"@,
            args: seq!["-uq"@, mount_point@],
        }),
        command.program@ == "fusermount3"@,
        command.args@.len() == 2,
        command.args@[0]@ == "-uq"@,
        command.args@[1]@ == mount_point@,
{
    let mut args: Vec<String> = Vec::new();
    args.push("-uq".to_string());
    args.push(mount_point.to_string());
    assert(texts(args@) =~= seq!["-uq"@, mount_point@]);
    CommandLine { program: "fusermount3".to_string(), args }
}

/// The command that mounts the entry of `args` at `mount_point`, with the further arguments that
/// `args` holds for `rclone` at its end.
pub fn mount_command(args: &Args, mount_point: &str) -> (command: CommandLine)
    ensures
        command@ == (CommandLineView {
            program: "rclone"@,
            args: seq![
                "mount"@,
                "--vfs-cache-mode"@,
                "full"@,
                args.rclone_entry@ + ":"@,
                mount_point@,
            ] + texts(args.rclone_args@),
        }),
        command.program@ == "rclone"@,
        command.args@.len() == 5 + args.rclone_args@.len(),
        command.args@[0]@ == "mount"@,
        command.args@[1]@ == "--vfs-cache-mode"@,
        command.args@[2]@ == "full"@,
        command.args@[3]@ == args.rclone_entry@ + ":"@,
        command.args@[4]@ == mount_point@,
        forall|i: int|
            0 <= i < args.rclone_args@.len() ==> (#[trigger] command.args@[5 + i])@
                == args.rclone_args@[i]@,
{
    let mut list: Vec<String> = Vec::new();
    list.push("mount".to_string());
    list.push("--vfs-cache-mode".to_string());
    list.push("full".to_string());
    list.push(args.rclone_entry.clone().concat(":"));
    list.push(mount_point.to_string());
    let ghost head = seq![
        "mount"@,
        "--vfs-cache-mode"@,
        "full"@,
        args.rclone_entry@ + ":"@,
        mount_point@,
    ];
    assert(texts(list@) =~= head + texts(args.rclone_args@.take(0)));
    let mut i: usize = 0;
    while i < args.rclone_args.len()
        invariant
            i <= args.rclone_args@.len(),
            texts(list@) == head + texts(args.rclone_args@.take(i as int)),
        decreases args.rclone_args@.len() - i,
    {
        let ghost before = list@;
        list.push(args.rclone_args[i].clone());
        assert(texts(list@) =~= texts(before).push(args.rclone_args@[i as int]@));
        assert(texts(args.rclone_args@.take(i + 1)) =~= texts(args.rclone_args@.take(i as int)).push(
            args.rclone_args@[i as int]@,
        ));
        i += 1;
    }
    assert(args.rclone_args@.take(i as int) == args.rclone_args@);
    proof {
        let whole = head + texts(args.rclone_args@);
        assert(texts(list@).len() == whole.len());
        assert forall|k: int| 0 <= k < list@.len() implies (#[trigger] list@[k])@ == whole[k] by {
            assert(texts(list@)[k] == list@[k]@);
        }
        assert forall|k: int| 0 <= k < args.rclone_args@.len() implies (#[trigger] list@[5 + k])@
            == args.rclone_args@[k]@ by {
            assert(whole[5 + k] == texts(args.rclone_args@)[k]);
        }
    }
    CommandLine { program: "rclone".to_string(), args: list }
}

} // verus!
