//! Where an entry is mounted.

use vstd::prelude::*;

verus! {

/// Why there is no mount point.
#[derive(Debug, Clone, Copy, PartialEq, Eq, Structural)]
pub enum MountPointError {
    /// `XDG_RUNTIME_DIR` is not set.
    RuntimeDirNotSet,
}

impl MountPointError {
    /// The error in words.
    pub fn message(&self) -> (message: &'static str)
        ensures
            message@ == "XDG_RUNTIME_DIR isn't set"@,
    {
        "XDG_RUNTIME_DIR isn't set"
    }
}

/// Whether the path is absolute.
pub open spec fn is_absolute(path: Seq<char>) -> bool {
    path.len() > 0 && path[0] == '/'
}

/// The path `path`, seen from the directory `dir`: an absolute path stands for itself, and any
/// other is put behind `dir`, with one slash between them unless `dir` is empty or ends with one.
pub open spec fn seen_from(dir: Seq<char>, path: Seq<char>) -> Seq<char> {
    if is_absolute(path) {
        path
    } else if dir.len() == 0 || dir.last() == '/' {
        dir + path
    } else {
        dir.push('/') + path
    }
}

/// The mount point of `entry` under the runtime directory `dir`.
pub open spec fn mount_point_in(dir: Seq<char>, entry: Seq<char>) -> Seq<char> {
    seen_from(seen_from(seen_from(dir, "app"@), "rclone"@), entry)
}

/// Joins `path` to `dir` in the way of file paths.
fn join(dir: String, path: &str) -> (joined: String)
    ensures
        joined@ == seen_from(dir@, path@),
{
    proof {
        reveal_strlit("/");
        assert(dir@ + "/"@ =~= dir@.push('/'));
    }
    if path.unicode_len() > 0 && path.get_char(0) == '/' {
        return path.to_string();
    }
    let len: usize = dir.as_str().unicode_len();
    if len == 0 || dir.as_str().get_char(len - 1) == '/' {
        dir.concat(path)
    } else {
        dir.concat("/").concat(path)
    }
}

/// The mount point of `rclone_entry`, from the value of `XDG_RUNTIME_DIR`, which may not be set.
pub fn mount_point(xdg_runtime_dir: Option<String>, rclone_entry: &str) -> (point: Result<
    String,
    MountPointError,
>)
    ensures
        point is Err <==> xdg_runtime_dir is None,
        point matches Ok(point) ==> point@ == mount_point_in(xdg_runtime_dir->0@, rclone_entry@),
        point matches Err(error) ==> error == MountPointError::RuntimeDirNotSet,
        point matches Ok(point) ==> (if rclone_entry@.len() > 0 && rclone_entry@[0] == '/' {
            point@ == rclone_entry@
        } else {
            let dir = xdg_runtime_dir->0@;
            point@ == (if dir.len() == 0 || dir.last() == '/' {
                dir
            } else {
                dir.push('/')
            }) + "app/rclone/"@ + rclone_entry@
        }),
{
    match xdg_runtime_dir {
        Some(dir) => {
            proof {
                law_mount_point_of_any_entry(dir@, rclone_entry@);
            }
            Ok(join(join(join(dir, "app"), "rclone"), rclone_entry))
        },
        None => Err(MountPointError::RuntimeDirNotSet),
    }
}

/// An entry with an ordinary name is mounted at `app/rclone/` and its name under the runtime
/// directory.
pub proof fn law_entry_is_mounted_under_runtime_dir(dir: Seq<char>, entry: Seq<char>)
    requires
        !is_absolute(entry),
    ensures
        mount_point_in(dir, entry) == (if dir.len() == 0 || dir.last() == '/' {
            dir
        } else {
            dir.push('/')
        }) + "app/rclone/"@ + entry,
{
    reveal_strlit("app");
    reveal_strlit("rclone");
    reveal_strlit("app/rclone/");
    let base = if dir.len() == 0 || dir.last() == '/' {
        dir
    } else {
        dir.push('/')
    };
    assert(seen_from(dir, "app"@) == base + "app"@);
    assert((base + "app"@).last() == 'p');
    assert(seen_from(base + "app"@, "rclone"@) == (base + "app"@).push('/') + "rclone"@);
    let inner = (base + "app"@).push('/') + "rclone"@;
    assert(inner.last() == 'e');
    assert(inner.push('/') =~= base + "app/rclone/"@);
}

/// Where any entry is mounted: one whose name begins with a slash at the place that it names, and
/// any other at `app/rclone/` and its name behind the runtime directory, with a slash between them
/// unless the directory is empty or ends with one.
pub proof fn law_mount_point_of_any_entry(dir: Seq<char>, entry: Seq<char>)
    ensures
        entry.len() > 0 && entry[0] == '/' ==> mount_point_in(dir, entry) == entry,
        entry.len() == 0 || entry[0] != '/' ==> mount_point_in(dir, entry) == (if dir.len() == 0
            || dir.last() == '/' {
            dir
        } else {
            dir.push('/')
        }) + "app/rclone/"@ + entry,
{
    if entry.len() == 0 || entry[0] != '/' {
        law_entry_is_mounted_under_runtime_dir(dir, entry);
    }
}

/// The mount point tells the entry and the runtime directory: two entries whose names do not begin
/// with a slash have the same mount point under a directory only if they are the same, and one
/// entry has the same mount point under two directories that both end with a slash, or both do
/// not, only if they are the same.
pub proof fn law_mount_point_tells_entry_and_dir(
    dir: Seq<char>,
    other_dir: Seq<char>,
    entry: Seq<char>,
    other: Seq<char>,
)
    requires
        entry.len() == 0 || entry[0] != '/',
        other.len() == 0 || other[0] != '/',
        dir.len() > 0 && other_dir.len() > 0,
        dir.last() == '/' <==> other_dir.last() == '/',
    ensures
        mount_point_in(dir, entry) == mount_point_in(dir, other) ==> entry == other,
        mount_point_in(dir, entry) == mount_point_in(other_dir, entry) ==> dir == other_dir,
{
    law_mount_point_of_any_entry(dir, entry);
    law_mount_point_of_any_entry(other_dir, entry);
    if entry != other {
        law_entries_do_not_collide(dir, entry, other);
    }
    let one = mount_point_in(dir, entry);
    let two = mount_point_in(other_dir, entry);
    if one == two {
        assert(one.len() == two.len());
        assert(dir.len() == other_dir.len());
        assert(dir =~= one.take(dir.len() as int));
        assert(other_dir =~= two.take(dir.len() as int));
    }
}

/// Entries with different ordinary names are mounted at different places.
pub proof fn law_entries_do_not_collide(dir: Seq<char>, first: Seq<char>, second: Seq<char>)
    requires
        !is_absolute(first),
        !is_absolute(second),
        first != second,
    ensures
        mount_point_in(dir, first) != mount_point_in(dir, second),
{
    let inner = seen_from(seen_from(dir, "app"@), "rclone"@);
    let base = if inner.len() == 0 || inner.last() == '/' {
        inner
    } else {
        inner.push('/')
    };
    assert(mount_point_in(dir, first) == base + first);
    assert(mount_point_in(dir, second) == base + second);
    if base + first == base + second {
        assert(first =~= (base + first).skip(base.len() as int));
        assert(second =~= (base + second).skip(base.len() as int));
    }
}

} // verus!
