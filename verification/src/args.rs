//! What the daemon is told on its command line.

use vstd::prelude::*;

verus! {

/// The arguments of the daemon.
#[derive(Debug, PartialEq, Eq)]
pub struct Args {
    /// Whether log records carry the time.
    pub log_timestamp: bool,
    /// The `rclone` config entry to be mounted.
    pub rclone_entry: String,
    /// The value of the attribute `target` of the secret that holds the password.
    pub secret_target: Option<String>,
    /// Whether the password is not handed to `rclone` through its standard input.
    pub no_stdin_password: bool,
    /// Arguments passed to `rclone`.
    pub rclone_args: Vec<String>,
}

} // verus!
