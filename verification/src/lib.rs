//! The decisions of a daemon that keeps an `rclone mount` alive across sleep and resume.
//!
//! The daemon unmounts when the system is about to sleep, so that nothing hangs on the mount and
//! keeps the system awake, and mounts again when the screen is unlocked. This library holds what
//! it decides and computes; the program around it carries the decisions out and reports back what
//! came of them. Where the two alternate, a command type says what to do, an input type says what
//! came of it, and a verified function leads from the input to the next command.

pub mod args;
pub mod command;
pub mod dbus;
pub mod event;
pub mod lines;
pub mod mount;
pub mod mount_point;
pub mod process;
pub mod prompt;
pub mod run;
pub mod secret;
pub mod supervisor;
pub mod text;
