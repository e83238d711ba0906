# rclone-mount-ext

A daemon that improves `rclone mount`. It stops `rclone` when the system is about to sleep, so that
an application that hangs on the mount does not keep the system awake, and mounts again after the
system has resumed.

- `src/` is the library: what the daemon decides or computes, verified with Verus. Three calls are
  taken on trust, with the contracts written above them: `cvt::cvt`, `String::from_utf8_lossy` and
  `<[u8]>::fill`.
- `app/` is the program: it carries out what the library decides (processes, D-Bus, the secret
  service, timers, the log) and reports back what came of it.
- `tests/` holds the library's tests.

| Module | What it decides |
| --- | --- |
| `run` | what is set up before the main loop, and how the daemon returns |
| `supervisor` | the main loop: which process is kept, what each event leads to, when to retry |
| `process` | how a process is closed, and what follows when it ends by itself |
| `mount` | the steps of mounting, from clearing the mount point to handing over the password |
| `secret` | how the password is found in the secret service, and that it is wiped after use |
| `prompt` | when `rclone` has asked for the password |
| `lines`, `text` | which lines of its output are logged, and how |
| `dbus` | what the signals of the desktop lead to |
| `mount_point`, `command` | where the entry is mounted, and by which commands |
