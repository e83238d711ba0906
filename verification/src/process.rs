//! What the daemon knows of an `rclone` process, how it is brought to an end, and what follows
//! when it ends by itself.

use vstd::prelude::*;

verus! {

/// How long a process may take to exit after it was asked to, in seconds.
pub const CLOSE_GRACE_SECS: u64 = 5;

/// What is known of an `rclone` process. There is one such state for each process, shared by all
/// who deal with it, so it cannot be copied.
#[derive(Debug, PartialEq, Eq, Structural)]
pub struct RcloneProcess {
    /// The process identifier, where it is known.
    pub pid: Option<u32>,
    /// Whether the process has not been seen to exit yet.
    pub alive: bool,
    /// Whether the daemon has begun to close it.
    pub closing: bool,
}

/// The next step in closing a process.
#[derive(Debug, Clone, Copy, PartialEq, Eq, Structural)]
pub enum CloseStep {
    /// Send `SIGTERM` to this target.
    SendTerm(i32),
    /// Sleep for this many seconds.
    Wait(u64),
    /// Kill the process.
    SendKill,
    /// Nothing is left to do.
    Closed,
}

/// How waiting for a process ended.
#[derive(Debug, Clone, Copy, PartialEq, Eq, Structural)]
pub enum WaitOutcome {
    /// It exited, with success or without.
    Exited { success: bool },
    /// The wait itself failed.
    Failed,
}

/// The number that a process identifier is to `kill`: the identifier itself, or, where that is
/// above the largest `i32`, the negative number with the same 32 bits.
pub open spec fn kill_target(pid: u32) -> int {
    if pid <= i32::MAX {
        pid as int
    } else {
        pid - 0x1_0000_0000
    }
}

/// All that can be done to close a process, in order. Each step is taken only while the process
/// is alive.
pub open spec fn close_plan(pid: Option<u32>) -> Seq<CloseStep> {
    match pid {
        Some(n) => seq![
            CloseStep::SendTerm(kill_target(n) as i32),
            CloseStep::Wait(CLOSE_GRACE_SECS),
            CloseStep::SendKill,
        ],
        None => seq![CloseStep::Wait(CLOSE_GRACE_SECS), CloseStep::SendKill],
    }
}

/// The step behind `last` for a process that is still alive.
pub open spec fn step_behind(last: CloseStep) -> CloseStep {
    match last {
        CloseStep::SendTerm(_) => CloseStep::Wait(CLOSE_GRACE_SECS),
        CloseStep::Wait(_) => CloseStep::SendKill,
        CloseStep::SendKill => CloseStep::Closed,
        CloseStep::Closed => CloseStep::Closed,
    }
}

/// The steps that are decided on when the process is found alive, or not, as `alive` says at
/// each decision.
pub open spec fn close_run(pid: Option<u32>, alive: Seq<bool>) -> Seq<CloseStep>
    decreases alive.len(),
{
    if alive.len() == 0 {
        Seq::empty()
    } else {
        let before = close_run(pid, alive.drop_last());
        before.push(
            if !alive.last() {
                CloseStep::Closed
            } else if before.len() == 0 {
                close_plan(pid)[0]
            } else {
                step_behind(before.last())
            },
        )
    }
}

/// Closing follows the plan: as long as the process is found alive, its steps are taken in order
/// and none twice, so a process whose identifier is known is asked to exit and given time before
/// it is killed; from the first time that it is found dead, or once the plan is through, nothing
/// is done any more.
pub proof fn law_close_follows_plan(pid: Option<u32>, alive: Seq<bool>)
    ensures
        close_run(pid, alive).len() == alive.len(),
        forall|i: int|
            0 <= i < alive.len() ==> #[trigger] close_run(pid, alive)[i] == (if i < close_plan(
                pid,
            ).len() && (forall|j: int| 0 <= j <= i ==> alive[j]) {
                close_plan(pid)[i]
            } else {
                CloseStep::Closed
            }),
    decreases alive.len(),
{
    if alive.len() > 0 {
        let front = alive.drop_last();
        law_close_follows_plan(pid, front);
        let before = close_run(pid, front);
        let plan = close_plan(pid);
        assert forall|i: int| 0 <= i < alive.len() implies #[trigger] close_run(pid, alive)[i] == (
        if i < plan.len() && (forall|j: int| 0 <= j <= i ==> alive[j]) {
            plan[i]
        } else {
            CloseStep::Closed
        }) by {
            if i < front.len() {
                assert(close_run(pid, alive)[i] == before[i]);
                assert((forall|j: int| 0 <= j <= i ==> alive[j]) == (forall|j: int|
                    0 <= j <= i ==> front[j])) by {
                    assert(forall|j: int| 0 <= j <= i ==> alive[j] == front[j]);
                }
            } else if i > 0 {
                assert(before.last() == before[i - 1]);
                if alive.last() && (forall|j: int| 0 <= j <= i - 1 ==> front[j]) {
                    assert forall|j: int| 0 <= j <= i implies alive[j] by {
                        if j < i {
                            assert(front[j]);
                        }
                    }
                } else if alive.last() {
                    let k = choose|k: int| 0 <= k <= i - 1 && !front[k];
                    assert(!alive[k]);
                }
            }
        }
    }
}

/// The target of `kill` is the number with the same 32 bits as the process identifier: it fits an
/// `i32`, and differs from the identifier by nothing or by exactly two to the power of 32.
pub proof fn law_kill_target_has_the_bits_of_the_pid(pid: u32)
    ensures
        -0x8000_0000 <= kill_target(pid) <= 0x7fff_ffff,
        kill_target(pid) == pid || kill_target(pid) == pid - 0x1_0000_0000,
{
}

/// Whatever process is closed and whenever it dies, it is asked before it is killed: a live
/// process with a known identifier first gets a `SIGTERM` for that identifier, and nothing else;
/// then it gets five seconds, as a process without a known identifier does at once; and only
/// directly behind those five seconds is it killed. A process that is still alive gets the next
/// of these steps, one that is dead gets none, and behind the kill there is nothing.
pub proof fn law_asked_before_killed(pid: Option<u32>, alive: Seq<bool>, i: int)
    requires
        0 <= i < alive.len(),
    ensures
        ({
            let run = close_run(pid, alive);
            &&& run.len() == alive.len()
            &&& !alive[i] ==> run[i] is Closed
            &&& alive[0] ==> match pid {
                Some(n) => run[0] matches CloseStep::SendTerm(target) && (target == n || target == n
                    - 0x1_0000_0000),
                None => run[0] == CloseStep::Wait(5),
            }
            &&& run[i] is SendTerm ==> i == 0 && pid is Some
            &&& run[i] is Wait ==> run[i] == CloseStep::Wait(5) && (if pid is Some {
                i == 1 && run[0] is SendTerm
            } else {
                i == 0
            })
            &&& run[i] is SendKill ==> i > 0 && run[i - 1] == CloseStep::Wait(5)
            &&& i > 0 && alive[i] && run[i - 1] is SendTerm ==> run[i] == CloseStep::Wait(5)
            &&& i > 0 && alive[i] && run[i - 1] is Wait ==> run[i] is SendKill
            &&& i > 0 && (run[i - 1] is SendKill || run[i - 1] is Closed) ==> run[i] is Closed
        }),
{
    law_close_follows_plan(pid, alive);
    let run = close_run(pid, alive);
    assert(run[0] == run[0]);
    assert(run[i] == run[i]);
    if i > 0 {
        assert(run[i - 1] == run[i - 1]);
        if i > 1 && run[i - 1] is Closed && i - 1 < close_plan(pid).len() {
            let j = choose|j: int| 0 <= j <= i - 1 && !alive[j];
            assert(!alive[j]);
        }
    }
    if i == 2 {
        assert(run[1] == run[1]);
    }
}

/// The steps of closing follow each other in one way only, whatever was signalled and however
/// long was waited: asking is followed by five seconds of waiting, waiting by the kill, and
/// nothing comes behind the kill or the end.
pub proof fn law_steps_follow_each_other(target: i32, seconds: u64)
    ensures
        step_behind(CloseStep::SendTerm(target)) == CloseStep::Wait(5),
        step_behind(CloseStep::Wait(seconds)) == CloseStep::SendKill,
        step_behind(CloseStep::SendKill) == CloseStep::Closed,
        step_behind(CloseStep::Closed) == CloseStep::Closed,
{
}

/// A process that is being closed never asks to be mounted again when it ends, however it ends:
/// once a close is among what happened to it, no wait leads to a retry.
pub proof fn law_closed_process_is_not_retried(
    pid: Option<u32>,
    uses: Seq<ProcessUse>,
    outcome: WaitOutcome,
)
    requires
        uses.contains(ProcessUse::Close),
    ensures
        !after_uses(pid, uses).retries_after(outcome),
{
    law_process_remembers(pid, uses);
}

/// A process that nobody has closed is mounted again when it ends, unless it exits with success.
pub proof fn law_failed_process_is_retried(
    pid: Option<u32>,
    uses: Seq<ProcessUse>,
    outcome: WaitOutcome,
)
    requires
        !uses.contains(ProcessUse::Close),
    ensures
        after_uses(pid, uses).retries_after(outcome) <==> outcome != (WaitOutcome::Exited {
            success: true,
        }),
{
    law_process_remembers(pid, uses);
}

/// Something that happens to a process.
pub enum ProcessUse {
    /// Closing it begins.
    Close,
    /// Waiting for it ends.
    WaitEnded(WaitOutcome),
}

/// What is known of a process that started with `pid` after `uses`.
pub open spec fn after_uses(pid: Option<u32>, uses: Seq<ProcessUse>) -> RcloneProcess
    decreases uses.len(),
{
    if uses.len() == 0 {
        started(pid)
    } else {
        let before = after_uses(pid, uses.drop_last());
        match uses.last() {
            ProcessUse::Close => before.after_close(),
            ProcessUse::WaitEnded(outcome) => before.after_wait(outcome),
        }
    }
}

/// Whether the process was seen to exit in this use.
pub open spec fn is_exit(happened: ProcessUse) -> bool {
    happened matches ProcessUse::WaitEnded(outcome) && outcome is Exited
}

/// Whatever happens to a process, its state says exactly this: its identifier is the one it
/// started with, it is closing exactly if it has been closed, and it is alive exactly if it has
/// not been seen to exit. Closing alone does not end its life, and its end does not count as
/// closing.
pub proof fn law_process_remembers(pid: Option<u32>, uses: Seq<ProcessUse>)
    ensures
        after_uses(pid, uses).pid == pid,
        after_uses(pid, uses).closing <==> uses.contains(ProcessUse::Close),
        after_uses(pid, uses).alive <==> (forall|i: int|
            0 <= i < uses.len() ==> !is_exit(#[trigger] uses[i])),
        after_uses(pid, uses).alive <==> !uses.contains(
            ProcessUse::WaitEnded(WaitOutcome::Exited { success: true }),
        ) && !uses.contains(ProcessUse::WaitEnded(WaitOutcome::Exited { success: false })),
    decreases uses.len(),
{
    if uses.len() > 0 {
        let front = uses.drop_last();
        let last = uses.len() - 1;
        law_process_remembers(pid, front);
        assert(uses[last] == uses.last());
        assert(forall|i: int| 0 <= i < front.len() ==> uses[i] == front[i]);
        if front.contains(ProcessUse::Close) {
            let i = choose|i: int| 0 <= i < front.len() && front[i] == ProcessUse::Close;
            assert(uses[i] == ProcessUse::Close);
        }
        if uses.contains(ProcessUse::Close) && !(uses.last() is Close) {
            let i = choose|i: int| 0 <= i < uses.len() && uses[i] == ProcessUse::Close;
            assert(front[i] == ProcessUse::Close);
        }
        if after_uses(pid, uses).alive {
            assert forall|i: int| 0 <= i < uses.len() implies !is_exit(#[trigger] uses[i]) by {
                if i < last {
                    assert(!is_exit(front[i]));
                }
            }
        } else if !after_uses(pid, front).alive {
            let i = choose|i: int| 0 <= i < front.len() && is_exit(#[trigger] front[i]);
            assert(is_exit(uses[i]));
        } else {
            assert(is_exit(uses[last]));
        }
    }
    let won = ProcessUse::WaitEnded(WaitOutcome::Exited { success: true });
    let lost = ProcessUse::WaitEnded(WaitOutcome::Exited { success: false });
    assert(is_exit(won) && is_exit(lost));
    if !after_uses(pid, uses).alive {
        let i = choose|i: int| 0 <= i < uses.len() && is_exit(#[trigger] uses[i]);
        assert(uses[i] == won || uses[i] == lost);
    }
}

/// A process never comes back to life and never stops being closed, whatever else happens to it.
pub proof fn law_process_only_moves_on(
    pid: Option<u32>,
    uses: Seq<ProcessUse>,
    more: Seq<ProcessUse>,
)
    ensures
        after_uses(pid, uses).closing ==> after_uses(pid, uses + more).closing,
        !after_uses(pid, uses).alive ==> !after_uses(pid, uses + more).alive,
    decreases more.len(),
{
    if more.len() == 0 {
        assert(uses + more == uses);
    } else {
        law_process_only_moves_on(pid, uses, more.drop_last());
        assert((uses + more).drop_last() == uses + more.drop_last());
    }
}

/// A process that has just been started.
pub open spec fn started(pid: Option<u32>) -> RcloneProcess {
    RcloneProcess { pid, alive: true, closing: false }
}

impl RcloneProcess {
    /// The process once closing it has begun.
    pub open spec fn after_close(self) -> RcloneProcess {
        RcloneProcess { closing: true, ..self }
    }

    /// The process once waiting for it has ended with `outcome`.
    pub open spec fn after_wait(self, outcome: WaitOutcome) -> RcloneProcess {
        match outcome {
            WaitOutcome::Exited { .. } => RcloneProcess { alive: false, ..self },
            WaitOutcome::Failed => self,
        }
    }

    /// Whether `outcome` calls for another try to mount.
    pub open spec fn retries_after(self, outcome: WaitOutcome) -> bool {
        !self.closing && outcome != (WaitOutcome::Exited { success: true })
    }

    /// A process that has just been started.
    pub fn new(pid: Option<u32>) -> (process: RcloneProcess)
        ensures
            process == started(pid),
            process.pid == pid && process.alive && !process.closing,
    {
        RcloneProcess { pid, alive: true, closing: false }
    }

    /// Whether the process has not been seen to exit yet.
    pub fn is_alive(&self) -> (alive: bool)
        ensures
            alive == self.alive,
    {
        self.alive
    }

    /// Whether the daemon has begun to close the process.
    pub fn is_closing(&self) -> (closing: bool)
        ensures
            closing == self.closing,
    {
        self.closing
    }

    /// Begins to close the process and says what to do first.
    pub fn close(&mut self) -> (step: CloseStep)
        ensures
            final(self).closing,
            final(self).alive == old(self).alive,
            final(self).pid == old(self).pid,
            !old(self).alive ==> step is Closed,
            old(self).alive ==> match old(self).pid {
                Some(n) => step matches CloseStep::SendTerm(target) && (target == n || target == n
                    - 0x1_0000_0000),
                None => step == CloseStep::Wait(5),
            },
            *final(self) == old(self).after_close(),
            step == (if old(self).alive {
                close_plan(old(self).pid)[0]
            } else {
                CloseStep::Closed
            }),
    {
        self.closing = true;
        if !self.alive {
            return CloseStep::Closed;
        }
        match self.pid {
            Some(pid) => CloseStep::SendTerm(target_of(pid)),
            None => CloseStep::Wait(CLOSE_GRACE_SECS),
        }
    }

    /// Says what to do after `last`, now that it has been done.
    pub fn close_on(&self, last: CloseStep) -> (step: CloseStep)
        ensures
            self.alive && last is SendTerm ==> step == CloseStep::Wait(5),
            self.alive && last is Wait ==> step is SendKill,
            !self.alive || last is SendKill || last is Closed ==> step is Closed,
            step == (if self.alive {
                step_behind(last)
            } else {
                CloseStep::Closed
            }),
    {
        if !self.alive {
            return CloseStep::Closed;
        }
        match last {
            CloseStep::SendTerm(_) => CloseStep::Wait(CLOSE_GRACE_SECS),
            CloseStep::Wait(_) => CloseStep::SendKill,
            CloseStep::SendKill | CloseStep::Closed => CloseStep::Closed,
        }
    }

    /// Takes in how waiting for the process ended, and says whether to try to mount again later.
    pub fn wait_ended(&mut self, outcome: WaitOutcome) -> (retry: bool)
        ensures
            final(self).pid == old(self).pid,
            final(self).closing == old(self).closing,
            outcome is Exited ==> !final(self).alive,
            outcome is Failed ==> final(self).alive == old(self).alive,
            retry <==> !old(self).closing && outcome != (WaitOutcome::Exited { success: true }),
            *final(self) == old(self).after_wait(outcome),
            retry == old(self).retries_after(outcome),
    {
        match outcome {
            WaitOutcome::Exited { success } => {
                self.alive = false;
                if success {
                    return false;
                }
            },
            WaitOutcome::Failed => {},
        }
        !self.closing
    }
}

/// The number that a process identifier is to `kill`.
pub fn target_of(pid: u32) -> (target: i32)
    ensures
        target == kill_target(pid),
        target == pid || target == pid - 0x1_0000_0000,
{
    let target = pid as i32;
    assert(pid <= 0x7fff_ffff ==> target == pid) by (bit_vector)
        requires
            target == pid as i32,
    ;
    assert(pid > 0x7fff_ffff ==> target == pid - 0x1_0000_0000) by (bit_vector)
        requires
            target == pid as i32,
    ;
    target
}

/// `std::io::Error`, carried through unread.
#[verifier::external_type_specification]
#[verifier::external_body]
pub struct ExIoError(std::io::Error);

/// Sending a signal failed.
#[derive(Debug)]
pub struct SignalError {
    /// The error of the operating system.
    pub cause: std::io::Error,
}

/// Calls `cvt::cvt` on the value that a system call returned.
///
/// Trusted, for Unix: minus one is an error, and every other value is handed back. Which error it
/// is comes from the operating system and is left unsaid.
#[verifier::external_body]
fn check_return(ret: i32) -> (result: Result<i32, std::io::Error>)
    ensures
        result is Ok <==> ret != -1,
        result matches Ok(value) ==> value == ret,
{
    cvt::cvt(ret)
}

/// Says whether a signal was sent, from what `kill` returned just now.
pub fn signal_sent(ret: i32) -> (result: Result<(), SignalError>)
    ensures
        result is Ok <==> ret != -1,
{
    match check_return(ret) {
        Ok(_) => Ok(()),
        Err(cause) => Err(SignalError { cause }),
    }
}

} // verus!
