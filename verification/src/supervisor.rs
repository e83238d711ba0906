//! The main loop of the daemon: which process it keeps, and what it does on each event.

use crate::dbus;
use crate::event::Event;
use vstd::prelude::*;

verus! {

/// How long the daemon waits before it tries to mount again, in seconds.
pub const RETRY_DELAY_SECS: u64 = 30;

/// What follows when a process has been closed.
#[derive(Debug, Clone, Copy, PartialEq, Eq, Structural)]
pub enum AfterClose {
    Mount,
    Receive,
    Exit,
}

/// What the main loop does next.
#[derive(Debug, PartialEq, Eq)]
pub enum Command<P> {
    /// Wait for the next event.
    Receive,
    /// Start a sleep listener.
    StartSleepListener,
    /// Start an unlock listener.
    StartUnlockListener,
    /// Close the process.
    Close(P, AfterClose),
    /// Mount the entry.
    Mount,
    /// Watch the process that has just been mounted, so that a failure leads to a retry.
    Watch,
    /// Ask for another try to mount.
    Retry,
    /// End.
    Exit,
}

/// What came of the main loop's last command.
#[derive(Debug, PartialEq, Eq)]
pub enum Input<P> {
    /// An event arrived; `child_alive` is whether the kept process, if any, is alive.
    Received { event: Event, child_alive: bool },
    /// No more events can arrive. The main loop holds a sender of its own queue for as long as it
    /// runs, so this never happens to it.
    QueueClosed,
    /// A process was closed.
    Closed(AfterClose),
    /// Mounting succeeded with this process.
    Mounted(P),
    /// Mounting failed.
    MountFailed,
    /// A command that cannot fail was carried out.
    Done,
}

/// The events that the main loop starts with.
pub fn initial_events() -> (events: Vec<Event>)
    ensures
        events@ == seq![Event::StartSleepListener, Event::StartUnlockListener, Event::Mount],
{
    vec![Event::StartSleepListener, Event::StartUnlockListener, Event::Mount]
}

/// The command to close the kept process, if there is one, or else the command that would follow.
pub open spec fn close_then<P>(child: Option<P>, after: AfterClose) -> Command<P> {
    match child {
        Some(process) => Command::Close(process, after),
        None => follow_up(after),
    }
}

/// The command that follows when a process has been closed.
pub open spec fn follow_up<P>(after: AfterClose) -> Command<P> {
    match after {
        AfterClose::Mount => Command::Mount,
        AfterClose::Receive => Command::Receive,
        AfterClose::Exit => Command::Exit,
    }
}

/// The process that is kept after `input`, where `child` was kept before.
pub open spec fn kept<P>(child: Option<P>, input: Input<P>) -> Option<P> {
    match input {
        Input::Received { event, child_alive } => match event {
            Event::StartSleepListener | Event::StartUnlockListener => child,
            Event::Mount => if child_alive {
                child
            } else {
                None
            },
            Event::Unmount | Event::Error => None,
        },
        Input::QueueClosed => None,
        Input::Mounted(process) => Some(process),
        Input::Closed(_) | Input::MountFailed | Input::Done => child,
    }
}

/// What the main loop does after `input`, where `child` was kept before.
pub open spec fn command<P>(child: Option<P>, input: Input<P>) -> Command<P> {
    match input {
        Input::Received { event, child_alive } => match event {
            Event::StartSleepListener => Command::StartSleepListener,
            Event::StartUnlockListener => Command::StartUnlockListener,
            Event::Mount => if child is Some && child_alive {
                Command::Receive
            } else {
                close_then(child, AfterClose::Mount)
            },
            Event::Unmount => close_then(child, AfterClose::Receive),
            Event::Error => close_then(child, AfterClose::Exit),
        },
        Input::QueueClosed => close_then(child, AfterClose::Exit),
        Input::Closed(after) => follow_up(after),
        Input::Mounted(_) => Command::Watch,
        Input::MountFailed => Command::Retry,
        Input::Done => Command::Receive,
    }
}

/// The main loop's state: the process that it keeps, if it keeps one.
pub struct Supervisor<P> {
    child: Option<P>,
}

impl<P> Supervisor<P> {
    /// The process that is kept.
    pub closed spec fn child(&self) -> Option<P> {
        self.child
    }

    /// The state at the start: no process is kept.
    pub fn new() -> (supervisor: Supervisor<P>)
        ensures
            supervisor.child() == None::<P>,
    {
        Supervisor { child: None }
    }

    /// What the main loop does first.
    pub fn start(&self) -> (next: Command<P>)
        ensures
            next == reached(Seq::<Input<P>>::empty()),
            next is Receive,
    {
        Command::Receive
    }

    /// The process that is kept.
    pub fn kept_process(&self) -> (child: Option<&P>)
        ensures
            child == (match self.child() {
                Some(process) => Some(&process),
                None => None,
            }),
    {
        self.child.as_ref()
    }

    /// Lets go of the kept process, if there is one, so that it is closed before `after`.
    fn let_go(&mut self, after: AfterClose) -> (next: Command<P>)
        ensures
            final(self).child() == None::<P>,
            next == close_then(old(self).child(), after),
    {
        match self.child.take() {
            Some(process) => Command::Close(process, after),
            None => Self::go_on(after),
        }
    }

    /// The command that follows when a process has been closed.
    fn go_on(after: AfterClose) -> (next: Command<P>)
        ensures
            next == follow_up::<P>(after),
    {
        match after {
            AfterClose::Mount => Command::Mount,
            AfterClose::Receive => Command::Receive,
            AfterClose::Exit => Command::Exit,
        }
    }

    /// Takes in an input and says what to do next.
    pub fn step(&mut self, input: Input<P>) -> (next: Command<P>)
        ensures
            final(self).child() == kept(old(self).child(), input),
            next == command(old(self).child(), input),
    {
        match input {
            Input::Received { event, child_alive } => match event {
                Event::StartSleepListener => Command::StartSleepListener,
                Event::StartUnlockListener => Command::StartUnlockListener,
                Event::Mount => {
                    if self.child.is_some() && child_alive {
                        return Command::Receive;
                    }
                    self.let_go(AfterClose::Mount)
                },
                Event::Unmount => self.let_go(AfterClose::Receive),
                Event::Error => self.let_go(AfterClose::Exit),
            },
            Input::QueueClosed => self.let_go(AfterClose::Exit),
            Input::Closed(after) => Self::go_on(after),
            Input::Mounted(process) => {
                self.child = Some(process);
                Command::Watch
            },
            Input::MountFailed => Command::Retry,
            Input::Done => Command::Receive,
        }
    }
}

/// Whether `input` can come of `command`. The queue of events does not end while the main loop
/// runs.
pub open spec fn answers<P>(command: Command<P>, input: Input<P>) -> bool {
    match command {
        Command::Receive => input is Received,
        Command::StartSleepListener | Command::StartUnlockListener => input is Done,
        Command::Watch | Command::Retry => input is Done,
        Command::Close(_, after) => input == Input::<P>::Closed(after),
        Command::Mount => input is Mounted || input is MountFailed,
        Command::Exit => false,
    }
}

/// The process that is kept after `inputs`.
pub open spec fn kept_after<P>(inputs: Seq<Input<P>>) -> Option<P>
    decreases inputs.len(),
{
    if inputs.len() == 0 {
        None
    } else {
        kept(kept_after(inputs.drop_last()), inputs.last())
    }
}

/// The command that the main loop has reached after `inputs`.
pub open spec fn reached<P>(inputs: Seq<Input<P>>) -> Command<P> {
    if inputs.len() == 0 {
        Command::Receive
    } else {
        command(kept_after(inputs.drop_last()), inputs.last())
    }
}

/// `inputs` is a course that the main loop can take: each input comes of the command before it.
pub open spec fn is_course<P>(inputs: Seq<Input<P>>) -> bool
    decreases inputs.len(),
{
    inputs.len() > 0 ==> is_course(inputs.drop_last()) && answers(
        reached(inputs.drop_last()),
        inputs.last(),
    )
}

/// The processes that were mounted, in order.
pub open spec fn mounted<P>(inputs: Seq<Input<P>>) -> Seq<P>
    decreases inputs.len(),
{
    if inputs.len() == 0 {
        Seq::empty()
    } else {
        let before = mounted(inputs.drop_last());
        match inputs.last() {
            Input::Mounted(process) => before.push(process),
            _ => before,
        }
    }
}

/// The processes that were closed, in order; one that is to be closed now counts.
pub open spec fn closed<P>(inputs: Seq<Input<P>>) -> Seq<P>
    decreases inputs.len(),
{
    if inputs.len() == 0 {
        Seq::empty()
    } else {
        let before = closed(inputs.drop_last());
        match reached(inputs) {
            Command::Close(process, _) => before.push(process),
            _ => before,
        }
    }
}

/// No step loses a process or makes one up, whatever is kept: a process that was kept is kept on,
/// or it is closed, and never both; nothing else is closed; and a process comes to be kept only
/// by having been mounted.
pub proof fn law_step_keeps_or_closes<P>(child: Option<P>, input: Input<P>)
    requires
        input !is Mounted,
    ensures
        child is None ==> kept(child, input) is None && command(child, input) !is Close,
        child is Some ==> (kept(child, input) == child && command(child, input) !is Close) || (kept(
            child,
            input,
        ) is None && command(child, input) is Close && command(child, input)->Close_0 == child->0),
{
}

/// A process that has just been mounted is kept and watched.
pub proof fn law_mounted_process_is_kept<P>(child: Option<P>, process: P)
    ensures
        kept(child, Input::Mounted(process)) == Some(process),
        command(child, Input::Mounted(process)) is Watch,
{
}

/// The kept process is closed for three reasons only: it is dead and the entry is to be mounted,
/// the entry is to be unmounted, or the main loop is to end. What follows is fixed by the reason.
pub proof fn law_closing_has_its_reasons<P>(child: Option<P>, input: Input<P>)
    ensures
        command(child, input) is Close ==> child is Some,
        command(child, input) is Close && command(child, input)->Close_1 is Mount <==> child is Some
            && input == (Input::<P>::Received { event: Event::Mount, child_alive: false }),
        command(child, input) is Close && command(child, input)->Close_1 is Receive <==> child
            is Some && (input matches Input::Received { event, .. } && event is Unmount),
        command(child, input) is Close && command(child, input)->Close_1 is Exit <==> child is Some
            && (input is QueueClosed || (input matches Input::Received { event, .. }
            && event is Error)),
{
}

/// Each other step of the main loop is taken for its own reasons only: a listener is started if it
/// is asked for; the entry is mounted if that is asked for while no process is kept, or a dead one
/// has been closed for it; another try is asked for if mounting failed; and the loop ends if it is
/// told of an error, or its queue ends, while no process is kept, or the one that was kept has
/// been closed for it.
pub proof fn law_steps_have_their_reasons<P>(child: Option<P>, input: Input<P>)
    ensures
        command(child, input) is StartSleepListener <==> (input matches Input::Received { event, .. }
            && event is StartSleepListener),
        command(child, input) is StartUnlockListener <==> (input matches Input::Received {
            event,
            ..
        } && event is StartUnlockListener),
        command(child, input) is Mount <==> input == Input::<P>::Closed(AfterClose::Mount) || (child
            is None && (input matches Input::Received { event, .. } && event is Mount)),
        command(child, input) is Watch <==> input is Mounted,
        command(child, input) is Retry <==> input is MountFailed,
        command(child, input) is Exit <==> input == Input::<P>::Closed(AfterClose::Exit) || (child
            is None && (input is QueueClosed || (input matches Input::Received { event, .. }
            && event is Error))),
{
}

/// The main loop waits for the next event when there is nothing else to do: a command was carried
/// out, a process has been closed for that, nothing is there to be unmounted, or the process that
/// is to be mounted is alive already.
pub proof fn law_waiting_has_its_reasons<P>(child: Option<P>, input: Input<P>)
    ensures
        command(child, input) is Receive <==> input is Done || input == Input::<P>::Closed(
            AfterClose::Receive,
        ) || (child is None && (input matches Input::Received { event, .. } && event is Unmount))
            || (child is Some && input == (Input::<P>::Received {
            event: Event::Mount,
            child_alive: true,
        })),
{
}

/// The main loop takes whatever event comes, and starting a listener, watching a process and
/// asking for another try do not end it: it comes back to waiting and keeps what it kept.
pub proof fn law_loop_goes_on<P>(inputs: Seq<Input<P>>, event: Event, child_alive: bool)
    requires
        is_course(inputs),
    ensures
        is_course(Seq::<Input<P>>::empty()),
        reached(Seq::<Input<P>>::empty()) is Receive,
        kept_after(Seq::<Input<P>>::empty()) is None,
        reached(inputs) is Receive ==> is_course(
            inputs.push(Input::Received { event, child_alive }),
        ),
        reached(inputs) is StartSleepListener || reached(inputs) is StartUnlockListener || reached(
            inputs,
        ) is Watch || reached(inputs) is Retry ==> {
            let done = inputs.push(Input::Done);
            &&& is_course(done)
            &&& reached(done) is Receive
            &&& kept_after(done) == kept_after(inputs)
        },
{
    assert(inputs.push(Input::Received { event, child_alive }).drop_last() == inputs);
    assert(inputs.push(Input::Done).drop_last() == inputs);
}

/// Either outcome of mounting is possible and leads back to waiting: with the process that was
/// mounted kept, or with none kept and another try asked for.
pub proof fn law_mounting_leads_back<P>(inputs: Seq<Input<P>>, process: P)
    requires
        is_course(inputs),
        reached(inputs) is Mount,
    ensures
        ({
            let won = inputs.push(Input::Mounted(process));
            let lost = inputs.push(Input::MountFailed);
            &&& is_course(won)
            &&& reached(won) is Watch
            &&& is_course(won.push(Input::Done))
            &&& reached(won.push(Input::Done)) is Receive
            &&& kept_after(won.push(Input::Done)) == Some(process)
            &&& is_course(lost)
            &&& reached(lost) is Retry
            &&& is_course(lost.push(Input::Done))
            &&& reached(lost.push(Input::Done)) is Receive
            &&& kept_after(lost.push(Input::Done)) is None
        }),
{
    let won = inputs.push(Input::Mounted(process));
    let lost = inputs.push(Input::MountFailed);
    law_one_process_at_a_time(inputs);
    assert(won.drop_last() == inputs);
    assert(is_course(won));
    assert(lost.drop_last() == inputs);
    assert(is_course(lost));
    law_loop_goes_on(won, Event::Mount, true);
    law_loop_goes_on(lost, Event::Mount, true);
}

/// The main loop never mounts on top of a process: when it mounts, every process that it mounted
/// before has been closed, and none is kept.
pub proof fn law_one_process_at_a_time<P>(inputs: Seq<Input<P>>)
    requires
        is_course(inputs),
        reached(inputs) is Mount,
    ensures
        kept_after(inputs) is None,
        mounted(inputs) == closed(inputs),
{
    law_every_process_is_closed_or_kept(inputs);
}

/// Every process that was mounted is closed exactly once, in the order of mounting; only the one
/// that is kept is not closed yet.
pub proof fn law_every_process_is_closed_or_kept<P>(inputs: Seq<Input<P>>)
    requires
        is_course(inputs),
    ensures
        mounted(inputs) == closed(inputs) + (match kept_after(inputs) {
            Some(process) => seq![process],
            None => Seq::<P>::empty(),
        }),
        reached(inputs) is Mount || reached(inputs) is Close || reached(inputs) is Exit
            ==> kept_after(inputs) is None,
    decreases inputs.len(),
{
    if inputs.len() > 0 {
        let front = inputs.drop_last();
        law_every_process_is_closed_or_kept(front);
        match kept_after(front) {
            Some(process) => {
                assert(closed(front).push(process) == closed(front) + seq![process]);
            },
            None => {},
        }
    }
}

/// When the daemon exits it leaves no process behind: all that were mounted have been closed.
pub proof fn law_nothing_is_left_at_exit<P>(inputs: Seq<Input<P>>)
    requires
        is_course(inputs),
        reached(inputs) is Exit,
    ensures
        mounted(inputs) == closed(inputs),
{
    law_every_process_is_closed_or_kept(inputs);
}

/// Going to sleep stops `rclone`: the event that the sleep signal calls for makes the main loop
/// close the process that it keeps, and after that it keeps none and waits for events again.
pub proof fn law_sleep_stops_the_process<P>(inputs: Seq<Input<P>>, event: Event, child_alive: bool)
    requires
        is_course(inputs),
        reached(inputs) is Receive,
        kept_after(inputs) is Some,
        dbus::sleep_event(true) == Some(event),
    ensures
        ({
            let asleep = inputs.push(Input::Received { event, child_alive });
            let rest = asleep.push(Input::Closed(AfterClose::Receive));
            &&& is_course(asleep)
            &&& reached(asleep) == Command::Close(kept_after(inputs)->0, AfterClose::Receive)
            &&& is_course(rest)
            &&& reached(rest) == Command::<P>::Receive
            &&& kept_after(rest) is None
        }),
{
    let asleep = inputs.push(Input::Received { event, child_alive });
    let rest = asleep.push(Input::Closed(AfterClose::Receive));
    assert(asleep.drop_last() == inputs);
    assert(rest.drop_last() == asleep);
    assert(is_course(asleep));
    assert(answers(reached(asleep), rest.last()));
    assert(is_course(rest));
}

/// Unlocking brings the mount back: the event that the unlock signal calls for makes the main
/// loop mount if it keeps no process, and close and then mount if the one it keeps is dead. A
/// process that is alive is left alone.
pub proof fn law_unlock_mounts_again<P>(inputs: Seq<Input<P>>, event: Event, child_alive: bool)
    requires
        is_course(inputs),
        reached(inputs) is Receive,
        dbus::unlock_event(false) == Some(event),
    ensures
        ({
            let unlocked = inputs.push(Input::Received { event, child_alive });
            let closed = unlocked.push(Input::Closed(AfterClose::Mount));
            &&& is_course(unlocked)
            &&& match kept_after(inputs) {
                None => reached(unlocked) == Command::<P>::Mount,
                Some(process) => if child_alive {
                    &&& reached(unlocked) == Command::<P>::Receive
                    &&& kept_after(unlocked) == Some(process)
                } else {
                    &&& reached(unlocked) == Command::Close(process, AfterClose::Mount)
                    &&& is_course(closed)
                    &&& reached(closed) == Command::<P>::Mount
                },
            }
        }),
{
    let unlocked = inputs.push(Input::Received { event, child_alive });
    let closed = unlocked.push(Input::Closed(AfterClose::Mount));
    assert(unlocked.drop_last() == inputs);
    assert(closed.drop_last() == unlocked);
    assert(is_course(unlocked));
    if kept_after(inputs) is Some && !child_alive {
        assert(answers(reached(unlocked), closed.last()));
        assert(is_course(closed));
    }
}

/// Sleep and resume: an entry that is mounted when the system goes to sleep is unmounted for the
/// sleep and mounted again when the screen is unlocked after it.
pub proof fn law_sleep_and_resume<P>(
    inputs: Seq<Input<P>>,
    sleep: Event,
    unlock: Event,
    alive_at_sleep: bool,
    alive_at_unlock: bool,
)
    requires
        is_course(inputs),
        reached(inputs) is Receive,
        kept_after(inputs) is Some,
        dbus::sleep_event(true) == Some(sleep),
        dbus::unlock_event(false) == Some(unlock),
    ensures
        ({
            let resumed = inputs.push(Input::Received { event: sleep, child_alive: alive_at_sleep }).push(
                Input::Closed(AfterClose::Receive),
            ).push(Input::Received { event: unlock, child_alive: alive_at_unlock });
            &&& is_course(resumed)
            &&& closed(resumed) == closed(inputs).push(kept_after(inputs)->0)
            &&& reached(resumed) == Command::<P>::Mount
            &&& kept_after(resumed) is None
        }),
{
    let asleep = inputs.push(Input::Received { event: sleep, child_alive: alive_at_sleep });
    let rest = asleep.push(Input::Closed(AfterClose::Receive));
    let resumed = rest.push(Input::Received { event: unlock, child_alive: alive_at_unlock });
    law_sleep_stops_the_process(inputs, sleep, alive_at_sleep);
    law_unlock_mounts_again(rest, unlock, alive_at_unlock);
    assert(asleep.drop_last() == inputs);
    assert(rest.drop_last() == asleep);
    assert(resumed.drop_last() == rest);
    assert(closed(asleep) == closed(inputs).push(kept_after(inputs)->0));
    assert(closed(rest) == closed(asleep));
}

/// A listener that asks for its replacement gets it: the main loop starts a listener of the same
/// kind and goes on with what it kept.
pub proof fn law_listener_is_restarted<P>(
    inputs: Seq<Input<P>>,
    kind: dbus::ListenerKind,
    child_alive: bool,
)
    requires
        is_course(inputs),
        reached(inputs) is Receive,
    ensures
        ({
            let asked = inputs.push(Input::Received { event: kind.restart_event(), child_alive });
            &&& is_course(asked)
            &&& reached(asked) == (match kind {
                dbus::ListenerKind::Sleep => Command::<P>::StartSleepListener,
                dbus::ListenerKind::Unlock => Command::<P>::StartUnlockListener,
            })
            &&& kept_after(asked) == kept_after(inputs)
        }),
{
    let asked = inputs.push(Input::Received { event: kind.restart_event(), child_alive });
    assert(asked.drop_last() == inputs);
}

/// Every try to mount has a consequence: one that succeeds is watched, and one that fails leads
/// to another try being asked for.
pub proof fn law_mount_is_watched_or_retried<P>(inputs: Seq<Input<P>>, outcome: Input<P>)
    requires
        is_course(inputs),
        reached(inputs) is Mount,
        answers(reached(inputs), outcome),
    ensures
        reached(inputs.push(outcome)) == (match outcome {
            Input::Mounted(_) => Command::<P>::Watch,
            _ => Command::<P>::Retry,
        }),
{
    assert(inputs.push(outcome).drop_last() == inputs);
}

/// The main loop ends when it is told of an error: it closes the process that it keeps, if any,
/// and exits.
pub proof fn law_error_ends_the_loop<P>(inputs: Seq<Input<P>>, child_alive: bool)
    requires
        is_course(inputs),
        reached(inputs) is Receive,
    ensures
        ({
            let told = inputs.push(Input::Received { event: Event::Error, child_alive });
            let closed = told.push(Input::Closed(AfterClose::Exit));
            &&& is_course(told)
            &&& match kept_after(inputs) {
                None => reached(told) == Command::<P>::Exit,
                Some(process) => {
                    &&& reached(told) == Command::Close(process, AfterClose::Exit)
                    &&& is_course(closed)
                    &&& reached(closed) == Command::<P>::Exit
                },
            }
        }),
{
    let told = inputs.push(Input::Received { event: Event::Error, child_alive });
    let closed = told.push(Input::Closed(AfterClose::Exit));
    assert(told.drop_last() == inputs);
    assert(closed.drop_last() == told);
    assert(is_course(told));
    if kept_after(inputs) is Some {
        assert(answers(reached(told), closed.last()));
        assert(is_course(closed));
    }
}

/// Whether `input` is the arrival of an error event.
pub open spec fn is_error<P>(input: Input<P>) -> bool {
    input matches Input::Received { event, .. } && event == Event::Error
}

/// The main loop never ends by itself: when it exits, it has received an error event, and that is
/// the last event that it received.
pub proof fn law_exit_only_on_error<P>(inputs: Seq<Input<P>>)
    requires
        is_course(inputs),
        reached(inputs) is Exit,
    ensures
        exists|i: int|
            0 <= i < inputs.len() && is_error(#[trigger] inputs[i]) && (forall|j: int|
                i < j < inputs.len() ==> (#[trigger] inputs[j]) !is Received),
{
    let last = inputs.len() - 1;
    if !is_error(inputs[last]) {
        let front = inputs.drop_last();
        assert(inputs.last() == Input::<P>::Closed(AfterClose::Exit));
        assert(reached(front) is Close);
        assert(is_course(front));
        assert(answers(reached(front.drop_last()), front.last()));
        assert(is_error(front.last()));
        assert(is_error(inputs[last - 1]));
    }
}

/// Should the queue of events end after all, the main loop ends as on an error: it closes the
/// process that it keeps, if any, so that all that were mounted are closed, and exits.
pub proof fn law_end_of_queue_is_like_an_error<P>(inputs: Seq<Input<P>>, child_alive: bool)
    requires
        is_course(inputs),
        reached(inputs) is Receive,
    ensures
        ({
            let ended = inputs.push(Input::QueueClosed);
            &&& reached(ended) == reached(
                inputs.push(Input::Received { event: Event::Error, child_alive }),
            )
            &&& kept_after(ended) is None
            &&& mounted(ended) == closed(ended)
        }),
{
    let ended = inputs.push(Input::QueueClosed);
    let told = inputs.push(Input::Received { event: Event::Error, child_alive });
    assert(ended.drop_last() == inputs);
    assert(told.drop_last() == inputs);
    law_every_process_is_closed_or_kept(inputs);
    assert(mounted(ended) == mounted(inputs));
    match kept_after(inputs) {
        Some(process) => {
            assert(reached(ended) == Command::Close(process, AfterClose::Exit));
            assert(closed(inputs).push(process) == closed(inputs) + seq![process]);
        },
        None => {
            assert(closed(ended) == closed(inputs));
        },
    }
}

/// Whether to set the timer for another try.
#[derive(Debug, Clone, Copy, PartialEq, Eq, Structural)]
pub enum RetryDecision {
    /// Wait for this many seconds and then try again.
    Schedule(u64),
    /// A timer is running already.
    Skip,
}

/// Remembers whether a timer for another try is running.
pub struct RetryMark {
    in_flight: bool,
}

impl RetryMark {
    /// Whether a timer is running.
    pub closed spec fn in_flight(&self) -> bool {
        self.in_flight
    }

    /// No timer is running at the start.
    pub fn new() -> (mark: RetryMark)
        ensures
            !mark.in_flight(),
    {
        RetryMark { in_flight: false }
    }

    /// Asks for another try. A timer is set unless one is running.
    pub fn request(&mut self) -> (decision: RetryDecision)
        ensures
            final(self).in_flight() == runs_after(RetryUse::Request),
            decision == (if sets_timer(old(self).in_flight(), RetryUse::Request) {
                RetryDecision::Schedule(RETRY_DELAY_SECS)
            } else {
                RetryDecision::Skip
            }),
            final(self).in_flight(),
            old(self).in_flight() ==> decision is Skip,
            !old(self).in_flight() ==> decision == RetryDecision::Schedule(30),
    {
        if self.in_flight {
            RetryDecision::Skip
        } else {
            self.in_flight = true;
            RetryDecision::Schedule(RETRY_DELAY_SECS)
        }
    }

    /// The event to send when the timer has run out.
    pub fn due(&self) -> (event: Event)
        ensures
            event == Event::Mount,
    {
        Event::Mount
    }

    /// Takes in that the event has been sent: the timer is no longer running.
    pub fn release(&mut self)
        ensures
            final(self).in_flight() == runs_after(RetryUse::Release),
            !final(self).in_flight(),
    {
        self.in_flight = false;
    }
}

/// Something that happens to a [`RetryMark`].
pub enum RetryUse {
    /// Another try is asked for.
    Request,
    /// A timer that was set has run out and its event is sent.
    Release,
}

/// Whether a timer is running after `last`, whatever was before.
pub open spec fn runs_after(last: RetryUse) -> bool {
    last is Request
}

/// Whether `next` sets a timer, where one was running before or not.
pub open spec fn sets_timer(in_flight: bool, next: RetryUse) -> bool {
    next is Request && !in_flight
}

/// Whether a timer is running after `uses`.
pub open spec fn running_after(uses: Seq<RetryUse>) -> bool {
    uses.len() > 0 && runs_after(uses.last())
}

/// The timers that `uses` set.
pub open spec fn timers_set(uses: Seq<RetryUse>) -> nat
    decreases uses.len(),
{
    if uses.len() == 0 {
        0
    } else {
        timers_set(uses.drop_last()) + (if sets_timer(
            running_after(uses.drop_last()),
            uses.last(),
        ) {
            1nat
        } else {
            0nat
        })
    }
}

/// The timers that ran out in `uses`.
pub open spec fn timers_run_out(uses: Seq<RetryUse>) -> nat
    decreases uses.len(),
{
    if uses.len() == 0 {
        0
    } else {
        timers_run_out(uses.drop_last()) + (if uses.last() is Release {
            1nat
        } else {
            0nat
        })
    }
}

/// A timer runs out only if one is running.
pub open spec fn releases_are_due(uses: Seq<RetryUse>) -> bool {
    forall|i: int|
        0 <= i < uses.len() && (#[trigger] uses[i]) is Release ==> running_after(uses.take(i))
}

/// Another try can be asked for again once the timer has run out, and not before: after a request
/// a timer is running, so that a second request sets none, and after it has run out the next
/// request sets one.
pub proof fn law_retry_is_possible_again(uses: Seq<RetryUse>)
    ensures
        ({
            let asked = uses.push(RetryUse::Request);
            let ran_out = asked.push(RetryUse::Release);
            &&& running_after(asked)
            &&& timers_set(asked) == timers_set(uses) + (if running_after(uses) {
                0nat
            } else {
                1nat
            })
            &&& timers_set(asked.push(RetryUse::Request)) == timers_set(asked)
            &&& !running_after(ran_out)
            &&& timers_set(ran_out) == timers_set(asked)
            &&& timers_set(ran_out.push(RetryUse::Request)) == timers_set(asked) + 1
        }),
        !running_after(Seq::empty()),
{
    let asked = uses.push(RetryUse::Request);
    let ran_out = asked.push(RetryUse::Release);
    assert(asked.drop_last() == uses);
    assert(asked.push(RetryUse::Request).drop_last() == asked);
    assert(ran_out.drop_last() == asked);
    assert(ran_out.push(RetryUse::Request).drop_last() == ran_out);
}

/// However often another try is asked for, at most one timer is running: the timers that were
/// set are those that ran out and, if one is running, that one.
pub proof fn law_one_retry_at_a_time(uses: Seq<RetryUse>)
    requires
        releases_are_due(uses),
    ensures
        timers_set(uses) == timers_run_out(uses) + (if running_after(uses) {
            1nat
        } else {
            0nat
        }),
    decreases uses.len(),
{
    if uses.len() > 0 {
        let front = uses.drop_last();
        assert forall|i: int| 0 <= i < front.len() && (#[trigger] front[i]) is Release implies
            running_after(front.take(i)) by {
            assert(uses[i] is Release);
            assert(front.take(i) == uses.take(i));
        }
        law_one_retry_at_a_time(front);
        assert(uses.take(uses.len() - 1) == front);
        if uses.last() is Release {
            assert(uses[uses.len() - 1] is Release);
        }
    }
}

} // verus!
