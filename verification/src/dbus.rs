//! The signals of the desktop that the daemon listens to, and the listeners' side of the
//! conversation with the main loop.

use crate::event::Event;
use vstd::prelude::*;

verus! {

/// The login manager, as far as the daemon listens to it. The method stands for the signal of
/// the same name and says which event the signal calls for.
pub trait FdoLoginService {
    /// The system is about to sleep, or, with `false`, has just woken up.
    fn prepare_for_sleep(&self, prepare_for_sleep: bool) -> (event: Option<Event>)
        ensures
            event == sleep_event(prepare_for_sleep),
    ;
}

/// The screen saver, as far as the daemon listens to it. The method stands for the signal of the
/// same name and says which event the signal calls for.
pub trait FdoScreenSaverService {
    /// The screen was locked, or, with `false`, unlocked.
    fn active_changed(&self, active: bool) -> (event: Option<Event>)
        ensures
            event == unlock_event(active),
    ;
}

/// Going to sleep calls for unmounting.
pub open spec fn sleep_event(prepare_for_sleep: bool) -> Option<Event> {
    if prepare_for_sleep {
        Some(Event::Unmount)
    } else {
        None
    }
}

/// Unlocking calls for mounting.
pub open spec fn unlock_event(active: bool) -> Option<Event> {
    if active {
        None
    } else {
        Some(Event::Mount)
    }
}

/// The message bus that a listener connects to.
#[derive(Debug, Clone, Copy, PartialEq, Eq, Structural)]
pub enum Bus {
    System,
    Session,
}

/// What a listener does next.
#[derive(Debug, Clone, Copy, PartialEq, Eq, Structural)]
pub enum ListenerCommand {
    /// Connect to the bus.
    Connect(Bus),
    /// Make a proxy of the service.
    MakeProxy,
    /// Subscribe to the signal.
    Subscribe,
    /// Wait for the next signal.
    NextSignal,
    /// Send the event to the main loop and go on listening.
    Send(Event),
    /// Send the event to the main loop as the last thing to do.
    SendLast(Event),
    /// End.
    Stop,
}

/// What came of a listener's last command.
#[derive(Debug, Clone, Copy, PartialEq, Eq, Structural)]
pub enum ListenerInput {
    Connected,
    ProxyMade,
    Subscribed,
    /// Connecting, making the proxy or subscribing failed.
    SetupFailed,
    /// A signal arrived with this argument.
    Signal(bool),
    /// A signal arrived whose arguments cannot be read.
    BadSignal,
    /// There are no more signals.
    StreamEnded,
    /// The event was taken by the main loop.
    Sent,
    /// The main loop is gone and takes no events any more.
    NotSent,
    /// The last event was sent, whether the main loop took it or not.
    LastSent,
}

/// Which of the two listeners is meant.
#[derive(Debug, Clone, Copy, PartialEq, Eq, Structural)]
pub enum ListenerKind {
    Sleep,
    Unlock,
}

impl ListenerKind {
    /// The bus on which the listener's signal is sent.
    pub open spec fn bus(self) -> Bus {
        match self {
            ListenerKind::Sleep => Bus::System,
            ListenerKind::Unlock => Bus::Session,
        }
    }

    /// The event that a signal with this argument calls for.
    pub open spec fn signal_event(self, argument: bool) -> Option<Event> {
        match self {
            ListenerKind::Sleep => sleep_event(argument),
            ListenerKind::Unlock => unlock_event(argument),
        }
    }

    /// The event that asks for a new listener of this kind.
    pub open spec fn restart_event(self) -> Event {
        match self {
            ListenerKind::Sleep => Event::StartSleepListener,
            ListenerKind::Unlock => Event::StartUnlockListener,
        }
    }

    /// What a listener of this kind does after `input`.
    pub open spec fn next(self, input: ListenerInput) -> ListenerCommand {
        match input {
            ListenerInput::Connected => ListenerCommand::MakeProxy,
            ListenerInput::ProxyMade => ListenerCommand::Subscribe,
            ListenerInput::Subscribed => ListenerCommand::NextSignal,
            ListenerInput::SetupFailed => ListenerCommand::SendLast(Event::Error),
            ListenerInput::Signal(argument) => match self.signal_event(argument) {
                Some(event) => ListenerCommand::Send(event),
                None => ListenerCommand::NextSignal,
            },
            ListenerInput::BadSignal => ListenerCommand::SendLast(self.restart_event()),
            ListenerInput::StreamEnded => ListenerCommand::SendLast(self.restart_event()),
            ListenerInput::Sent => ListenerCommand::NextSignal,
            ListenerInput::NotSent => ListenerCommand::Stop,
            ListenerInput::LastSent => ListenerCommand::Stop,
        }
    }
}

/// Whether `input` can come of `command`.
pub open spec fn answers(command: ListenerCommand, input: ListenerInput) -> bool {
    match command {
        ListenerCommand::Connect(_) => input is Connected || input is SetupFailed,
        ListenerCommand::MakeProxy => input is ProxyMade || input is SetupFailed,
        ListenerCommand::Subscribe => input is Subscribed || input is SetupFailed,
        ListenerCommand::NextSignal => input is Signal || input is BadSignal
            || input is StreamEnded,
        ListenerCommand::Send(_) => input is Sent || input is NotSent,
        ListenerCommand::SendLast(_) => input is LastSent,
        ListenerCommand::Stop => false,
    }
}

/// The command that a listener has reached after `inputs`.
pub open spec fn reached(kind: ListenerKind, inputs: Seq<ListenerInput>) -> ListenerCommand {
    if inputs.len() == 0 {
        ListenerCommand::Connect(kind.bus())
    } else {
        kind.next(inputs.last())
    }
}

/// `inputs` is a course that a listener can take: each input comes of the command before it.
pub open spec fn is_course(kind: ListenerKind, inputs: Seq<ListenerInput>) -> bool
    decreases inputs.len(),
{
    inputs.len() > 0 ==> is_course(kind, inputs.drop_last()) && answers(
        reached(kind, inputs.drop_last()),
        inputs.last(),
    )
}

/// The events that a listener has sent to the main loop, or tried to, when it has reached the
/// command behind `inputs`; the event of a command that is still to be done counts.
pub open spec fn sent(kind: ListenerKind, inputs: Seq<ListenerInput>) -> Seq<Event>
    decreases inputs.len(),
{
    if inputs.len() == 0 {
        Seq::empty()
    } else {
        let before = sent(kind, inputs.drop_last());
        match kind.next(inputs.last()) {
            ListenerCommand::Send(event) => before.push(event),
            ListenerCommand::SendLast(event) => before.push(event),
            _ => before,
        }
    }
}

/// The events that the signals among `inputs` call for, in order.
pub open spec fn called_for(kind: ListenerKind, inputs: Seq<ListenerInput>) -> Seq<Event>
    decreases inputs.len(),
{
    if inputs.len() == 0 {
        Seq::empty()
    } else {
        let before = called_for(kind, inputs.drop_last());
        match inputs.last() {
            ListenerInput::Signal(argument) => match kind.signal_event(argument) {
                Some(event) => before.push(event),
                None => before,
            },
            _ => before,
        }
    }
}

/// Listens for the system going to sleep.
#[derive(Debug, Clone, Copy, PartialEq, Eq, Structural)]
pub struct SleepListener;

/// Listens for the screen being unlocked. There is no signal for waking up, but the screen is
/// unlocked after that.
#[derive(Debug, Clone, Copy, PartialEq, Eq, Structural)]
pub struct UnlockListener;

impl FdoLoginService for SleepListener {
    fn prepare_for_sleep(&self, prepare_for_sleep: bool) -> (event: Option<Event>)
        ensures
            event is Some <==> prepare_for_sleep,
            event is Some ==> event->0 is Unmount,
    {
        if prepare_for_sleep {
            Some(Event::Unmount)
        } else {
            None
        }
    }
}

impl FdoScreenSaverService for UnlockListener {
    fn active_changed(&self, active: bool) -> (event: Option<Event>)
        ensures
            event is Some <==> !active,
            event is Some ==> event->0 is Mount,
    {
        if !active {
            Some(Event::Mount)
        } else {
            None
        }
    }
}

impl SleepListener {
    /// What the listener does first.
    pub fn start(&self) -> (command: ListenerCommand)
        ensures
            command == reached(ListenerKind::Sleep, Seq::empty()),
            command == ListenerCommand::Connect(Bus::System),
    {
        ListenerCommand::Connect(Bus::System)
    }

    /// What the listener does after `input`.
    pub fn next(&self, input: ListenerInput) -> (command: ListenerCommand)
        ensures
            command == ListenerKind::Sleep.next(input),
    {
        match input {
            ListenerInput::Signal(prepare_for_sleep) => after_signal(
                self.prepare_for_sleep(prepare_for_sleep),
            ),
            _ => after_other(input, Event::StartSleepListener),
        }
    }
}

impl UnlockListener {
    /// What the listener does first.
    pub fn start(&self) -> (command: ListenerCommand)
        ensures
            command == reached(ListenerKind::Unlock, Seq::empty()),
            command == ListenerCommand::Connect(Bus::Session),
    {
        ListenerCommand::Connect(Bus::Session)
    }

    /// What the listener does after `input`.
    pub fn next(&self, input: ListenerInput) -> (command: ListenerCommand)
        ensures
            command == ListenerKind::Unlock.next(input),
    {
        match input {
            ListenerInput::Signal(active) => after_signal(self.active_changed(active)),
            _ => after_other(input, Event::StartUnlockListener),
        }
    }
}

/// What a listener does after a signal that calls for `event`.
fn after_signal(event: Option<Event>) -> (command: ListenerCommand)
    ensures
        command == (match event {
            Some(event) => ListenerCommand::Send(event),
            None => ListenerCommand::NextSignal,
        }),
{
    match event {
        Some(event) => ListenerCommand::Send(event),
        None => ListenerCommand::NextSignal,
    }
}

/// What a listener that is restarted by `restart` does after an input that is no signal.
fn after_other(input: ListenerInput, restart: Event) -> (command: ListenerCommand)
    requires
        input !is Signal,
    ensures
        forall|kind: ListenerKind|
            #![trigger kind.next(input)]
            kind.restart_event() == restart ==> command == kind.next(input),
{
    match input {
        ListenerInput::Connected => ListenerCommand::MakeProxy,
        ListenerInput::ProxyMade => ListenerCommand::Subscribe,
        ListenerInput::Subscribed | ListenerInput::Sent | ListenerInput::Signal(_) => {
            ListenerCommand::NextSignal
        },
        ListenerInput::SetupFailed => ListenerCommand::SendLast(Event::Error),
        ListenerInput::BadSignal | ListenerInput::StreamEnded => ListenerCommand::SendLast(restart),
        ListenerInput::NotSent | ListenerInput::LastSent => ListenerCommand::Stop,
    }
}

/// Either listener comes to listen: it connects to its bus, makes a proxy, subscribes and waits
/// for signals, if each of these works. The sleep listener connects to the system's bus and the
/// unlock listener to the session's.
pub proof fn law_listener_comes_to_listen(kind: ListenerKind)
    ensures
        ({
            let connected = seq![ListenerInput::Connected];
            let made = seq![ListenerInput::Connected, ListenerInput::ProxyMade];
            let subscribed = seq![
                ListenerInput::Connected,
                ListenerInput::ProxyMade,
                ListenerInput::Subscribed,
            ];
            &&& is_course(kind, Seq::empty())
            &&& kind is Sleep ==> reached(kind, Seq::empty()) == ListenerCommand::Connect(
                Bus::System,
            )
            &&& kind is Unlock ==> reached(kind, Seq::empty()) == ListenerCommand::Connect(
                Bus::Session,
            )
            &&& is_course(kind, connected)
            &&& reached(kind, connected) is MakeProxy
            &&& is_course(kind, made)
            &&& reached(kind, made) is Subscribe
            &&& is_course(kind, subscribed)
            &&& reached(kind, subscribed) is NextSignal
        }),
{
    let none = Seq::<ListenerInput>::empty();
    let connected = seq![ListenerInput::Connected];
    let made = seq![ListenerInput::Connected, ListenerInput::ProxyMade];
    let subscribed = seq![
        ListenerInput::Connected,
        ListenerInput::ProxyMade,
        ListenerInput::Subscribed,
    ];
    assert(is_course(kind, none));
    assert(connected.drop_last() == none);
    assert(is_course(kind, connected));
    assert(made.drop_last() == connected);
    assert(is_course(kind, made));
    assert(subscribed.drop_last() == made);
}

/// There is no other way to listen: a course that comes to making the proxy, or to subscribing,
/// has just connected, or connected and made the proxy; and one that comes to waiting for a
/// signal has done all three.
pub proof fn law_listening_is_set_up_first(kind: ListenerKind, inputs: Seq<ListenerInput>)
    requires
        is_course(kind, inputs),
    ensures
        reached(kind, inputs) is Connect <==> inputs.len() == 0,
        reached(kind, inputs) is MakeProxy <==> inputs == seq![ListenerInput::Connected],
        reached(kind, inputs) is Subscribe <==> inputs == seq![
            ListenerInput::Connected,
            ListenerInput::ProxyMade,
        ],
        reached(kind, inputs) is NextSignal || reached(kind, inputs) is Send ==> inputs.len() >= 3
            && inputs.take(3) == seq![
            ListenerInput::Connected,
            ListenerInput::ProxyMade,
            ListenerInput::Subscribed,
        ],
    decreases inputs.len(),
{
    if inputs.len() > 0 {
        let front = inputs.drop_last();
        law_listening_is_set_up_first(kind, front);
        assert(inputs == front.push(inputs.last()));
        if front.len() >= 3 {
            assert(inputs.take(3) == front.take(3));
        }
        if inputs.last() is Connected {
            assert(reached(kind, front) is Connect);
            assert(inputs == seq![ListenerInput::Connected]);
        }
        if inputs.last() is ProxyMade {
            assert(reached(kind, front) is MakeProxy);
            assert(inputs == seq![ListenerInput::Connected, ListenerInput::ProxyMade]);
        }
        if inputs.last() is Subscribed {
            assert(reached(kind, front) is Subscribe);
            assert(inputs.take(3) == inputs);
        }
    }
}

/// Each step of a listener is taken for one reason only, whichever listener it is: the proxy is
/// made once it is connected, it subscribes once the proxy is made, and it stops once its last
/// event is sent or the main loop has gone.
pub proof fn law_listener_steps_have_their_reasons(kind: ListenerKind, input: ListenerInput)
    ensures
        kind.next(input) is MakeProxy <==> input is Connected,
        kind.next(input) is Subscribe <==> input is ProxyMade,
        kind.next(input) is Stop <==> input is NotSent || input is LastSent,
        kind.next(input) !is Connect,
        kind.next(input) is Send ==> input is Signal,
        input is Subscribed || input is Sent ==> kind.next(input) is NextSignal,
        kind.next(input) is NextSignal ==> input is Subscribed || input is Sent || input is Signal,
{
}

/// Going to sleep unmounts, and unlocking mounts: the sleep listener passes on that the system is
/// about to sleep and not that it woke up, and the unlock listener passes on that the screen was
/// unlocked and not that it was locked.
pub proof fn law_sleep_unmounts_and_unlock_mounts(argument: bool, event: Event)
    ensures
        ListenerKind::Sleep.next(ListenerInput::Signal(argument)) == ListenerCommand::Send(event)
            <==> argument && event is Unmount,
        ListenerKind::Sleep.next(ListenerInput::Signal(argument)) is NextSignal <==> !argument,
        ListenerKind::Unlock.next(ListenerInput::Signal(argument)) == ListenerCommand::Send(event)
            <==> !argument && event is Mount,
        ListenerKind::Unlock.next(ListenerInput::Signal(argument)) is NextSignal <==> argument,
{
}

/// A listener asks to be replaced only because its signals failed it: a signal that cannot be
/// read, or the end of the signals, makes it send the event that starts a listener of its own
/// kind as its last one, and nothing else does. An error is sent as the last event exactly if the
/// listener could not be set up.
pub proof fn law_restart_has_its_reason(input: ListenerInput)
    ensures
        ListenerKind::Sleep.next(input) == ListenerCommand::SendLast(Event::StartSleepListener)
            <==> input is BadSignal || input is StreamEnded,
        ListenerKind::Unlock.next(input) == ListenerCommand::SendLast(Event::StartUnlockListener)
            <==> input is BadSignal || input is StreamEnded,
        forall|kind: ListenerKind| #[trigger]
            kind.next(input) == ListenerCommand::SendLast(Event::Error) <==> input is SetupFailed,
        forall|kind: ListenerKind| #[trigger]
            kind.next(input) is SendLast <==> input is BadSignal || input is StreamEnded
                || input is SetupFailed,
{
}

/// The same over whole courses: when the event that starts a listener has been sent, the course
/// ended, but for having sent it, with a signal that cannot be read or with the end of the
/// signals; and only the listener's own kind is asked for.
pub proof fn law_restart_is_sent_at_the_end(kind: ListenerKind, inputs: Seq<ListenerInput>)
    requires
        is_course(kind, inputs),
    ensures
        sent(kind, inputs).contains(Event::StartSleepListener) || sent(kind, inputs).contains(
            Event::StartUnlockListener,
        ) ==> inputs.len() > 0 && ({
            let end = if inputs.last() is LastSent {
                inputs.drop_last()
            } else {
                inputs
            };
            end.len() > 0 && (end.last() is BadSignal || end.last() is StreamEnded)
        }),
        sent(kind, inputs).contains(Event::StartSleepListener) ==> kind is Sleep,
        sent(kind, inputs).contains(Event::StartUnlockListener) ==> kind is Unlock,
    decreases inputs.len(),
{
    if inputs.len() > 0 {
        let front = inputs.drop_last();
        law_restart_is_sent_at_the_end(kind, front);
        assert forall|event: Event|
            (event is StartSleepListener || event is StartUnlockListener) && #[trigger] sent(
                kind,
                inputs,
            ).contains(event) implies sent(kind, front).contains(event) || kind.next(inputs.last())
            == ListenerCommand::SendLast(event) by {
            let now = sent(kind, inputs);
            let before = sent(kind, front);
            let i = choose|i: int| 0 <= i < now.len() && now[i] == event;
            if i < before.len() {
                assert(before[i] == event);
            }
        }
    }
}

/// A listener that listens goes on doing so: whatever signal comes next, it comes back to waiting
/// for the one after it, at once or after the main loop has taken the event.
pub proof fn law_listening_goes_on(
    kind: ListenerKind,
    inputs: Seq<ListenerInput>,
    argument: bool,
)
    requires
        is_course(kind, inputs),
        reached(kind, inputs) is NextSignal,
    ensures
        ({
            let signalled = inputs.push(ListenerInput::Signal(argument));
            let taken = signalled.push(ListenerInput::Sent);
            &&& is_course(kind, signalled)
            &&& reached(kind, signalled) is NextSignal || reached(kind, signalled) is Send
            &&& reached(kind, signalled) is Send ==> is_course(kind, taken) && reached(
                kind,
                taken,
            ) is NextSignal
        }),
{
    let signalled = inputs.push(ListenerInput::Signal(argument));
    let taken = signalled.push(ListenerInput::Sent);
    assert(signalled.drop_last() == inputs);
    assert(is_course(kind, signalled));
    assert(taken.drop_last() == signalled);
}

/// The event that a listener sends last: an error if it could not be set up, and otherwise the
/// event that asks for its replacement.
pub open spec fn last_event(kind: ListenerKind, inputs: Seq<ListenerInput>) -> Event {
    if inputs.contains(ListenerInput::SetupFailed) {
        Event::Error
    } else {
        kind.restart_event()
    }
}

/// A listener sends exactly the events that its signals call for, in order, and, if it comes to
/// its last command, one event more. The sleep listener unmounts once for each time that the
/// system goes to sleep, and the unlock listener mounts once for each time that the screen is
/// unlocked.
pub proof fn law_each_signal_is_passed_on_once(kind: ListenerKind, inputs: Seq<ListenerInput>)
    requires
        is_course(kind, inputs),
    ensures
        sent(kind, inputs) == (if reached(kind, inputs) is SendLast || (reached(
            kind,
            inputs,
        ) is Stop && inputs.last() is LastSent) {
            called_for(kind, inputs).push(last_event(kind, inputs))
        } else {
            called_for(kind, inputs)
        }),
        reached(kind, inputs) !is SendLast && reached(kind, inputs) !is Stop ==> !inputs.contains(
            ListenerInput::SetupFailed,
        ),
        inputs.len() > 0 && inputs.last() is NotSent ==> !inputs.contains(
            ListenerInput::SetupFailed,
        ),
    decreases inputs.len(),
{
    if inputs.len() > 0 {
        let front = inputs.drop_last();
        law_each_signal_is_passed_on_once(kind, front);
        assert(inputs[inputs.len() - 1] == inputs.last());
        assert(inputs.contains(ListenerInput::SetupFailed) == (front.contains(
            ListenerInput::SetupFailed,
        ) || inputs.last() is SetupFailed)) by {
            if front.contains(ListenerInput::SetupFailed) {
                let i = choose|i: int|
                    0 <= i < front.len() && front[i] == ListenerInput::SetupFailed;
                assert(inputs[i] == ListenerInput::SetupFailed);
            }
            if inputs.contains(ListenerInput::SetupFailed) && !(inputs.last() is SetupFailed) {
                let i = choose|i: int|
                    0 <= i < inputs.len() && inputs[i] == ListenerInput::SetupFailed;
                assert(front[i] == ListenerInput::SetupFailed);
            }
        }
    }
}

/// A listener never ends unnoticed while the main loop runs: when it has stopped, the last event
/// that it sent either asked for a new listener, or reported an error because it could not be
/// set up, or was refused because the main loop is gone.
pub proof fn law_listener_ends_with_notice(kind: ListenerKind, inputs: Seq<ListenerInput>)
    requires
        is_course(kind, inputs),
        reached(kind, inputs) is Stop,
    ensures
        inputs.last() is NotSent || sent(kind, inputs).last() == kind.restart_event() || (sent(
            kind,
            inputs,
        ).last() == Event::Error && inputs.contains(ListenerInput::SetupFailed)),
        sent(kind, inputs).len() > 0,
{
    let front = inputs.drop_last();
    assert(reached(kind, front) is Send || reached(kind, front) is SendLast);
    assert(front.len() > 0);
    assert(sent(kind, inputs) == sent(kind, front));
    if front.last() is SetupFailed {
        assert(inputs[front.len() - 1] == ListenerInput::SetupFailed);
    }
}

} // verus!
