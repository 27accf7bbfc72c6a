//! One SOCKS connection from the handshake to the end of the relay.
//!
//! The sockets are worked outside: a session says which action comes next, and
//! takes what came of it as an event.

use vstd::prelude::*;

use crate::address;
use crate::address::SocketAddr;
use crate::disconnect;
use crate::disconnect::is_benign_disconnect;
use crate::target;
use crate::target::Target;

verus! {

/// What a client asks the proxy to do.
#[derive(Clone, Copy, Debug, PartialEq, Eq, Structural)]
pub enum Command {
    TcpConnect,
    TcpBind,
    UdpAssociate,
}

impl Command {
    /// The name of the command in messages.
    pub open spec fn spec_name(self) -> Seq<char> {
        match self {
            Command::TcpConnect => "TCPConnect"@,
            Command::TcpBind => "TCPBind"@,
            Command::UdpAssociate => "UDPAssociate"@,
        }
    }

    /// The name of the command in messages.
    pub fn name(&self) -> (name: &'static str)
        ensures
            name@ == self.spec_name(),
    {
        match self {
            Command::TcpConnect => "TCPConnect",
            Command::TcpBind => "TCPBind",
            Command::UdpAssociate => "UDPAssociate",
        }
    }
}

/// Why a request is turned down, as the client is told.
#[derive(Clone, Copy, Debug, PartialEq, Eq, Structural)]
pub enum Refusal {
    CommandNotSupported,
    HostUnreachable,
}

/// Why a session failed.
#[derive(Debug)]
pub enum SessionError {
    Handshake(anyhow::Error),
    ReadCommand(anyhow::Error),
    /// The client could not be told that its command is not supported.
    SendUnsupported(anyhow::Error),
    Unsupported(Command),
    /// The client could not be told that its target is unreachable.
    SendUnreachable(anyhow::Error),
    Connect(anyhow::Error),
    /// The client could not be told that its target is connected.
    SendSuccess(anyhow::Error),
    Relay { target: String, cause: anyhow::Error },
}

/// The mathematical value of a [`SessionError`].
#[verifier::ext_equal]
pub ghost enum ErrorView {
    Handshake(anyhow::Error),
    ReadCommand(anyhow::Error),
    SendUnsupported(anyhow::Error),
    Unsupported(Command),
    SendUnreachable(anyhow::Error),
    Connect(anyhow::Error),
    SendSuccess(anyhow::Error),
    Relay { target: Seq<char>, cause: anyhow::Error },
}

impl View for SessionError {
    type V = ErrorView;

    open spec fn view(&self) -> ErrorView {
        match *self {
            SessionError::Handshake(cause) => ErrorView::Handshake(cause),
            SessionError::ReadCommand(cause) => ErrorView::ReadCommand(cause),
            SessionError::SendUnsupported(cause) => ErrorView::SendUnsupported(cause),
            SessionError::Unsupported(command) => ErrorView::Unsupported(command),
            SessionError::SendUnreachable(cause) => ErrorView::SendUnreachable(cause),
            SessionError::Connect(cause) => ErrorView::Connect(cause),
            SessionError::SendSuccess(cause) => ErrorView::SendSuccess(cause),
            SessionError::Relay { target, cause } => ErrorView::Relay { target: target@, cause },
        }
    }
}

impl ErrorView {
    /// What is said of the cause. Nothing is added to why connecting failed.
    pub open spec fn message(self) -> Option<Seq<char>> {
        match self {
            ErrorView::Handshake(_) => Some("SOCKS handshake failed"@),
            ErrorView::ReadCommand(_) => Some("failed to read SOCKS command"@),
            ErrorView::SendUnsupported(_) => Some("failed to send unsupported command reply"@),
            ErrorView::Unsupported(command) => Some(
                "unsupported SOCKS command: "@ + command.spec_name(),
            ),
            ErrorView::SendUnreachable(_) => Some("failed to send connect error reply"@),
            ErrorView::Connect(_) => None,
            ErrorView::SendSuccess(_) => Some("failed to send connect success reply"@),
            ErrorView::Relay { target, .. } => Some("failed while proxying "@ + target),
        }
    }

    /// The error that lies beneath.
    pub open spec fn cause(self) -> Option<anyhow::Error> {
        match self {
            ErrorView::Handshake(cause) => Some(cause),
            ErrorView::ReadCommand(cause) => Some(cause),
            ErrorView::SendUnsupported(cause) => Some(cause),
            ErrorView::Unsupported(_) => None,
            ErrorView::SendUnreachable(cause) => Some(cause),
            ErrorView::Connect(cause) => Some(cause),
            ErrorView::SendSuccess(cause) => Some(cause),
            ErrorView::Relay { cause, .. } => Some(cause),
        }
    }
}

impl SessionError {
    /// What is said of the cause, see [`ErrorView::message`].
    pub fn message(&self) -> (message: Option<String>)
        ensures
            match message {
                Some(message) => self@.message() == Some(message@),
                None => self@.message() is None,
            },
    {
        match self {
            SessionError::Handshake(_) => Some("SOCKS handshake failed".to_owned()),
            SessionError::ReadCommand(_) => Some("failed to read SOCKS command".to_owned()),
            SessionError::SendUnsupported(_) => Some(
                "failed to send unsupported command reply".to_owned(),
            ),
            SessionError::Unsupported(command) => {
                let mut message = "unsupported SOCKS command: ".to_owned();
                message.append(command.name());
                Some(message)
            },
            SessionError::SendUnreachable(_) => Some(
                "failed to send connect error reply".to_owned(),
            ),
            SessionError::Connect(_) => None,
            SessionError::SendSuccess(_) => Some("failed to send connect success reply".to_owned()),
            SessionError::Relay { target, .. } => {
                let mut message = "failed while proxying ".to_owned();
                message.append(target.as_str());
                Some(message)
            },
        }
    }

    /// The error that lies beneath.
    pub fn into_cause(self) -> (cause: Option<anyhow::Error>)
        ensures
            cause == self@.cause(),
    {
        match self {
            SessionError::Handshake(cause) => Some(cause),
            SessionError::ReadCommand(cause) => Some(cause),
            SessionError::SendUnsupported(cause) => Some(cause),
            SessionError::Unsupported(_) => None,
            SessionError::SendUnreachable(cause) => Some(cause),
            SessionError::Connect(cause) => Some(cause),
            SessionError::SendSuccess(cause) => Some(cause),
            SessionError::Relay { cause, .. } => Some(cause),
        }
    }
}

/// What is to be done next.
#[derive(Debug)]
pub enum Action {
    /// Go through the handshake, without authentication.
    Handshake,
    /// Read the command and its target.
    ReadCommand,
    /// Tell the client that its request is turned down.
    Refuse(Refusal),
    /// Connect to the target.
    Connect(Target),
    /// Tell the client that its target is connected, from this address.
    Confirm(SocketAddr),
    /// Copy bytes in both directions until both ends are done.
    Relay,
    /// Nothing more: this came of the session.
    Finish(Result<(), SessionError>),
}

/// The mathematical value of an [`Action`].
#[verifier::ext_equal]
pub ghost enum ActionView {
    Handshake,
    ReadCommand,
    Refuse(Refusal),
    Connect(target::TargetView),
    Confirm(address::SocketAddrView),
    Relay,
    Finish(Result<(), ErrorView>),
}

impl View for Action {
    type V = ActionView;

    open spec fn view(&self) -> ActionView {
        match *self {
            Action::Handshake => ActionView::Handshake,
            Action::ReadCommand => ActionView::ReadCommand,
            Action::Refuse(refusal) => ActionView::Refuse(refusal),
            Action::Connect(target) => ActionView::Connect(target@),
            Action::Confirm(address) => ActionView::Confirm(address@),
            Action::Relay => ActionView::Relay,
            Action::Finish(Ok(())) => ActionView::Finish(Ok(())),
            Action::Finish(Err(error)) => ActionView::Finish(Err(error@)),
        }
    }
}

/// What came of the last action.
#[derive(Debug)]
pub enum Event {
    /// The handshake is done.
    Accepted,
    /// The client asked for this.
    Requested { command: Command, target: Target },
    /// The client was told that its request is turned down.
    Refused,
    /// The target is connected.
    Connected,
    /// The client was told that its target is connected.
    Confirmed,
    /// Both ends are done.
    Relayed,
    /// The action failed.
    Failed(anyhow::Error),
}

/// The mathematical value of an [`Event`].
#[verifier::ext_equal]
pub ghost enum EventView {
    Accepted,
    Requested { command: Command, target: target::TargetView },
    Refused,
    Connected,
    Confirmed,
    Relayed,
    Failed(anyhow::Error),
}

impl View for Event {
    type V = EventView;

    open spec fn view(&self) -> EventView {
        match *self {
            Event::Accepted => EventView::Accepted,
            Event::Requested { command, target } => EventView::Requested {
                command,
                target: target@,
            },
            Event::Refused => EventView::Refused,
            Event::Connected => EventView::Connected,
            Event::Confirmed => EventView::Confirmed,
            Event::Relayed => EventView::Relayed,
            Event::Failed(cause) => EventView::Failed(cause),
        }
    }
}

/// A session, by the action that it waits for.
#[derive(Debug)]
pub enum Session {
    Handshaking,
    ReadingCommand,
    RefusingCommand { command: Command },
    Connecting { target: String },
    RefusingTarget { cause: anyhow::Error },
    Confirming { target: String },
    Relaying { target: String },
    Finished,
}

/// The mathematical value of a [`Session`].
#[verifier::ext_equal]
pub ghost enum SessionView {
    Handshaking,
    ReadingCommand,
    RefusingCommand { command: Command },
    Connecting { target: Seq<char> },
    RefusingTarget { cause: anyhow::Error },
    Confirming { target: Seq<char> },
    Relaying { target: Seq<char> },
    Finished,
}

impl View for Session {
    type V = SessionView;

    open spec fn view(&self) -> SessionView {
        match *self {
            Session::Handshaking => SessionView::Handshaking,
            Session::ReadingCommand => SessionView::ReadingCommand,
            Session::RefusingCommand { command } => SessionView::RefusingCommand { command },
            Session::Connecting { target } => SessionView::Connecting { target: target@ },
            Session::RefusingTarget { cause } => SessionView::RefusingTarget { cause },
            Session::Confirming { target } => SessionView::Confirming { target: target@ },
            Session::Relaying { target } => SessionView::Relaying { target: target@ },
            Session::Finished => SessionView::Finished,
        }
    }
}

/// The address that a successful reply names: a loopback address without a port.
pub open spec fn reply_address() -> address::SocketAddrView {
    address::SocketAddrView::V4 { octets: seq![127, 0, 0, 1], port: 0 }
}

impl SessionView {
    /// Whether an event can come of the action that the session waits for.
    pub open spec fn awaits(self, event: EventView) -> bool {
        match self {
            SessionView::Handshaking => event is Accepted || event is Failed,
            SessionView::ReadingCommand => event is Requested || event is Failed,
            SessionView::RefusingCommand { .. } => event is Refused || event is Failed,
            SessionView::Connecting { .. } => event is Connected || event is Failed,
            SessionView::RefusingTarget { .. } => event is Refused || event is Failed,
            SessionView::Confirming { .. } => event is Confirmed || event is Failed,
            SessionView::Relaying { .. } => event is Relayed || event is Failed,
            SessionView::Finished => false,
        }
    }

    /// The session and its action after an event that it awaits.
    pub open spec fn next(self, event: EventView) -> (SessionView, ActionView) {
        match (self, event) {
            (SessionView::Handshaking, EventView::Failed(cause)) => finished(
                Err(ErrorView::Handshake(cause)),
            ),
            (SessionView::Handshaking, _) => (SessionView::ReadingCommand, ActionView::ReadCommand),
            (SessionView::ReadingCommand, EventView::Requested { command, target }) => if command
                == Command::TcpConnect {
                (
                    SessionView::Connecting { target: target.display() },
                    ActionView::Connect(target),
                )
            } else {
                (
                    SessionView::RefusingCommand { command },
                    ActionView::Refuse(Refusal::CommandNotSupported),
                )
            },
            (SessionView::ReadingCommand, EventView::Failed(cause)) => finished(
                Err(ErrorView::ReadCommand(cause)),
            ),
            (SessionView::RefusingCommand { .. }, EventView::Failed(cause)) => finished(
                Err(ErrorView::SendUnsupported(cause)),
            ),
            (SessionView::RefusingCommand { command }, _) => finished(
                Err(ErrorView::Unsupported(command)),
            ),
            (SessionView::Connecting { .. }, EventView::Failed(cause)) => (
                SessionView::RefusingTarget { cause },
                ActionView::Refuse(Refusal::HostUnreachable),
            ),
            (SessionView::Connecting { target }, _) => (
                SessionView::Confirming { target },
                ActionView::Confirm(reply_address()),
            ),
            (SessionView::RefusingTarget { .. }, EventView::Failed(cause)) => finished(
                Err(ErrorView::SendUnreachable(cause)),
            ),
            (SessionView::RefusingTarget { cause }, _) => finished(Err(ErrorView::Connect(cause))),
            (SessionView::Confirming { .. }, EventView::Failed(cause)) => finished(
                Err(ErrorView::SendSuccess(cause)),
            ),
            (SessionView::Confirming { target }, _) => (
                SessionView::Relaying { target },
                ActionView::Relay,
            ),
            (SessionView::Relaying { target }, EventView::Failed(cause)) =>
                if disconnect::benign_chain(disconnect::error_sources(cause)) {
                    finished(Ok(()))
                } else {
                    finished(Err(ErrorView::Relay { target, cause }))
                },
            _ => finished(Ok(())),
        }
    }
}

/// The end of a session.
pub open spec fn finished(result: Result<(), ErrorView>) -> (SessionView, ActionView) {
    (SessionView::Finished, ActionView::Finish(result))
}

fn finish(result: Result<(), SessionError>) -> (end: (Session, Action))
    ensures
        end.0@ == SessionView::Finished,
        end.1@ == ActionView::Finish(
            match result {
                Ok(()) => Ok(()),
                Err(error) => Err(error@),
            },
        ),
{
    (Session::Finished, Action::Finish(result))
}

impl Session {
    /// Begins a session on a socket that was accepted.
    pub fn start() -> (begin: (Session, Action))
        ensures
            begin.0@ == SessionView::Handshaking,
            begin.1@ == ActionView::Handshake,
    {
        (Session::Handshaking, Action::Handshake)
    }

    /// Whether an event can come of the action that the session waits for.
    pub fn awaits(&self, event: &Event) -> (awaited: bool)
        ensures
            awaited == self@.awaits(event@),
    {
        match (self, event) {
            (Session::Finished, _) => false,
            (_, Event::Failed(_)) => true,
            (Session::Handshaking, Event::Accepted) => true,
            (Session::ReadingCommand, Event::Requested { .. }) => true,
            (Session::RefusingCommand { .. }, Event::Refused) => true,
            (Session::Connecting { .. }, Event::Connected) => true,
            (Session::RefusingTarget { .. }, Event::Refused) => true,
            (Session::Confirming { .. }, Event::Confirmed) => true,
            (Session::Relaying { .. }, Event::Relayed) => true,
            _ => false,
        }
    }

    /// Takes what came of the last action, and says what is to be done next.
    pub fn step(self, event: Event) -> (next: (Session, Action))
        requires
            self@.awaits(event@),
        ensures
            next.0@ == self@.next(event@).0,
            next.1@ == self@.next(event@).1,
    {
        match (self, event) {
            (Session::Handshaking, Event::Failed(cause)) => finish(
                Err(SessionError::Handshake(cause)),
            ),
            (Session::Handshaking, _) => (Session::ReadingCommand, Action::ReadCommand),
            (Session::ReadingCommand, Event::Requested { command, target }) => match command {
                Command::TcpConnect => (
                    Session::Connecting { target: target.display() },
                    Action::Connect(target),
                ),
                _ => (
                    Session::RefusingCommand { command },
                    Action::Refuse(Refusal::CommandNotSupported),
                ),
            },
            (Session::ReadingCommand, Event::Failed(cause)) => finish(
                Err(SessionError::ReadCommand(cause)),
            ),
            (Session::RefusingCommand { .. }, Event::Failed(cause)) => finish(
                Err(SessionError::SendUnsupported(cause)),
            ),
            (Session::RefusingCommand { command }, _) => finish(
                Err(SessionError::Unsupported(command)),
            ),
            (Session::Connecting { .. }, Event::Failed(cause)) => (
                Session::RefusingTarget { cause },
                Action::Refuse(Refusal::HostUnreachable),
            ),
            (Session::Connecting { target }, _) => {
                let octets: [u8; 4] = [127, 0, 0, 1];
                assert(octets@ =~= seq![127, 0, 0, 1]);
                (
                    Session::Confirming { target },
                    Action::Confirm(SocketAddr::V4 { octets, port: 0 }),
                )
            },
            (Session::RefusingTarget { .. }, Event::Failed(cause)) => finish(
                Err(SessionError::SendUnreachable(cause)),
            ),
            (Session::RefusingTarget { cause }, _) => finish(Err(SessionError::Connect(cause))),
            (Session::Confirming { .. }, Event::Failed(cause)) => finish(
                Err(SessionError::SendSuccess(cause)),
            ),
            (Session::Confirming { target }, _) => (Session::Relaying { target }, Action::Relay),
            (Session::Relaying { target }, Event::Failed(cause)) => if is_benign_disconnect(&cause) {
                finish(Ok(()))
            } else {
                finish(Err(SessionError::Relay { target, cause }))
            },
            _ => finish(Ok(())),
        }
    }
}

/// The session and its action after a row of events.
pub open spec fn after(events: Seq<EventView>) -> (SessionView, ActionView)
    decreases events.len(),
{
    if events.len() == 0 {
        (SessionView::Handshaking, ActionView::Handshake)
    } else {
        after(events.drop_last()).0.next(events.last())
    }
}

/// Whether each event was awaited when it came.
pub open spec fn orderly(events: Seq<EventView>) -> bool
    decreases events.len(),
{
    events.len() == 0 || (orderly(events.drop_last()) && after(events.drop_last()).0.awaits(
        events.last(),
    ))
}

/// The events of a session by the stage that they lead to.
proof fn events_of(events: Seq<EventView>)
    requires
        orderly(events),
    ensures
        match after(events).0 {
            SessionView::Handshaking => events.len() == 0,
            SessionView::ReadingCommand => events.len() == 1 && events[0] is Accepted,
            SessionView::RefusingCommand { command } => events.len() == 2 && events[0] is Accepted
                && command != Command::TcpConnect && (exists|target: target::TargetView|
                events[1] == (EventView::Requested { command, target })),
            SessionView::Connecting { target } => events.len() == 2 && events[0] is Accepted
                && events[1] is Requested && events[1]->command == Command::TcpConnect && target
                == events[1]->target.display(),
            SessionView::RefusingTarget { cause } => events.len() == 3 && events[0] is Accepted
                && events[1] is Requested && events[1]->command == Command::TcpConnect && events[2]
                == EventView::Failed(cause),
            SessionView::Confirming { target } => events.len() == 3 && events[0] is Accepted
                && events[1] is Requested && events[1]->command == Command::TcpConnect && target
                == events[1]->target.display() && events[2] is Connected,
            SessionView::Relaying { target } => events.len() == 4 && events[0] is Accepted
                && events[1] is Requested && events[1]->command == Command::TcpConnect && target
                == events[1]->target.display() && events[2] is Connected && events[3] is Confirmed,
            SessionView::Finished => 1 <= events.len() <= 5 && after(events).1 is Finish,
        },
        after(events).1 is Finish <==> after(events).0 is Finished,
    decreases events.len(),
{
    if events.len() > 0 {
        let before = events.drop_last();
        events_of(before);
        assert(forall|i: int| 0 <= i < before.len() ==> before[i] == #[trigger] events[i]);
        assert(events.last() == events[events.len() - 1]);
    }
}

/// A session takes at most five events, and after the fifth it is finished.
pub proof fn session_ends(events: Seq<EventView>)
    requires
        orderly(events),
    ensures
        events.len() <= 5,
        events.len() == 5 ==> after(events).0 is Finished,
{
    events_of(events);
}

/// A finished session has a result and awaits nothing more; a session that is not
/// finished has no result yet and awaits an event, at least that its action failed.
pub proof fn result_comes_at_the_end(events: Seq<EventView>)
    requires
        orderly(events),
    ensures
        after(events).1 is Finish <==> after(events).0 is Finished,
        after(events).0 is Finished <==> (forall|event: EventView|
            !#[trigger] after(events).0.awaits(event)),
        forall|cause: anyhow::Error|
            !(after(events).0 is Finished) ==> #[trigger] after(events).0.awaits(
                EventView::Failed(cause),
            ),
{
    events_of(events);
    if !(after(events).0 is Finished) {
        let cause = arbitrary::<anyhow::Error>();
        assert(after(events).0.awaits(EventView::Failed(cause)));
    }
}

/// The target that is connected to is the target that the client asked for, a
/// domain name unresolved.
pub proof fn target_is_what_was_asked(events: Seq<EventView>, target: target::TargetView)
    requires
        orderly(events),
        after(events).1 == ActionView::Connect(target),
    ensures
        events =~= seq![
            EventView::Accepted,
            EventView::Requested { command: Command::TcpConnect, target },
        ],
{
    events_of(events);
    let before = events.drop_last();
    events_of(before);
}

/// Any command other than connecting is answered as not supported, and when the
/// answer is sent the session ends with an error that names the command.
pub proof fn other_commands_are_refused(command: Command, target: target::TargetView)
    requires
        command != Command::TcpConnect,
    ensures
        ({
            let request = seq![EventView::Accepted, EventView::Requested { command, target }];
            &&& orderly(request)
            &&& after(request).1 == ActionView::Refuse(Refusal::CommandNotSupported)
            &&& orderly(request.push(EventView::Refused))
            &&& after(request.push(EventView::Refused)).1 == ActionView::Finish(
                Err(ErrorView::Unsupported(command)),
            )
        }),
{
    let request = seq![EventView::Accepted, EventView::Requested { command, target }];
    begins_with_a_request(command, target);
    assert(request.push(EventView::Refused).drop_last() =~= request);
}

proof fn begins_with_a_request(command: Command, target: target::TargetView)
    ensures
        ({
            let request = seq![EventView::Accepted, EventView::Requested { command, target }];
            &&& orderly(request)
            &&& after(request) == SessionView::ReadingCommand.next(
                EventView::Requested { command, target },
            )
        }),
{
    let request = seq![EventView::Accepted, EventView::Requested { command, target }];
    let accepted = seq![EventView::Accepted];
    assert(request.drop_last() =~= accepted);
    assert(accepted.drop_last() =~= Seq::<EventView>::empty());
    assert(orderly(accepted.drop_last()));
    assert(after(accepted.drop_last()).0 == SessionView::Handshaking);
    assert(after(accepted).0 == SessionView::ReadingCommand);
    assert(orderly(accepted));
}

/// A command other than connecting never leads to a connection, a confirmation or
/// a relay, whatever happens after it.
pub proof fn other_commands_never_connect(events: Seq<EventView>)
    requires
        orderly(events),
        events.len() >= 2,
        events[1] is Requested,
        events[1]->command != Command::TcpConnect,
    ensures
        !(after(events).1 is Connect),
        !(after(events).1 is Confirm),
        !(after(events).1 is Relay),
        after(events).0 is RefusingCommand || after(events).0 is Finished,
{
    events_of(events);
    let before = events.drop_last();
    events_of(before);
    assert(forall|i: int| 0 <= i < before.len() ==> before[i] == #[trigger] events[i]);
}

/// A target that cannot be connected to is answered as unreachable, and when the
/// answer is sent the session ends with the error of the connector, unchanged.
pub proof fn unreachable_targets_are_refused(target: target::TargetView, cause: anyhow::Error)
    ensures
        ({
            let tried = seq![
                EventView::Accepted,
                EventView::Requested { command: Command::TcpConnect, target },
                EventView::Failed(cause),
            ];
            &&& orderly(tried)
            &&& after(tried).1 == ActionView::Refuse(Refusal::HostUnreachable)
            &&& orderly(tried.push(EventView::Refused))
            &&& after(tried.push(EventView::Refused)).1 == ActionView::Finish(
                Err(ErrorView::Connect(cause)),
            )
        }),
{
    let request = seq![
        EventView::Accepted,
        EventView::Requested { command: Command::TcpConnect, target },
    ];
    let tried = seq![
        EventView::Accepted,
        EventView::Requested { command: Command::TcpConnect, target },
        EventView::Failed(cause),
    ];
    begins_with_a_request(Command::TcpConnect, target);
    assert(tried.drop_last() =~= request);
    assert(after(tried) == after(request).0.next(EventView::Failed(cause)));
    assert(orderly(tried));
    assert(tried.push(EventView::Refused).drop_last() =~= tried);
}

/// The client is told of a connection only when there is one.
pub proof fn success_is_told_after_connecting(events: Seq<EventView>)
    requires
        orderly(events),
        after(events).1 is Confirm,
    ensures
        events.len() == 3,
        events[1] is Requested && events[1]->command == Command::TcpConnect,
        events[2] is Connected,
        after(events).1 == ActionView::Confirm(reply_address()),
{
    events_of(events);
    let before = events.drop_last();
    events_of(before);
}

/// Bytes are relayed only when the target is connected and the client was told so.
pub proof fn relay_follows_the_confirmation(events: Seq<EventView>)
    requires
        orderly(events),
        after(events).1 is Relay,
    ensures
        events.len() == 4,
        events[1] is Requested && events[1]->command == Command::TcpConnect,
        events[2] is Connected,
        events[3] is Confirmed,
{
    events_of(events);
    let before = events.drop_last();
    events_of(before);
}

/// A session succeeds only when bytes were relayed and the relay ended cleanly or
/// in a normal teardown.
pub proof fn success_follows_the_relay(events: Seq<EventView>)
    requires
        orderly(events),
        after(events).1 == ActionView::Finish(Ok(())),
    ensures
        after(events.drop_last()).1 is Relay,
        match events.last() {
            EventView::Relayed => true,
            EventView::Failed(cause) => disconnect::benign_chain(disconnect::error_sources(cause)),
            _ => false,
        },
{
    events_of(events);
    let before = events.drop_last();
    events_of(before);
    if before.len() > 0 {
        events_of(before.drop_last());
    }
}

/// How a relay ends: a failure that is part of a normal teardown is a success, any
/// other failure is reported with the target that the client asked for.
pub proof fn relay_outcome(events: Seq<EventView>, cause: anyhow::Error)
    requires
        orderly(events),
        after(events).1 is Relay,
    ensures
        after(events.push(EventView::Relayed)).1 == ActionView::Finish(Ok(())),
        after(events.push(EventView::Failed(cause))).1 == ActionView::Finish(
            if disconnect::benign_chain(disconnect::error_sources(cause)) {
                Ok(())
            } else {
                Err(ErrorView::Relay { target: events[1]->target.display(), cause })
            },
        ),
{
    events_of(events);
    events_of(events.drop_last());
    assert(events.push(EventView::Relayed).drop_last() =~= events);
    assert(events.push(EventView::Failed(cause)).drop_last() =~= events);
}

/// A request to connect is served whatever its target is, an IPv4 or IPv6 address or
/// a domain name: the connector is asked for that very target, the client is told of
/// the connection, bytes are relayed, and the session ends well.
pub proof fn connect_requests_are_served(
    target: Target,
    begin: (Session, Action),
    ready: (Session, Action),
    asked: (Session, Action),
    reached: (Session, Action),
    told: (Session, Action),
    done: (Session, Action),
)
    requires
        call_ensures(Session::start, (), begin),
        call_ensures(Session::step, (begin.0, Event::Accepted), ready),
        call_ensures(
            Session::step,
            (ready.0, Event::Requested { command: Command::TcpConnect, target }),
            asked,
        ),
        call_ensures(Session::step, (asked.0, Event::Connected), reached),
        call_ensures(Session::step, (reached.0, Event::Confirmed), told),
        call_ensures(Session::step, (told.0, Event::Relayed), done),
    ensures
        begin.1 is Handshake,
        call_requires(Session::step, (begin.0, Event::Accepted)),
        ready.1 is ReadCommand,
        call_requires(
            Session::step,
            (ready.0, Event::Requested { command: Command::TcpConnect, target }),
        ),
        asked.1 matches Action::Connect(wanted) && wanted@ == target@,
        call_requires(Session::step, (asked.0, Event::Connected)),
        reached.1 matches Action::Confirm(SocketAddr::V4 { octets, port }) && octets@ == seq![
            127u8,
            0,
            0,
            1,
        ] && port == 0,
        call_requires(Session::step, (reached.0, Event::Confirmed)),
        told.1 is Relay,
        call_requires(Session::step, (told.0, Event::Relayed)),
        done.1 matches Action::Finish(result) && result is Ok,
{
}

/// A request for anything but a connection is answered as not supported, whatever its
/// target is; the session then ends with an error that names the command, or with the
/// error that kept the answer from being sent.
pub proof fn other_requests_are_answered(
    command: Command,
    target: Target,
    cause: anyhow::Error,
    begin: (Session, Action),
    ready: (Session, Action),
    asked: (Session, Action),
    told: (Session, Action),
    untold: (Session, Action),
)
    requires
        command is TcpBind || command is UdpAssociate,
        call_ensures(Session::start, (), begin),
        call_ensures(Session::step, (begin.0, Event::Accepted), ready),
        call_ensures(Session::step, (ready.0, Event::Requested { command, target }), asked),
        call_ensures(Session::step, (asked.0, Event::Refused), told),
        call_ensures(Session::step, (asked.0, Event::Failed(cause)), untold),
    ensures
        call_requires(Session::step, (ready.0, Event::Requested { command, target })),
        asked.1 matches Action::Refuse(refusal) && refusal is CommandNotSupported,
        call_requires(Session::step, (asked.0, Event::Refused)),
        told.1 matches Action::Finish(Err(SessionError::Unsupported(named))) && named == command,
        call_requires(Session::step, (asked.0, Event::Failed(cause))),
        untold.1 matches Action::Finish(Err(SessionError::SendUnsupported(why))) && why == cause,
{
}

/// A session whose handshake or whose command fails ends at once with that failure.
pub proof fn early_failures_end_the_session(
    cause: anyhow::Error,
    begin: (Session, Action),
    unwelcome: (Session, Action),
    ready: (Session, Action),
    unread: (Session, Action),
)
    requires
        call_ensures(Session::start, (), begin),
        call_ensures(Session::step, (begin.0, Event::Failed(cause)), unwelcome),
        call_ensures(Session::step, (begin.0, Event::Accepted), ready),
        call_ensures(Session::step, (ready.0, Event::Failed(cause)), unread),
    ensures
        call_requires(Session::step, (begin.0, Event::Failed(cause))),
        unwelcome.1 matches Action::Finish(Err(SessionError::Handshake(why))) && why == cause,
        call_requires(Session::step, (ready.0, Event::Failed(cause))),
        unread.1 matches Action::Finish(Err(SessionError::ReadCommand(why))) && why == cause,
{
}

/// A target that cannot be connected to is answered as unreachable, whatever it is;
/// the session then ends with the error of the connector, or with the error that kept
/// the answer from being sent.
pub proof fn failed_connections_are_answered(
    target: Target,
    cause: anyhow::Error,
    later: anyhow::Error,
    begin: (Session, Action),
    ready: (Session, Action),
    asked: (Session, Action),
    failed: (Session, Action),
    told: (Session, Action),
    untold: (Session, Action),
)
    requires
        call_ensures(Session::start, (), begin),
        call_ensures(Session::step, (begin.0, Event::Accepted), ready),
        call_ensures(
            Session::step,
            (ready.0, Event::Requested { command: Command::TcpConnect, target }),
            asked,
        ),
        call_ensures(Session::step, (asked.0, Event::Failed(cause)), failed),
        call_ensures(Session::step, (failed.0, Event::Refused), told),
        call_ensures(Session::step, (failed.0, Event::Failed(later)), untold),
    ensures
        call_requires(Session::step, (asked.0, Event::Failed(cause))),
        failed.1 matches Action::Refuse(refusal) && refusal is HostUnreachable,
        call_requires(Session::step, (failed.0, Event::Refused)),
        told.1 matches Action::Finish(Err(SessionError::Connect(why))) && why == cause,
        call_requires(Session::step, (failed.0, Event::Failed(later))),
        untold.1 matches Action::Finish(Err(SessionError::SendUnreachable(why))) && why == later,
{
}

/// Once the target is connected, a confirmation that cannot be sent ends the session
/// with that failure. A relay that fails ends it well where a link of the failure says
/// that the connection is merely gone, and otherwise with the failure and the target.
pub proof fn late_failures_end_the_session(
    target: Target,
    shown: String,
    cause: anyhow::Error,
    begin: (Session, Action),
    ready: (Session, Action),
    asked: (Session, Action),
    reached: (Session, Action),
    untold: (Session, Action),
    told: (Session, Action),
    broken: (Session, Action),
)
    requires
        call_ensures(Target::display, (&target,), shown),
        call_ensures(Session::start, (), begin),
        call_ensures(Session::step, (begin.0, Event::Accepted), ready),
        call_ensures(
            Session::step,
            (ready.0, Event::Requested { command: Command::TcpConnect, target }),
            asked,
        ),
        call_ensures(Session::step, (asked.0, Event::Connected), reached),
        call_ensures(Session::step, (reached.0, Event::Failed(cause)), untold),
        call_ensures(Session::step, (reached.0, Event::Confirmed), told),
        call_ensures(Session::step, (told.0, Event::Failed(cause)), broken),
    ensures
        call_requires(Session::step, (reached.0, Event::Failed(cause))),
        untold.1 matches Action::Finish(Err(SessionError::SendSuccess(why))) && why == cause,
        call_requires(Session::step, (told.0, Event::Failed(cause))),
        broken.1 is Finish,
        (broken.1 matches Action::Finish(result) && result is Ok) <==> exists|i: int|
            0 <= i < disconnect::error_sources(cause).len() && {
                let source = #[trigger] disconnect::error_sources(cause)[i];
                ||| source == disconnect::SourceView::Io(disconnect::IoErrorKind::NotConnected)
                ||| source == disconnect::SourceView::Io(disconnect::IoErrorKind::ConnectionReset)
                ||| source == disconnect::SourceView::Io(disconnect::IoErrorKind::ConnectionAborted)
                ||| source == disconnect::SourceView::Io(disconnect::IoErrorKind::BrokenPipe)
                ||| source == disconnect::SourceView::Io(disconnect::IoErrorKind::UnexpectedEof)
                ||| source == disconnect::SourceView::Message("Stream not connected"@)
            },
        broken.1 matches Action::Finish(Err(error)) ==> (error matches SessionError::Relay {
            target: named,
            cause: why,
        } && named@ == shown@ && why == cause),
{
    let sources = disconnect::error_sources(cause);
    if disconnect::benign_chain(sources) {
        let i = choose|i: int|
            0 <= i < sources.len() && disconnect::benign_source(#[trigger] sources[i]);
        assert(0 <= i < sources.len() && disconnect::benign_source(sources[i]));
    }
}

/// The events that a session awaits: the success that its stage is about, or a
/// failure; nothing once it is finished. It can take each of them.
pub proof fn awaited_events(session: Session, event: Event, awaited: bool)
    requires
        call_ensures(Session::awaits, (&session, &event), awaited),
    ensures
        awaited <==> {
            ||| session is Handshaking && event is Accepted
            ||| session is ReadingCommand && event is Requested
            ||| session is RefusingCommand && event is Refused
            ||| session is Connecting && event is Connected
            ||| session is RefusingTarget && event is Refused
            ||| session is Confirming && event is Confirmed
            ||| session is Relaying && event is Relayed
            ||| !(session is Finished) && event is Failed
        },
        awaited ==> call_requires(Session::step, (session, event)),
{
}

/// What is said of each error.
pub proof fn session_errors_are_told(error: &SessionError, message: Option<String>)
    requires
        call_ensures(SessionError::message, (error,), message),
    ensures
        match *error {
            SessionError::Handshake(_) => message matches Some(text) && text@
                == "SOCKS handshake failed"@,
            SessionError::ReadCommand(_) => message matches Some(text) && text@
                == "failed to read SOCKS command"@,
            SessionError::SendUnsupported(_) => message matches Some(text) && text@
                == "failed to send unsupported command reply"@,
            SessionError::Unsupported(Command::TcpConnect) => message matches Some(text) && text@
                == "unsupported SOCKS command: "@ + "TCPConnect"@,
            SessionError::Unsupported(Command::TcpBind) => message matches Some(text) && text@
                == "unsupported SOCKS command: "@ + "TCPBind"@,
            SessionError::Unsupported(Command::UdpAssociate) => message matches Some(text) && text@
                == "unsupported SOCKS command: "@ + "UDPAssociate"@,
            SessionError::SendUnreachable(_) => message matches Some(text) && text@
                == "failed to send connect error reply"@,
            SessionError::Connect(_) => message is None,
            SessionError::SendSuccess(_) => message matches Some(text) && text@
                == "failed to send connect success reply"@,
            SessionError::Relay { target, .. } => message matches Some(text) && text@
                == "failed while proxying "@ + target@,
        },
{
}

/// The cause of an error is handed out unchanged; an unsupported command has none.
pub proof fn session_errors_keep_their_cause(error: SessionError, cause: Option<anyhow::Error>)
    requires
        call_ensures(SessionError::into_cause, (error,), cause),
    ensures
        match error {
            SessionError::Handshake(why) => cause == Some(why),
            SessionError::ReadCommand(why) => cause == Some(why),
            SessionError::SendUnsupported(why) => cause == Some(why),
            SessionError::Unsupported(_) => cause is None,
            SessionError::SendUnreachable(why) => cause == Some(why),
            SessionError::Connect(why) => cause == Some(why),
            SessionError::SendSuccess(why) => cause == Some(why),
            SessionError::Relay { cause: why, .. } => cause == Some(why),
        },
{
}

/// A row of events that goes well leads from one action to the next, whatever the target
/// is: the connection to it, the confirmation, the relay, and a good end.
pub proof fn good_events_serve_the_request(target: target::TargetView)
    ensures
        ({
            let asked = seq![
                EventView::Accepted,
                EventView::Requested { command: Command::TcpConnect, target },
            ];
            let reached = asked.push(EventView::Connected);
            let told = reached.push(EventView::Confirmed);
            let done = told.push(EventView::Relayed);
            &&& orderly(done)
            &&& after(asked).1 == ActionView::Connect(target)
            &&& after(reached).1 is Confirm
            &&& after(told).1 is Relay
            &&& after(done).1 == ActionView::Finish(Ok(()))
        }),
{
    let asked = seq![
        EventView::Accepted,
        EventView::Requested { command: Command::TcpConnect, target },
    ];
    let reached = asked.push(EventView::Connected);
    let told = reached.push(EventView::Confirmed);
    let done = told.push(EventView::Relayed);
    begins_with_a_request(Command::TcpConnect, target);
    assert(reached.drop_last() =~= asked);
    assert(told.drop_last() =~= reached);
    assert(done.drop_last() =~= told);
    assert(orderly(reached));
    assert(orderly(told));
}

/// The names of the commands.
pub proof fn commands_are_named(command: &Command, name: &'static str)
    requires
        call_ensures(Command::name, (command,), name),
    ensures
        match *command {
            Command::TcpConnect => name@ == "TCPConnect"@,
            Command::TcpBind => name@ == "TCPBind"@,
            Command::UdpAssociate => name@ == "UDPAssociate"@,
        },
{
}

} // verus!
