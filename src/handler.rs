use vstd::prelude::*;
use crate::addr::Endpoint;

verus! {

/// The steps of establishing the outbound connection.
#[derive(Clone, Copy, Debug, PartialEq, Eq, Structural)]
pub enum ConnectStage {
    /// The outbound socket is being created.
    Opening,
    /// The routing mark is being set on the new socket.
    Marking,
    /// The socket is connecting to the original destination.
    Dialing,
}

/// Where one accepted connection stands.
#[derive(Clone, Copy, Debug, PartialEq, Eq, Structural)]
pub enum Phase {
    Accepted,
    Resolving,
    Connecting(ConnectStage),
    Relaying,
    Closed,
    Failed,
}

/// What the runtime reports to a connection. An error carries the operating
/// system's error number where there is one.
#[derive(Clone, Copy, Debug, PartialEq, Eq, Structural)]
pub enum Event {
    /// The handler has started.
    Start,
    /// The original destination was recovered.
    Resolved(Endpoint),
    ResolveFailed(Option<i32>),
    /// The outbound socket was created.
    SocketOpened,
    SocketFailed(Option<i32>),
    MarkApplied,
    MarkFailed(Option<i32>),
    Connected,
    ConnectFailed(Option<i32>),
    /// The relay ended cleanly, with the bytes sent to the upstream and the
    /// bytes received from it.
    RelayFinished(u64, u64),
    RelayFailed(Option<i32>),
}

/// What the runtime is to do next for a connection.
#[derive(Clone, Copy, Debug, PartialEq, Eq, Structural)]
pub enum Action {
    /// Ask the kernel for the inbound socket's original destination.
    Resolve,
    /// Create the outbound socket.
    OpenSocket,
    /// Set this routing mark on the outbound socket.
    ApplyMark(u32),
    /// Connect the outbound socket to this address.
    Connect(Endpoint),
    /// Relay bytes between the two sockets.
    Relay,
    /// Close every socket that the connection holds; it is over.
    Close,
    /// Nothing: the event does not belong to the current phase.
    Idle,
}

/// A lifecycle event to be logged, with the addresses it concerns.
#[derive(Clone, Copy, Debug, PartialEq, Eq, Structural)]
pub enum LogEvent {
    ResolutionFailed { peer: Endpoint, error: Option<i32> },
    MarkApplicationFailed { peer: Endpoint, destination: Endpoint, error: Option<i32> },
    ConnectFailed { peer: Endpoint, destination: Endpoint, error: Option<i32> },
    Connected { peer: Endpoint, destination: Endpoint },
    Disconnected { peer: Endpoint, destination: Endpoint, sent: u64, received: u64 },
    RelayFailed { peer: Endpoint, destination: Endpoint, error: Option<i32> },
}

/// The answer to one event: an action, and at most one line to log.
#[derive(Clone, Copy, Debug, PartialEq, Eq, Structural)]
pub struct Step {
    pub action: Action,
    pub log: Option<LogEvent>,
}

/// One accepted connection: its peer, the routing mark of the process, and
/// what has happened so far.
#[derive(Clone, Copy, Debug, PartialEq, Eq, Structural)]
pub struct Connection {
    pub peer: Endpoint,
    pub mark: Option<u32>,
    pub phase: Phase,
    pub destination: Option<Endpoint>,
    pub socket_opened: bool,
    pub mark_applied: bool,
}

pub open spec fn accepted(peer: Endpoint, mark: Option<u32>) -> Connection {
    Connection {
        peer,
        mark,
        phase: Phase::Accepted,
        destination: None,
        socket_opened: false,
        mark_applied: false,
    }
}

/// What holds of a connection in every phase: an outbound socket exists only
/// once the destination is known, the mark is set only on that socket, and
/// nothing dials or relays before a configured mark is set.
pub open spec fn wf(c: Connection) -> bool {
    &&& (c.mark_applied ==> c.socket_opened && c.mark.is_some())
    &&& (c.socket_opened ==> c.destination.is_some())
    &&& match c.phase {
        Phase::Accepted | Phase::Resolving => c.destination.is_none() && !c.socket_opened,
        Phase::Connecting(ConnectStage::Opening) => c.destination.is_some() && !c.socket_opened,
        Phase::Connecting(ConnectStage::Marking) => c.socket_opened && c.mark.is_some()
            && !c.mark_applied,
        Phase::Connecting(ConnectStage::Dialing) | Phase::Relaying => c.socket_opened && (
        c.mark.is_some() ==> c.mark_applied),
        Phase::Closed => c.socket_opened && (c.mark.is_some() ==> c.mark_applied),
        Phase::Failed => true,
    }
}

pub open spec fn idle() -> Step {
    Step { action: Action::Idle, log: None }
}

pub open spec fn fail(c: Connection, log: LogEvent) -> (Connection, Step) {
    (Connection { phase: Phase::Failed, ..c }, Step { action: Action::Close, log: Some(log) })
}

/// The connection after an event, and the step it calls for.
pub open spec fn next(c: Connection, e: Event) -> (Connection, Step) {
    let dst = c.destination.unwrap();
    match (c.phase, e) {
        (Phase::Accepted, Event::Start) => (
            Connection { phase: Phase::Resolving, ..c },
            Step { action: Action::Resolve, log: None },
        ),
        (Phase::Resolving, Event::Resolved(d)) => (
            Connection {
                phase: Phase::Connecting(ConnectStage::Opening),
                destination: Some(d),
                ..c
            },
            Step { action: Action::OpenSocket, log: None },
        ),
        (Phase::Resolving, Event::ResolveFailed(err)) => fail(
            c,
            LogEvent::ResolutionFailed { peer: c.peer, error: err },
        ),
        (Phase::Connecting(ConnectStage::Opening), Event::SocketOpened) => match c.mark {
            Some(m) => (
                Connection {
                    phase: Phase::Connecting(ConnectStage::Marking),
                    socket_opened: true,
                    ..c
                },
                Step { action: Action::ApplyMark(m), log: None },
            ),
            None => (
                Connection {
                    phase: Phase::Connecting(ConnectStage::Dialing),
                    socket_opened: true,
                    ..c
                },
                Step { action: Action::Connect(dst), log: None },
            ),
        },
        (Phase::Connecting(ConnectStage::Opening), Event::SocketFailed(err)) => fail(
            c,
            LogEvent::ConnectFailed { peer: c.peer, destination: dst, error: err },
        ),
        (Phase::Connecting(ConnectStage::Marking), Event::MarkApplied) => (
            Connection {
                phase: Phase::Connecting(ConnectStage::Dialing),
                mark_applied: true,
                ..c
            },
            Step { action: Action::Connect(dst), log: None },
        ),
        (Phase::Connecting(ConnectStage::Marking), Event::MarkFailed(err)) => fail(
            c,
            LogEvent::MarkApplicationFailed { peer: c.peer, destination: dst, error: err },
        ),
        (Phase::Connecting(ConnectStage::Dialing), Event::Connected) => (
            Connection { phase: Phase::Relaying, ..c },
            Step {
                action: Action::Relay,
                log: Some(LogEvent::Connected { peer: c.peer, destination: dst }),
            },
        ),
        (Phase::Connecting(ConnectStage::Dialing), Event::ConnectFailed(err)) => fail(
            c,
            LogEvent::ConnectFailed { peer: c.peer, destination: dst, error: err },
        ),
        (Phase::Relaying, Event::RelayFinished(tx, rx)) => (
            Connection { phase: Phase::Closed, ..c },
            Step {
                action: Action::Close,
                log: Some(
                    LogEvent::Disconnected {
                        peer: c.peer,
                        destination: dst,
                        sent: tx,
                        received: rx,
                    },
                ),
            },
        ),
        (Phase::Relaying, Event::RelayFailed(err)) => (
            Connection { phase: Phase::Closed, ..c },
            Step {
                action: Action::Close,
                log: Some(LogEvent::RelayFailed { peer: c.peer, destination: dst, error: err }),
            },
        ),
        _ => (c, idle()),
    }
}

impl Connection {
    /// A connection just accepted from `peer`, in a process whose outbound
    /// sockets carry `mark` where one is given.
    pub fn accept(peer: Endpoint, mark: Option<u32>) -> (r: Connection)
        ensures
            r == accepted(peer, mark),
            wf(r),
    {
        Connection {
            peer,
            mark,
            phase: Phase::Accepted,
            destination: None,
            socket_opened: false,
            mark_applied: false,
        }
    }

    /// Whether the connection is over, closed or failed.
    pub fn is_finished(&self) -> (r: bool)
        ensures
            r == (self.phase == Phase::Closed || self.phase == Phase::Failed),
    {
        match self.phase {
            Phase::Closed | Phase::Failed => true,
            _ => false,
        }
    }

    /// Takes one event and says what to do about it and what to log.
    pub fn step(&mut self, e: Event) -> (s: Step)
        requires
            wf(*old(self)),
        ensures
            (*final(self), s) == next(*old(self), e),
            wf(*final(self)),
    {
        let c = *self;
        match (c.phase, e) {
            (Phase::Accepted, Event::Start) => {
                self.phase = Phase::Resolving;
                Step { action: Action::Resolve, log: None }
            },
            (Phase::Resolving, Event::Resolved(d)) => {
                self.phase = Phase::Connecting(ConnectStage::Opening);
                self.destination = Some(d);
                Step { action: Action::OpenSocket, log: None }
            },
            (Phase::Resolving, Event::ResolveFailed(err)) => {
                self.phase = Phase::Failed;
                Step {
                    action: Action::Close,
                    log: Some(LogEvent::ResolutionFailed { peer: c.peer, error: err }),
                }
            },
            (Phase::Connecting(ConnectStage::Opening), Event::SocketOpened) => {
                self.socket_opened = true;
                match c.mark {
                    Some(m) => {
                        self.phase = Phase::Connecting(ConnectStage::Marking);
                        Step { action: Action::ApplyMark(m), log: None }
                    },
                    None => {
                        self.phase = Phase::Connecting(ConnectStage::Dialing);
                        Step { action: Action::Connect(c.destination.unwrap()), log: None }
                    },
                }
            },
            (Phase::Connecting(ConnectStage::Opening), Event::SocketFailed(err)) => {
                self.phase = Phase::Failed;
                Step {
                    action: Action::Close,
                    log: Some(
                        LogEvent::ConnectFailed {
                            peer: c.peer,
                            destination: c.destination.unwrap(),
                            error: err,
                        },
                    ),
                }
            },
            (Phase::Connecting(ConnectStage::Marking), Event::MarkApplied) => {
                self.phase = Phase::Connecting(ConnectStage::Dialing);
                self.mark_applied = true;
                Step { action: Action::Connect(c.destination.unwrap()), log: None }
            },
            (Phase::Connecting(ConnectStage::Marking), Event::MarkFailed(err)) => {
                self.phase = Phase::Failed;
                Step {
                    action: Action::Close,
                    log: Some(
                        LogEvent::MarkApplicationFailed {
                            peer: c.peer,
                            destination: c.destination.unwrap(),
                            error: err,
                        },
                    ),
                }
            },
            (Phase::Connecting(ConnectStage::Dialing), Event::Connected) => {
                self.phase = Phase::Relaying;
                Step {
                    action: Action::Relay,
                    log: Some(
                        LogEvent::Connected { peer: c.peer, destination: c.destination.unwrap() },
                    ),
                }
            },
            (Phase::Connecting(ConnectStage::Dialing), Event::ConnectFailed(err)) => {
                self.phase = Phase::Failed;
                Step {
                    action: Action::Close,
                    log: Some(
                        LogEvent::ConnectFailed {
                            peer: c.peer,
                            destination: c.destination.unwrap(),
                            error: err,
                        },
                    ),
                }
            },
            (Phase::Relaying, Event::RelayFinished(tx, rx)) => {
                self.phase = Phase::Closed;
                Step {
                    action: Action::Close,
                    log: Some(
                        LogEvent::Disconnected {
                            peer: c.peer,
                            destination: c.destination.unwrap(),
                            sent: tx,
                            received: rx,
                        },
                    ),
                }
            },
            (Phase::Relaying, Event::RelayFailed(err)) => {
                self.phase = Phase::Closed;
                Step {
                    action: Action::Close,
                    log: Some(
                        LogEvent::RelayFailed {
                            peer: c.peer,
                            destination: c.destination.unwrap(),
                            error: err,
                        },
                    ),
                }
            },
            _ => Step { action: Action::Idle, log: None },
        }
    }
}


/// A closed or failed connection stays as it is whatever is reported, and
/// calls for nothing more: no socket, no mark, no relay, no log.
pub proof fn law_finished_is_final(c: Connection, e: Event)
    requires
        c.phase == Phase::Closed || c.phase == Phase::Failed,
    ensures
        next(c, e) == (c, idle()),
{
}

/// When the original destination cannot be recovered, the connection fails
/// with a resolution failure logged, holds no outbound socket, and never
/// creates one afterwards.
pub proof fn law_resolution_failure(peer: Endpoint, mark: Option<u32>, err: Option<i32>, later: Event)
    ensures
        ({
            let c1 = next(accepted(peer, mark), Event::Start).0;
            let (c2, s2) = next(c1, Event::ResolveFailed(err));
            &&& c2.phase == Phase::Failed
            &&& !c2.socket_opened
            &&& s2 == Step {
                action: Action::Close,
                log: Some(LogEvent::ResolutionFailed { peer, error: err }),
            }
            &&& next(c2, later) == (c2, idle())
        }),
{
}

/// When the outbound connect fails, the connection fails with a connect
/// failure logged for its peer and destination, and no relay ever starts.
pub proof fn law_connect_failure(c: Connection, err: Option<i32>, later: Event)
    requires
        wf(c),
        c.phase == Phase::Connecting(ConnectStage::Dialing),
    ensures
        ({
            let (c2, s2) = next(c, Event::ConnectFailed(err));
            &&& c2.phase == Phase::Failed
            &&& s2 == Step {
                action: Action::Close,
                log: Some(
                    LogEvent::ConnectFailed {
                        peer: c.peer,
                        destination: c.destination.unwrap(),
                        error: err,
                    },
                ),
            }
            &&& next(c2, later).1.action != Action::Relay
        }),
{
}

/// With a routing mark configured, the socket carries it before any connect
/// is issued; the connect goes to the recovered destination, and only the
/// mark of the configuration is ever asked for.
pub proof fn law_mark_before_connect(c: Connection, e: Event)
    requires
        wf(c),
    ensures
        next(c, e).1.action matches Action::Connect(d) ==> c.destination == Some(d) && next(
            c,
            e,
        ).0.socket_opened && (c.mark.is_some() ==> next(c, e).0.mark_applied),
        next(c, e).1.action matches Action::ApplyMark(m) ==> c.mark == Some(m),
{
}

/// At most one outbound socket per connection, and only once the destination
/// has been recovered; the relay starts only when the outbound socket has
/// connected.
pub proof fn law_socket_and_relay_order(c: Connection, e: Event)
    requires
        wf(c),
    ensures
        next(c, e).1.action == Action::OpenSocket ==> !c.socket_opened && next(
            c,
            e,
        ).0.destination.is_some(),
        next(c, e).1.action == Action::Relay ==> c.phase == Phase::Connecting(
            ConnectStage::Dialing,
        ) && e == Event::Connected,
        c.socket_opened ==> next(c, e).0.socket_opened,
{
}

} // verus!
