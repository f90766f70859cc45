use transparent_relay::addr::{Endpoint, Ipv4};
use transparent_relay::handler::{Action, ConnectStage, Connection, Event, LogEvent, Phase, Step};

fn peer() -> Endpoint {
    Endpoint { ip: Ipv4 { a: 192, b: 168, c: 1, d: 20 }, port: 40000 }
}

fn dest() -> Endpoint {
    Endpoint { ip: Ipv4 { a: 93, b: 184, c: 216, d: 34 }, port: 443 }
}

fn act(a: Action) -> Step {
    Step { action: a, log: None }
}

fn resolved(mark: Option<u32>, peer: Endpoint, dst: Endpoint) -> Connection {
    let mut c = Connection::accept(peer, mark);
    assert_eq!(c.step(Event::Start), act(Action::Resolve));
    assert_eq!(c.step(Event::Resolved(dst)), act(Action::OpenSocket));
    c
}

#[test]
fn clean_connection_logs_connect_and_disconnect() {
    let mut c = resolved(None, peer(), dest());
    assert_eq!(c.step(Event::SocketOpened), act(Action::Connect(dest())));
    assert_eq!(
        c.step(Event::Connected),
        Step {
            action: Action::Relay,
            log: Some(LogEvent::Connected { peer: peer(), destination: dest() })
        }
    );
    assert_eq!(c.phase, Phase::Relaying);
    assert_eq!(
        c.step(Event::RelayFinished(8, 10)),
        Step {
            action: Action::Close,
            log: Some(LogEvent::Disconnected {
                peer: peer(),
                destination: dest(),
                sent: 8,
                received: 10
            })
        }
    );
    assert_eq!(c.phase, Phase::Closed);
    assert!(c.is_finished());
}

#[test]
fn resolution_failure_opens_no_socket() {
    let mut c = Connection::accept(peer(), Some(5));
    c.step(Event::Start);
    assert_eq!(
        c.step(Event::ResolveFailed(Some(92))),
        Step {
            action: Action::Close,
            log: Some(LogEvent::ResolutionFailed { peer: peer(), error: Some(92) })
        }
    );
    assert_eq!(c.phase, Phase::Failed);
    assert!(!c.socket_opened);
    assert!(c.is_finished());
    for e in [Event::Resolved(dest()), Event::SocketOpened, Event::Connected] {
        assert_eq!(c.step(e), act(Action::Idle));
    }
    assert!(!c.socket_opened);
    assert_eq!(c.destination, None);
}

#[test]
fn connect_failure_closes_without_relay() {
    let mut c = resolved(None, peer(), dest());
    c.step(Event::SocketOpened);
    assert_eq!(
        c.step(Event::ConnectFailed(Some(111))),
        Step {
            action: Action::Close,
            log: Some(LogEvent::ConnectFailed {
                peer: peer(),
                destination: dest(),
                error: Some(111)
            })
        }
    );
    assert_eq!(c.phase, Phase::Failed);
    assert_eq!(c.step(Event::Connected), act(Action::Idle));
    assert_eq!(c.step(Event::RelayFinished(1, 1)), act(Action::Idle));
}

#[test]
fn socket_failure_is_a_connect_failure() {
    let mut c = resolved(None, peer(), dest());
    assert_eq!(
        c.step(Event::SocketFailed(Some(24))),
        Step {
            action: Action::Close,
            log: Some(LogEvent::ConnectFailed {
                peer: peer(),
                destination: dest(),
                error: Some(24)
            })
        }
    );
    assert!(!c.socket_opened);
}

#[test]
fn mark_is_applied_before_connect() {
    let mut c = resolved(Some(77), peer(), dest());
    assert_eq!(c.step(Event::SocketOpened), act(Action::ApplyMark(77)));
    assert_eq!(c.phase, Phase::Connecting(ConnectStage::Marking));
    assert!(!c.mark_applied);
    assert_eq!(c.step(Event::Connected), act(Action::Idle));
    assert_eq!(c.step(Event::MarkApplied), act(Action::Connect(dest())));
    assert!(c.mark_applied);
    assert_eq!(c.step(Event::Connected).action, Action::Relay);
}

#[test]
fn mark_failure_discards_the_connection() {
    let mut c = resolved(Some(77), peer(), dest());
    c.step(Event::SocketOpened);
    assert_eq!(
        c.step(Event::MarkFailed(Some(1))),
        Step {
            action: Action::Close,
            log: Some(LogEvent::MarkApplicationFailed {
                peer: peer(),
                destination: dest(),
                error: Some(1)
            })
        }
    );
    assert_eq!(c.phase, Phase::Failed);
    assert!(!c.mark_applied);
}

#[test]
fn relay_failure_closes_the_connection() {
    let mut c = resolved(None, peer(), dest());
    c.step(Event::SocketOpened);
    c.step(Event::Connected);
    assert_eq!(
        c.step(Event::RelayFailed(None)),
        Step {
            action: Action::Close,
            log: Some(LogEvent::RelayFailed { peer: peer(), destination: dest(), error: None })
        }
    );
    assert_eq!(c.phase, Phase::Closed);
}

#[test]
fn out_of_order_events_are_ignored() {
    let mut c = Connection::accept(peer(), None);
    assert_eq!(c.step(Event::Resolved(dest())), act(Action::Idle));
    assert_eq!(c.phase, Phase::Accepted);
    c.step(Event::Start);
    assert_eq!(c.step(Event::Start), act(Action::Idle));
    assert_eq!(c.phase, Phase::Resolving);
}

#[test]
fn fifty_connections_one_unreachable() {
    let mut conns: Vec<Connection> = (0..50u16)
        .map(|i| {
            let p = Endpoint { ip: Ipv4 { a: 10, b: 0, c: 0, d: 2 }, port: 50000 + i };
            let d = Endpoint { ip: Ipv4 { a: 10, b: 0, c: 1, d: (i % 200) as u8 }, port: 80 };
            resolved(Some(77), p, d)
        })
        .collect();
    for c in conns.iter_mut() {
        assert_eq!(c.step(Event::SocketOpened), act(Action::ApplyMark(77)));
        assert_eq!(c.step(Event::MarkApplied).action, Action::Connect(c.destination.unwrap()));
    }
    let mut closed = 0;
    let mut failed = 0;
    for (i, c) in conns.iter_mut().enumerate() {
        if i == 17 {
            assert_eq!(c.step(Event::ConnectFailed(Some(113))).action, Action::Close);
        } else {
            assert_eq!(c.step(Event::Connected).action, Action::Relay);
            assert_eq!(c.step(Event::RelayFinished(i as u64, 2 * i as u64)).action, Action::Close);
        }
    }
    for c in conns.iter() {
        match c.phase {
            Phase::Closed => closed += 1,
            Phase::Failed => failed += 1,
            _ => panic!("connection left open"),
        }
    }
    assert_eq!((closed, failed), (49, 1));
    let mut late = Connection::accept(peer(), Some(77));
    assert_eq!(late.step(Event::Start), act(Action::Resolve));
}
