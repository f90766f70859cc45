use vstd::prelude::*;

verus! {

/// One of the two directions of a relayed connection.
#[derive(Clone, Copy, Debug, PartialEq, Eq, Structural)]
pub enum Direction {
    /// Bytes read from the client and written to the upstream.
    ClientToUpstream,
    /// Bytes read from the upstream and written to the client.
    UpstreamToClient,
}

/// What one direction has done so far: whether its source has reached end of
/// stream, and how many bytes it has forwarded.
#[derive(Clone, Copy, Debug, PartialEq, Eq, Structural)]
pub struct Flow {
    pub ended: bool,
    pub bytes: u64,
}

/// The state of a relay between a client and an upstream stream.
#[derive(Clone, Copy, Debug, PartialEq, Eq, Structural)]
pub struct Relay {
    pub to_upstream: Flow,
    pub to_client: Flow,
    pub failed: bool,
}

/// What the runtime reports to the relay.
#[derive(Clone, Copy, Debug, PartialEq, Eq, Structural)]
pub enum RelayEvent {
    /// A read from the source of the direction returned this many bytes;
    /// zero is end of stream.
    Read(Direction, usize),
    /// A read, write or shutdown on either stream failed.
    Failed,
}

/// What the runtime is to do next.
#[derive(Clone, Copy, Debug, PartialEq, Eq, Structural)]
pub enum RelayAction {
    /// Write the bytes just read, all of them, to the direction's destination.
    Forward(Direction, usize),
    /// Shut down the write side of the direction's destination.
    HalfClose(Direction),
    /// Close both streams: the relay has failed.
    Abort,
    /// Nothing: the event came after its direction, or the relay, had ended.
    Idle,
}

/// Where a relay stands.
#[derive(Clone, Copy, Debug, PartialEq, Eq, Structural)]
pub enum RelayStatus {
    Running,
    /// Both directions ended cleanly, with the bytes forwarded client to
    /// upstream and upstream to client.
    Finished(u64, u64),
    Failed,
}

pub open spec fn flow(r: Relay, d: Direction) -> Flow {
    match d {
        Direction::ClientToUpstream => r.to_upstream,
        Direction::UpstreamToClient => r.to_client,
    }
}

pub open spec fn with_flow(r: Relay, d: Direction, f: Flow) -> Relay {
    match d {
        Direction::ClientToUpstream => Relay { to_upstream: f, ..r },
        Direction::UpstreamToClient => Relay { to_client: f, ..r },
    }
}

pub open spec fn initial() -> Relay {
    Relay {
        to_upstream: Flow { ended: false, bytes: 0 },
        to_client: Flow { ended: false, bytes: 0 },
        failed: false,
    }
}

/// The state after an event, and the action it calls for.
pub open spec fn next(r: Relay, e: RelayEvent) -> (Relay, RelayAction) {
    if r.failed {
        (r, RelayAction::Idle)
    } else {
        match e {
            RelayEvent::Failed => (Relay { failed: true, ..r }, RelayAction::Abort),
            RelayEvent::Read(d, n) => {
                let f = flow(r, d);
                if f.ended {
                    (r, RelayAction::Idle)
                } else if n == 0 {
                    (with_flow(r, d, Flow { ended: true, ..f }), RelayAction::HalfClose(d))
                } else {
                    (
                        with_flow(r, d, Flow { bytes: (f.bytes + n) as u64, ..f }),
                        RelayAction::Forward(d, n),
                    )
                }
            },
        }
    }
}

pub open spec fn status(r: Relay) -> RelayStatus {
    if r.failed {
        RelayStatus::Failed
    } else if r.to_upstream.ended && r.to_client.ended {
        RelayStatus::Finished(r.to_upstream.bytes, r.to_client.bytes)
    } else {
        RelayStatus::Running
    }
}

/// The state after a sequence of events.
pub open spec fn run(r: Relay, evs: Seq<RelayEvent>) -> Relay
    decreases evs.len(),
{
    if evs.len() == 0 {
        r
    } else {
        next(run(r, evs.drop_last()), evs.last()).0
    }
}

/// The bytes that the source of a direction delivered in a sequence of reads.
pub open spec fn sent(evs: Seq<RelayEvent>, d: Direction) -> nat
    decreases evs.len(),
{
    if evs.len() == 0 {
        0
    } else {
        sent(evs.drop_last(), d) + match evs.last() {
            RelayEvent::Read(x, n) => if x == d {
                n as nat
            } else {
                0
            },
            RelayEvent::Failed => 0,
        }
    }
}

/// Whether a direction's source reported end of stream.
pub open spec fn saw_end(evs: Seq<RelayEvent>, d: Direction) -> bool {
    exists|i: int| 0 <= i < evs.len() && evs[i] == RelayEvent::Read(d, 0)
}

/// The direction whose source a read event comes from.
pub open spec fn source_of(e: RelayEvent) -> Option<Direction> {
    match e {
        RelayEvent::Read(d, _) => Some(d),
        RelayEvent::Failed => None,
    }
}

pub open spec fn is_end(e: RelayEvent) -> bool {
    e matches RelayEvent::Read(_, 0)
}

/// A run with no failure, in which no source delivers anything after its end
/// of stream: what two streams that end cleanly report.
pub open spec fn clean(evs: Seq<RelayEvent>) -> bool {
    &&& forall|i: int| 0 <= i < evs.len() ==> #[trigger] evs[i] != RelayEvent::Failed
    &&& forall|i: int, j: int|
        #![trigger evs[i], evs[j]]
        0 <= i < j < evs.len() && is_end(evs[i]) ==> source_of(evs[j]) != source_of(evs[i])
}

impl Relay {
    /// A relay before any byte has moved.
    pub fn new() -> (r: Relay)
        ensures
            r == initial(),
    {
        Relay {
            to_upstream: Flow { ended: false, bytes: 0 },
            to_client: Flow { ended: false, bytes: 0 },
            failed: false,
        }
    }

    /// Whether the source of a direction still needs reading.
    pub fn wants_read(&self, d: Direction) -> (r: bool)
        ensures
            r == (!self.failed && !flow(*self, d).ended),
    {
        match d {
            Direction::ClientToUpstream => !self.failed && !self.to_upstream.ended,
            Direction::UpstreamToClient => !self.failed && !self.to_client.ended,
        }
    }

    /// Whether forwarding `n` more bytes in direction `d` keeps its count in range.
    pub fn can_count(&self, d: Direction, n: usize) -> (r: bool)
        ensures
            r == (flow(*self, d).bytes + n <= u64::MAX),
    {
        let b = match d {
            Direction::ClientToUpstream => self.to_upstream.bytes,
            Direction::UpstreamToClient => self.to_client.bytes,
        };
        n as u64 <= u64::MAX - b
    }

    /// Takes one event and says what to do about it. A direction that reaches
    /// end of stream half-closes its destination and the other one goes on.
    pub fn step(&mut self, e: RelayEvent) -> (a: RelayAction)
        requires
            e matches RelayEvent::Read(d, n) ==> flow(*old(self), d).bytes + n <= u64::MAX,
        ensures
            (*final(self), a) == next(*old(self), e),
    {
        if self.failed {
            return RelayAction::Idle;
        }
        match e {
            RelayEvent::Failed => {
                self.failed = true;
                RelayAction::Abort
            },
            RelayEvent::Read(d, n) => {
                let f = match d {
                    Direction::ClientToUpstream => &mut self.to_upstream,
                    Direction::UpstreamToClient => &mut self.to_client,
                };
                if f.ended {
                    RelayAction::Idle
                } else if n == 0 {
                    f.ended = true;
                    RelayAction::HalfClose(d)
                } else {
                    f.bytes = f.bytes + n as u64;
                    RelayAction::Forward(d, n)
                }
            },
        }
    }

    /// Where the relay stands.
    pub fn status(&self) -> (r: RelayStatus)
        ensures
            r == status(*self),
    {
        if self.failed {
            RelayStatus::Failed
        } else if self.to_upstream.ended && self.to_client.ended {
            RelayStatus::Finished(self.to_upstream.bytes, self.to_client.bytes)
        } else {
            RelayStatus::Running
        }
    }
}

proof fn lemma_clean_prefix(evs: Seq<RelayEvent>)
    requires
        evs.len() > 0,
        clean(evs),
    ensures
        clean(evs.drop_last()),
{
    let p = evs.drop_last();
    assert forall|i: int| 0 <= i < p.len() implies p[i] != RelayEvent::Failed by {
        assert(p[i] == evs[i]);
    }
    assert forall|i: int, j: int|
        #![trigger p[i], p[j]]
        0 <= i < j < p.len() && is_end(p[i]) implies source_of(p[j]) != source_of(p[i]) by {
        assert(p[i] == evs[i] && p[j] == evs[j]);
    }
}

proof fn lemma_clean_ended(evs: Seq<RelayEvent>, d: Direction)
    requires
        clean(evs),
    ensures
        !run(initial(), evs).failed,
        flow(run(initial(), evs), d).ended == saw_end(evs, d),
    decreases evs.len(),
{
    if evs.len() > 0 {
        let p = evs.drop_last();
        let k = evs.len() - 1;
        lemma_clean_prefix(evs);
        lemma_clean_ended(p, d);
        assert(evs[k] != RelayEvent::Failed);
        if saw_end(p, d) {
            let i = choose|i: int| 0 <= i < p.len() && p[i] == RelayEvent::Read(d, 0);
            assert(evs[i] == RelayEvent::Read(d, 0));
        }
        if saw_end(evs, d) && !saw_end(p, d) {
            let i = choose|i: int| 0 <= i < evs.len() && evs[i] == RelayEvent::Read(d, 0);
            if i < k {
                assert(p[i] == evs[i]);
            }
        }
        if evs.last() == RelayEvent::Read(d, 0) {
            assert(evs[k] == RelayEvent::Read(d, 0));
        }
    }
}

/// In a clean run, a source that delivers bytes has not yet ended.
proof fn lemma_clean_last_open(evs: Seq<RelayEvent>, d: Direction, n: usize)
    requires
        clean(evs),
        evs.len() > 0,
        evs.last() == RelayEvent::Read(d, n),
        n > 0,
    ensures
        !saw_end(evs.drop_last(), d),
{
    let p = evs.drop_last();
    let k = evs.len() - 1;
    if saw_end(p, d) {
        let i = choose|i: int| 0 <= i < p.len() && p[i] == RelayEvent::Read(d, 0);
        assert(evs[i] == RelayEvent::Read(d, 0) && is_end(evs[i]));
        assert(source_of(evs[k]) == Some(d));
    }
}

proof fn lemma_clean_run(evs: Seq<RelayEvent>, d: Direction)
    requires
        clean(evs),
        sent(evs, d) <= u64::MAX,
    ensures
        !run(initial(), evs).failed,
        flow(run(initial(), evs), d).bytes == sent(evs, d),
        flow(run(initial(), evs), d).ended == saw_end(evs, d),
    decreases evs.len(),
{
    lemma_clean_ended(evs, d);
    if evs.len() > 0 {
        let p = evs.drop_last();
        lemma_clean_prefix(evs);
        lemma_clean_run(p, d);
        if let RelayEvent::Read(x, n) = evs.last() {
            if x == d && n > 0 {
                lemma_clean_last_open(evs, d, n);
            }
        }
    }
}

/// The sizes of the chunks that a run forwards in a direction, in order.
pub open spec fn forwarded(evs: Seq<RelayEvent>, d: Direction) -> Seq<usize>
    decreases evs.len(),
{
    if evs.len() == 0 {
        Seq::empty()
    } else {
        let before = forwarded(evs.drop_last(), d);
        match next(run(initial(), evs.drop_last()), evs.last()).1 {
            RelayAction::Forward(x, n) => if x == d {
                before.push(n)
            } else {
                before
            },
            _ => before,
        }
    }
}

/// The sizes of the chunks that a direction's source delivered, in order.
pub open spec fn delivered(evs: Seq<RelayEvent>, d: Direction) -> Seq<usize>
    decreases evs.len(),
{
    if evs.len() == 0 {
        Seq::empty()
    } else {
        let before = delivered(evs.drop_last(), d);
        match evs.last() {
            RelayEvent::Read(x, n) => if x == d && n > 0 {
                before.push(n)
            } else {
                before
            },
            RelayEvent::Failed => before,
        }
    }
}

/// In a run whose streams end cleanly, each direction forwards exactly the
/// chunks that its source delivered, in the order delivered: nothing is lost,
/// repeated or reordered.
pub proof fn law_forwards_what_was_delivered(evs: Seq<RelayEvent>, d: Direction)
    requires
        clean(evs),
    ensures
        forwarded(evs, d) == delivered(evs, d),
    decreases evs.len(),
{
    if evs.len() > 0 {
        let p = evs.drop_last();
        lemma_clean_prefix(evs);
        law_forwards_what_was_delivered(p, d);
        lemma_clean_ended(p, d);
        if let RelayEvent::Read(x, n) = evs.last() {
            if n > 0 {
                lemma_clean_last_open(evs, x, n);
                lemma_clean_ended(p, x);
            }
        }
    }
}

/// For a relay whose two streams end cleanly, the count of each direction is
/// the number of bytes that its source delivered before its end of stream, and
/// once both sources have ended the relay finishes with those two counts.
pub proof fn law_counts_match_sources(evs: Seq<RelayEvent>)
    requires
        clean(evs),
        sent(evs, Direction::ClientToUpstream) <= u64::MAX,
        sent(evs, Direction::UpstreamToClient) <= u64::MAX,
    ensures
        run(initial(), evs).to_upstream.bytes == sent(evs, Direction::ClientToUpstream),
        run(initial(), evs).to_client.bytes == sent(evs, Direction::UpstreamToClient),
        saw_end(evs, Direction::ClientToUpstream) && saw_end(evs, Direction::UpstreamToClient)
            ==> status(run(initial(), evs)) == RelayStatus::Finished(
            sent(evs, Direction::ClientToUpstream) as u64,
            sent(evs, Direction::UpstreamToClient) as u64,
        ),
        !(saw_end(evs, Direction::ClientToUpstream) && saw_end(
            evs,
            Direction::UpstreamToClient,
        )) ==> status(run(initial(), evs)) == RelayStatus::Running,
{
    lemma_clean_run(evs, Direction::ClientToUpstream);
    lemma_clean_run(evs, Direction::UpstreamToClient);
}

/// Half-close: once one direction has ended and the other has not, the relay
/// keeps running; every byte that the open direction's source delivers is
/// forwarded in full, and only that direction's own end of stream, or a
/// failure, finishes the relay.
pub proof fn law_half_close(r: Relay, open: Direction, n: usize)
    requires
        !r.failed,
        !flow(r, open).ended,
        flow(r, open).bytes + n <= u64::MAX,
        open == Direction::ClientToUpstream ==> r.to_client.ended,
        open == Direction::UpstreamToClient ==> r.to_upstream.ended,
    ensures
        status(r) == RelayStatus::Running,
        n > 0 ==> next(r, RelayEvent::Read(open, n)).1 == RelayAction::Forward(open, n),
        n > 0 ==> status(next(r, RelayEvent::Read(open, n)).0) == RelayStatus::Running,
        n > 0 ==> flow(next(r, RelayEvent::Read(open, n)).0, open).bytes == flow(r, open).bytes
            + n,
        status(next(r, RelayEvent::Read(open, 0)).0) == RelayStatus::Finished(
            r.to_upstream.bytes,
            r.to_client.bytes,
        ),
{
}

} // verus!
