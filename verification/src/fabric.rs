//! The peer fabric: one connector per remote address on the way out, and a
//! table of the accepted connections on the way in.

use vstd::prelude::*;
use crate::connector::{spec_step, Action, Connection, ConnectionView, Event, Phase};
use crate::backoff::INITIAL_DELAY_MS;
use crate::table::KeyTable;
use crate::types::PeerAddr;

verus! {

/// The outgoing side: the connectors, by remote address. A connector is made
/// when the first frame for its address comes, and it stays.
pub struct Client {
    sender_workers: KeyTable<PeerAddr, Connection>,
}

/// What the fabric tells its driver about an event it handed on.
#[derive(Debug, Clone, PartialEq, Eq)]
pub struct Routed {
    /// Whether the connector was made for this event.
    pub created: bool,
    /// What a connector that was just made wants done first: to dial. A
    /// connector that was there wants nothing first.
    pub first: Action,
    /// What the connector wants done on the event.
    pub action: Action,
}

/// A connector before it is told to start.
pub open spec fn spec_fresh() -> ConnectionView {
    ConnectionView {
        phase: Phase::Disconnected,
        delay: INITIAL_DELAY_MS,
        retry: 0,
        buffer: Seq::empty(),
    }
}

/// What a connector wants done first: one that is made for the event answers
/// its start, one that was there wants nothing.
pub open spec fn spec_first(workers: Map<PeerAddr, ConnectionView>, dest: PeerAddr) -> Action {
    if workers.dom().contains(dest) {
        Action::Idle
    } else {
        spec_step(spec_fresh(), Event::Start).1
    }
}

/// A connector that was made and told to start.
pub open spec fn spec_started() -> ConnectionView {
    spec_step(spec_fresh(), Event::Start).0
}

/// The connector of `dest` as it takes the next event: the one that is
/// there, or one just made and started.
pub open spec fn spec_worker(workers: Map<PeerAddr, ConnectionView>, dest: PeerAddr)
    -> ConnectionView {
    if workers.dom().contains(dest) {
        workers[dest]
    } else {
        spec_started()
    }
}

impl Client {
    /// The table is well formed and so is every connector.
    pub closed spec fn wf(&self) -> bool {
        &&& self.sender_workers.wf()
        &&& forall|a: PeerAddr| #[trigger]
            self.sender_workers@.dom().contains(a) ==> self.sender_workers@[a].wf()
    }

    /// The connectors by remote address.
    pub closed spec fn workers(&self) -> Map<PeerAddr, ConnectionView> {
        Map::new(
            |a: PeerAddr| self.sender_workers@.dom().contains(a),
            |a: PeerAddr| self.sender_workers@[a]@,
        )
    }

    /// A fabric without connectors.
    pub fn new() -> (client: Self)
        ensures
            client.wf(),
            client.workers() == Map::<PeerAddr, ConnectionView>::empty(),
    {
        let client = Client { sender_workers: KeyTable::new() };
        assert(client.workers() =~= Map::<PeerAddr, ConnectionView>::empty());
        client
    }

    /// Number of connectors.
    pub fn worker_count(&self) -> (n: usize)
        requires
            self.wf(),
        ensures
            n == self.workers().dom().len(),
    {
        assert(self.workers().dom() =~= self.sender_workers@.dom());
        self.sender_workers.len()
    }

    /// Whether `dest` has a connector.
    pub fn has_worker(&self, dest: &PeerAddr) -> (known: bool)
        requires
            self.wf(),
        ensures
            known == self.workers().dom().contains(*dest),
    {
        self.sender_workers.contains_key(dest)
    }

    /// Hands `event` to the connector of `dest`, making and starting the
    /// connector first if there is none. The other connectors are not touched.
    pub fn dispatch(&mut self, dest: PeerAddr, event: Event) -> (routed: Routed)
        requires
            old(self).wf(),
        ensures
            final(self).wf(),
            routed.created == !old(self).workers().dom().contains(dest),
            routed.first == spec_first(old(self).workers(), dest),
            (final(self).workers()[dest], routed.action) == spec_step(
                spec_worker(old(self).workers(), dest),
                event,
            ),
            final(self).workers() == old(self).workers().insert(
                dest,
                spec_step(spec_worker(old(self).workers(), dest), event).0,
            ),
    {
        let (mut worker, created, first) = match self.sender_workers.remove(&dest) {
            Some(worker) => (worker, false, Action::Idle),
            None => {
                let mut worker = Connection::new();
                let first = worker.step(Event::Start);
                (worker, true, first)
            },
        };
        let action = worker.step(event);
        let ghost stepped = worker@;
        self.sender_workers.insert(dest, worker);
        proof {
            assert(self.workers() =~= old(self).workers().insert(dest, stepped));
        }
        Routed { created, first, action }
    }

    /// Routes a frame for `dest` to its connector.
    pub fn route(&mut self, dest: PeerAddr, frame: Vec<u8>) -> (routed: Routed)
        requires
            old(self).wf(),
        ensures
            final(self).wf(),
            routed.created == !old(self).workers().dom().contains(dest),
            routed.first == spec_first(old(self).workers(), dest),
            (final(self).workers()[dest], routed.action) == spec_step(
                spec_worker(old(self).workers(), dest),
                Event::Frame(frame),
            ),
            final(self).workers() == old(self).workers().insert(
                dest,
                spec_step(spec_worker(old(self).workers(), dest), Event::Frame(frame)).0,
            ),
    {
        self.dispatch(dest, Event::Frame(frame))
    }
}

/// The incoming side: the accepted connections, by remote address, each with
/// the handle `H` through which its driver writes to it.
pub struct Server<H> {
    connections: KeyTable<PeerAddr, H>,
}

impl<H> Server<H> {
    /// The table is well formed.
    pub closed spec fn wf(&self) -> bool {
        self.connections.wf()
    }

    /// The handles by remote address.
    pub closed spec fn view(&self) -> Map<PeerAddr, H> {
        self.connections@
    }

    /// A server without connections.
    pub fn new() -> (server: Self)
        ensures
            server.wf(),
            server@ == Map::<PeerAddr, H>::empty(),
    {
        Server { connections: KeyTable::new() }
    }

    /// Notes the connection accepted from `addr`. An older connection from the
    /// same address gives way and its handle is returned.
    pub fn accept(&mut self, addr: PeerAddr, handle: H) -> (replaced: Option<H>)
        requires
            old(self).wf(),
        ensures
            final(self).wf(),
            final(self)@ == old(self)@.insert(addr, handle),
            replaced == if old(self)@.dom().contains(addr) {
                Some(old(self)@[addr])
            } else {
                None
            },
    {
        self.connections.insert(addr, handle)
    }

    /// The handle of the connection from `addr`, if there is one; without one
    /// a frame for `addr` is dropped.
    pub fn route(&self, addr: &PeerAddr) -> (handle: Option<&H>)
        requires
            self.wf(),
        ensures
            match handle {
                Some(h) => self@.dom().contains(*addr) && *h == self@[*addr],
                None => !self@.dom().contains(*addr),
            },
    {
        self.connections.get(addr)
    }

    /// Forgets the connection from `addr` after a write to it failed.
    pub fn disconnect(&mut self, addr: &PeerAddr) -> (handle: Option<H>)
        requires
            old(self).wf(),
        ensures
            final(self).wf(),
            final(self)@ == old(self)@.remove(*addr),
            handle == if old(self)@.dom().contains(*addr) {
                Some(old(self)@[*addr])
            } else {
                None
            },
    {
        self.connections.remove(addr)
    }
}

} // verus!
