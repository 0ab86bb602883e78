//! Live transport connections: the registry used for introspection, and
//! the phases a connection goes through.

use vstd::prelude::*;
use crate::protocol::opt_text;

verus! {

/// One live connection.
#[derive(Debug, Clone)]
pub struct ConnectionInfo {
    /// Process-local id, from a counter.
    pub id: u64,
    /// The peer's address, when known.
    pub remote: Option<String>,
    /// Monotonic seconds at which the connection was accepted.
    pub connected_at: u64,
}

pub struct ConnectionView {
    pub id: u64,
    pub remote: Option<Seq<char>>,
    pub connected_at: u64,
}

impl View for ConnectionInfo {
    type V = ConnectionView;

    open spec fn view(&self) -> ConnectionView {
        ConnectionView { id: self.id, remote: opt_text(self.remote), connected_at: self.connected_at }
    }
}

fn copy_info(c: &ConnectionInfo) -> (r: ConnectionInfo)
    ensures
        r@ == c@,
{
    ConnectionInfo {
        id: c.id,
        remote: match &c.remote {
            Some(s) => Some(s.clone()),
            None => None,
        },
        connected_at: c.connected_at,
    }
}

/// The live connections, in the order they were registered.
pub struct ConnectionRegistry {
    entries: Vec<ConnectionInfo>,
    next_id: u64,
}

impl View for ConnectionRegistry {
    type V = Seq<ConnectionView>;

    closed spec fn view(&self) -> Seq<ConnectionView> {
        self.entries@.map_values(|c: ConnectionInfo| c@)
    }
}

/// Whether some connection in `cs` has id `id`.
pub open spec fn has_id(cs: Seq<ConnectionView>, id: u64) -> bool {
    exists|i: int| 0 <= i < cs.len() && cs[i].id == id
}

impl ConnectionRegistry {
    /// The id the next registration receives.
    pub closed spec fn next(&self) -> u64 {
        self.next_id
    }

    /// Ids are increasing in registration order and below the next id.
    pub closed spec fn wf(&self) -> bool {
        &&& self.next_id >= 1
        &&& forall|i: int, j: int| 0 <= i < j < self@.len() ==> self@[i].id < self@[j].id
        &&& forall|i: int| 0 <= i < self@.len() ==> #[trigger] self@[i].id < self.next_id
    }

    pub fn new() -> (r: Self)
        ensures
            r.wf(),
            r@ == Seq::<ConnectionView>::empty(),
            r.next() == 1,
    {
        ConnectionRegistry { entries: Vec::new(), next_id: 1 }
    }

    /// Registers a connection accepted at `now` and returns its id, which no
    /// live or earlier connection had; `None` once the ids are used up.
    pub fn register(&mut self, remote: Option<String>, now: u64) -> (r: Option<u64>)
        requires
            old(self).wf(),
        ensures
            final(self).wf(),
            old(self).next() == u64::MAX ==> r is None && final(self)@ == old(self)@
                && final(self).next() == old(self).next(),
            old(self).next() < u64::MAX ==> r == Some(old(self).next()) && final(self).next()
                == old(self).next() + 1 && final(self)@ == old(self)@.push(
                ConnectionView { id: old(self).next(), remote: opt_text(remote), connected_at: now },
            ),
            r matches Some(id) ==> !has_id(old(self)@, id),
    {
        if self.next_id == u64::MAX {
            return None;
        }
        let id = self.next_id;
        let ghost before = self@;
        self.entries.push(ConnectionInfo { id, remote, connected_at: now });
        self.next_id = id + 1;
        proof {
            assert(self@ =~= before.push(self.entries@[before.len() as int]@));
            assert forall|i: int| 0 <= i < self@.len() implies #[trigger] self@[i].id < self.next_id by {
                if i < before.len() {
                    assert(self@[i] == before[i]);
                }
            }
            assert forall|i: int, j: int| 0 <= i < j < self@.len() implies self@[i].id
                < self@[j].id by {
                assert(self@[i] == before[i]);
                if j < before.len() {
                    assert(self@[j] == before[j]);
                }
            }
        }
        Some(id)
    }

    /// Removes the connection with id `id`; false when there is none.
    pub fn remove(&mut self, id: u64) -> (r: bool)
        requires
            old(self).wf(),
        ensures
            final(self).wf(),
            final(self).next() == old(self).next(),
            r == has_id(old(self)@, id),
            r ==> exists|i: int|
                0 <= i < old(self)@.len() && old(self)@[i].id == id && final(self)@ == old(
                    self,
                )@.remove(i),
            !r ==> final(self)@ == old(self)@,
            !has_id(final(self)@, id),
    {
        let ghost before = self@;
        let mut i: usize = 0;
        while i < self.entries.len()
            invariant
                self@ == before,
                before == old(self)@,
                self.wf(),
                self.next_id == old(self).next_id,
                i <= before.len(),
                forall|j: int| 0 <= j < i ==> before[j].id != id,
            decreases before.len() - i,
        {
            if self.entries[i].id == id {
                assert(before[i as int] == self.entries@[i as int]@);
                assert(before[i as int].id == id);
                self.entries.remove(i);
                proof {
                    assert(self@ =~= before.remove(i as int));
                    assert forall|a: int, b: int| 0 <= a < b < self@.len() implies self@[a].id
                        < self@[b].id by {
                        let ta = if a < i { a } else { a + 1 };
                        let tb = if b < i { b } else { b + 1 };
                        assert(self@[a] == before[ta]);
                        assert(self@[b] == before[tb]);
                    }
                    assert forall|a: int| 0 <= a < self@.len() implies #[trigger] self@[a].id
                        < self.next_id by {
                        let ta = if a < i { a } else { a + 1 };
                        assert(self@[a] == before[ta]);
                    }
                    assert forall|a: int| 0 <= a < self@.len() implies self@[a].id != id by {
                        let ta = if a < i { a } else { a + 1 };
                        assert(self@[a] == before[ta]);
                        assert(before[ta].id != before[i as int].id);
                    }
                }
                return true;
            }
            i = i + 1;
        }
        false
    }

    /// Number of live connections.
    pub fn count(&self) -> (r: usize)
        ensures
            r == self@.len(),
    {
        self.entries.len()
    }

    /// Copies of the live connections, in registration order.
    pub fn list(&self) -> (r: Vec<ConnectionInfo>)
        ensures
            r@.map_values(|c: ConnectionInfo| c@) == self@,
    {
        let mut out: Vec<ConnectionInfo> = Vec::new();
        let mut i: usize = 0;
        while i < self.entries.len()
            invariant
                i <= self@.len(),
                out@.map_values(|c: ConnectionInfo| c@) == self@.subrange(0, i as int),
            decreases self@.len() - i,
        {
            let ghost prev = out@;
            let c = copy_info(&self.entries[i]);
            out.push(c);
            assert(self@[i as int] == self.entries@[i as int]@);
            assert(out@.map_values(|c: ConnectionInfo| c@) =~= prev.map_values(
                |c: ConnectionInfo| c@,
            ).push(self@[i as int]));
            i = i + 1;
            assert(out@.map_values(|c: ConnectionInfo| c@) =~= self@.subrange(0, i as int));
        }
        assert(self@.subrange(0, i as int) =~= self@);
        out
    }
}

/// The phases of a connection.
#[derive(Debug, Clone, Copy, PartialEq, Eq, Structural)]
pub enum ConnPhase {
    /// Waiting for the peer's first bidirectional stream.
    Accepting,
    /// The control stream is open; the connection is not registered yet.
    ControlEstablished,
    /// Registered and serving.
    Active,
    /// Torn down.
    Closed,
}

/// What happened to a connection.
#[derive(Debug, Clone, Copy, PartialEq, Eq, Structural)]
pub enum ConnEvent {
    /// The peer opened its first bidirectional stream.
    ControlOpened,
    /// The control stream could not be established.
    ControlFailed,
    /// The connection was entered in the registry.
    Registered,
    /// The peer opened a further bidirectional stream.
    StreamOpened,
    /// The control stream ended.
    ControlEnded,
}

/// What the connection task does.
#[derive(Debug, Clone, Copy, PartialEq, Eq, Structural)]
pub enum ConnAction {
    /// Enter the connection in the registry.
    Register,
    /// Start the control-stream task and the loop accepting further streams.
    Serve,
    /// Start an upload task for the new stream.
    SpawnUpload,
    /// Remove the connection from the registry.
    Deregister,
    /// Drop the connection; it was never registered.
    Abort,
    /// Nothing to do.
    Ignore,
}

/// The next phase and action of a connection.
pub open spec fn conn_transition(p: ConnPhase, e: ConnEvent) -> (ConnPhase, ConnAction) {
    match (p, e) {
        (ConnPhase::Accepting, ConnEvent::ControlOpened) => (
            ConnPhase::ControlEstablished,
            ConnAction::Register,
        ),
        (ConnPhase::Accepting, ConnEvent::ControlFailed) => (ConnPhase::Closed, ConnAction::Abort),
        (ConnPhase::Accepting, ConnEvent::ControlEnded) => (ConnPhase::Closed, ConnAction::Abort),
        (ConnPhase::ControlEstablished, ConnEvent::Registered) => (
            ConnPhase::Active,
            ConnAction::Serve,
        ),
        (ConnPhase::ControlEstablished, ConnEvent::ControlEnded) => (
            ConnPhase::Closed,
            ConnAction::Deregister,
        ),
        (ConnPhase::Active, ConnEvent::StreamOpened) => (ConnPhase::Active, ConnAction::SpawnUpload),
        (ConnPhase::Active, ConnEvent::ControlEnded) => (ConnPhase::Closed, ConnAction::Deregister),
        _ => (p, ConnAction::Ignore),
    }
}

/// Advances a connection by one event.
pub fn connection_step(p: ConnPhase, e: ConnEvent) -> (r: (ConnPhase, ConnAction))
    ensures
        r == conn_transition(p, e),
{
    match (p, e) {
        (ConnPhase::Accepting, ConnEvent::ControlOpened) => (
            ConnPhase::ControlEstablished,
            ConnAction::Register,
        ),
        (ConnPhase::Accepting, ConnEvent::ControlFailed) => (ConnPhase::Closed, ConnAction::Abort),
        (ConnPhase::Accepting, ConnEvent::ControlEnded) => (ConnPhase::Closed, ConnAction::Abort),
        (ConnPhase::ControlEstablished, ConnEvent::Registered) => (
            ConnPhase::Active,
            ConnAction::Serve,
        ),
        (ConnPhase::ControlEstablished, ConnEvent::ControlEnded) => (
            ConnPhase::Closed,
            ConnAction::Deregister,
        ),
        (ConnPhase::Active, ConnEvent::StreamOpened) => (ConnPhase::Active, ConnAction::SpawnUpload),
        (ConnPhase::Active, ConnEvent::ControlEnded) => (ConnPhase::Closed, ConnAction::Deregister),
        _ => (p, ConnAction::Ignore),
    }
}

} // verus!
