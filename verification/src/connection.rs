//! Connection registry: hands out monotonically increasing connection ids
//! and tracks the count of currently live connections.
//!
//! The counters are advisory telemetry, attached to forwarded frames for
//! logging; no rendering decision depends on them. The registry is a plain
//! value here; the shell around the library shares one instance between the
//! listener and its workers.

use vstd::prelude::*;

verus! {

/// Metadata snapshot attached to every forwarded frame: the sending
/// connection's id and the number of open connections at snapshot time.
#[derive(Clone, Copy, Debug, PartialEq, Eq, Structural)]
pub struct ConnectionInformation {
    pub client_id: u32,
    pub open_connections: u32,
}

impl ConnectionInformation {
    /// Creates a new snapshot.
    pub fn new(client_id: u32, open_connections: u32) -> (r: Self)
        ensures
            r == (ConnectionInformation { client_id, open_connections }),
    {
        Self { client_id, open_connections }
    }
}

/// One observable registry event: a connection was accepted, or one closed.
#[derive(Clone, Copy, Debug, PartialEq, Eq, Structural)]
pub enum RegistryEvent {
    Accept,
    Close,
}

/// The open-connection count after a sequence of events, starting from
/// zero: each accept raises it by one, each close lowers it by one but
/// never below zero. Being a `nat`, it is non-negative by construction.
pub open spec fn open_after(events: Seq<RegistryEvent>) -> nat
    decreases events.len(),
{
    if events.len() == 0 {
        0
    } else {
        let prev = open_after(events.drop_last());
        match events.last() {
            RegistryEvent::Accept => prev + 1,
            RegistryEvent::Close => if prev > 0 {
                (prev - 1) as nat
            } else {
                0
            },
        }
    }
}

/// How many accepts a sequence of events holds.
pub open spec fn accepts_in(events: Seq<RegistryEvent>) -> nat
    decreases events.len(),
{
    if events.len() == 0 {
        0
    } else {
        accepts_in(events.drop_last()) + if events.last() is Accept {
            1nat
        } else {
            0
        }
    }
}

/// How many closes a sequence of events holds.
pub open spec fn closes_in(events: Seq<RegistryEvent>) -> nat
    decreases events.len(),
{
    if events.len() == 0 {
        0
    } else {
        closes_in(events.drop_last()) + if events.last() is Close {
            1nat
        } else {
            0
        }
    }
}

/// Process-wide connection bookkeeping: the next fresh id and the count of
/// live connections, with a ghost history of every event it has seen.
pub struct Registry {
    next_id: u32,
    open_connections: u32,
    history: Ghost<Seq<RegistryEvent>>,
}

impl Registry {
    /// The events this registry has seen, oldest first.
    pub closed spec fn history(&self) -> Seq<RegistryEvent> {
        self.history@
    }

    /// The id the next accept will hand out.
    pub closed spec fn fresh_id(&self) -> u32 {
        self.next_id
    }

    /// The count of currently live connections.
    pub closed spec fn open_count(&self) -> u32 {
        self.open_connections
    }

    /// The counters agree with the event history: the open count is what
    /// the history folds to, and ids are handed out one per accept.
    pub closed spec fn wf(&self) -> bool {
        self.open_connections as nat == open_after(self.history@)
            && self.next_id as nat == accepts_in(self.history@)
    }

    /// A fresh registry: no connections yet, ids start at zero.
    pub fn new() -> (r: Self)
        ensures
            r.wf(),
            r.history() == Seq::<RegistryEvent>::empty(),
            r.fresh_id() == 0,
            r.open_count() == 0,
    {
        Self { next_id: 0, open_connections: 0, history: Ghost(Seq::empty()) }
    }

    /// Accepts a connection: returns a fresh id and counts the connection
    /// as open. Ids increase by exactly one per accept, so they are
    /// monotonically increasing and never reused.
    pub fn accept(&mut self) -> (id: u32)
        requires
            old(self).wf(),
            old(self).fresh_id() < u32::MAX,
            old(self).open_count() < u32::MAX,
        ensures
            final(self).wf(),
            id == old(self).fresh_id(),
            final(self).fresh_id() == old(self).fresh_id() + 1,
            final(self).open_count() == old(self).open_count() + 1,
            final(self).history() == old(self).history().push(RegistryEvent::Accept),
    {
        let id = self.next_id;
        self.next_id = self.next_id + 1;
        self.open_connections = self.open_connections + 1;
        proof {
            let h = self.history@;
            self.history@ = h.push(RegistryEvent::Accept);
            assert(self.history@.drop_last() =~= h);
        }
        id
    }

    /// Closes a connection: lowers the open count by one, but never drives
    /// it below zero.
    pub fn close(&mut self)
        requires
            old(self).wf(),
        ensures
            final(self).wf(),
            final(self).fresh_id() == old(self).fresh_id(),
            final(self).open_count() == if old(self).open_count() > 0 {
                (old(self).open_count() - 1) as u32
            } else {
                0u32
            },
            final(self).history() == old(self).history().push(RegistryEvent::Close),
    {
        if self.open_connections > 0 {
            self.open_connections = self.open_connections - 1;
        }
        proof {
            let h = self.history@;
            self.history@ = h.push(RegistryEvent::Close);
            assert(self.history@.drop_last() =~= h);
        }
    }

    /// Reads the id the next accept would hand out.
    pub fn next_client_id(&self) -> (n: u32)
        ensures
            n == self.fresh_id(),
    {
        self.next_id
    }

    /// Reads the live-connection counter, for snapshots and logging.
    pub fn open_connections(&self) -> (n: u32)
        ensures
            n == self.open_count(),
    {
        self.open_connections
    }

    /// A snapshot pairing a connection's id with the current open count.
    pub fn snapshot(&self, client_id: u32) -> (r: ConnectionInformation)
        ensures
            r == (ConnectionInformation { client_id, open_connections: self.open_count() }),
    {
        ConnectionInformation::new(client_id, self.open_connections)
    }
}

/// Connection accounting, one step at a time: an accept raises the open
/// count by exactly one, a close lowers it by exactly one unless it is
/// already zero.
pub proof fn lemma_accounting_step(events: Seq<RegistryEvent>)
    ensures
        open_after(events.push(RegistryEvent::Accept)) == open_after(events) + 1,
        open_after(events.push(RegistryEvent::Close)) == if open_after(events) > 0 {
            open_after(events) - 1
        } else {
            0int
        },
{
    assert(events.push(RegistryEvent::Accept).drop_last() =~= events);
    assert(events.push(RegistryEvent::Close).drop_last() =~= events);
}

/// Connection accounting over any sequence of accepts and closes: as long
/// as no prefix closes more connections than it accepted, the open count
/// is exactly the number of accepts minus the number of closes — each
/// accept counted once, each close counted once — and, being a `nat`, it
/// is never negative.
pub proof fn lemma_connection_accounting(events: Seq<RegistryEvent>)
    requires
        forall|i: int|
            0 <= i <= events.len() ==> closes_in(#[trigger] events.subrange(0, i)) <= accepts_in(
                events.subrange(0, i),
            ),
    ensures
        open_after(events) == accepts_in(events) - closes_in(events),
    decreases events.len(),
{
    if events.len() > 0 {
        let prefix = events.drop_last();
        assert forall|i: int| 0 <= i <= prefix.len() implies closes_in(
            #[trigger] prefix.subrange(0, i),
        ) <= accepts_in(prefix.subrange(0, i)) by {
            assert(prefix.subrange(0, i) =~= events.subrange(0, i));
        }
        lemma_connection_accounting(prefix);
        assert(events.subrange(0, events.len() as int) =~= events);
        if events.last() is Close {
            assert(closes_in(events) <= accepts_in(events));
        }
    }
}

} // verus!
