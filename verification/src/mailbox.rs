//! Frame mailbox: the hand-off point between many ingestion workers and
//! the single render loop.
//!
//! Not a growing queue: a single overwritable slot holding at most the most
//! recently forwarded message. Producers overwrite the slot; the consumer
//! reads and clears it. If several messages are written between two
//! consumer reads, only the last survives — the latest-wins policy — and
//! earlier ones are discarded without blocking anybody.

use vstd::prelude::*;

use crate::connection::ConnectionInformation;
use crate::data::Data;

verus! {

/// The unit transferred from an ingestion worker to the render loop: a
/// decoded frame together with the sender's registry snapshot.
#[derive(Clone, Debug, PartialEq)]
pub struct ChannelMessage {
    pub connection: ConnectionInformation,
    pub data: Data,
}

/// The slot after a producer writes `msg`: whatever was there is
/// overwritten.
pub open spec fn slot_after_put(
    slot: Option<ChannelMessage>,
    msg: ChannelMessage,
) -> Option<ChannelMessage> {
    Some(msg)
}

/// What the consumer's non-blocking fetch yields: the slot's content as it
/// stands.
pub open spec fn taken_from(slot: Option<ChannelMessage>) -> Option<ChannelMessage> {
    slot
}

/// The slot after the consumer's fetch: cleared.
pub open spec fn slot_after_take(slot: Option<ChannelMessage>) -> Option<ChannelMessage> {
    None
}

/// The single-slot mailbox. The shell shares one instance, behind its own
/// synchronization, between all producers and the one consumer; each
/// operation here is a short non-blocking step.
pub struct Mailbox {
    slot: Option<ChannelMessage>,
}

impl Mailbox {
    /// What the mailbox currently holds: the most recently written
    /// message, if any arrived since the last take.
    pub closed spec fn contents(&self) -> Option<ChannelMessage> {
        self.slot
    }

    /// An empty mailbox: nothing has been forwarded yet.
    pub fn new() -> (r: Self)
        ensures
            r.contents() is None,
    {
        Self { slot: None }
    }

    /// A producer forwards a message, overwriting whatever the slot held.
    pub fn put(&mut self, msg: ChannelMessage)
        ensures
            final(self).contents() == slot_after_put(old(self).contents(), msg),
    {
        self.slot = Some(msg);
    }

    /// The consumer's non-blocking fetch: yields the pending message, if
    /// any, and clears the slot.
    pub fn take(&mut self) -> (r: Option<ChannelMessage>)
        ensures
            r == taken_from(old(self).contents()),
            final(self).contents() == slot_after_take(old(self).contents()),
    {
        let mut r: Option<ChannelMessage> = None;
        core::mem::swap(&mut r, &mut self.slot);
        r
    }
}

/// Latest-wins: if `first` and then `second` are written to the mailbox
/// before the consumer's next fetch, that fetch yields `second` alone;
/// `first` is discarded without ever being observed.
pub proof fn lemma_latest_wins(
    slot: Option<ChannelMessage>,
    first: ChannelMessage,
    second: ChannelMessage,
)
    ensures
        taken_from(slot_after_put(slot_after_put(slot, first), second)) == Some(second),
{
}

} // verus!
