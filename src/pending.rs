//! Bot replies waiting to be deleted together with the message that caused them.
use vstd::prelude::*;
use std::collections::HashMap;

verus! {

broadcast use vstd::std_specs::hash::group_hash_axioms;

/// The map after taking the entry of `id`, and the entry taken.
pub open spec fn taken<H>(m: Map<u64, H>, id: u64) -> (Map<u64, H>, Option<H>) {
    if m.contains_key(id) {
        (m.remove(id), Some(m[id]))
    } else {
        (m, None)
    }
}

/// Taking an entry twice finds nothing the second time and leaves the map as
/// the first take left it.
pub proof fn take_twice_is_noop<H>(m: Map<u64, H>, id: u64)
    ensures
        taken(taken(m, id).0, id).1 is None,
        taken(taken(m, id).0, id).0 == taken(m, id).0,
{
}

/// Correlation from a user message id to the bot reply it triggered.
pub struct PendingDeletes<H> {
    entries: HashMap<u64, H>,
}

impl<H> View for PendingDeletes<H> {
    type V = Map<u64, H>;

    closed spec fn view(&self) -> Map<u64, H> {
        self.entries@
    }
}

impl<H> PendingDeletes<H> {
    pub fn new() -> (r: PendingDeletes<H>)
        ensures
            r@ == Map::<u64, H>::empty(),
    {
        PendingDeletes { entries: HashMap::new() }
    }

    /// Remembers that `reply` answers the message `trigger_id`, replacing any
    /// earlier reply recorded for it.
    pub fn record(&mut self, trigger_id: u64, reply: H)
        ensures
            final(self)@ == old(self)@.insert(trigger_id, reply),
    {
        self.entries.insert(trigger_id, reply);
    }

    pub fn contains(&self, trigger_id: u64) -> (r: bool)
        ensures
            r == self@.contains_key(trigger_id),
    {
        self.entries.contains_key(&trigger_id)
    }

    pub fn len(&self) -> (r: usize)
        ensures
            r == self@.len(),
    {
        self.entries.len()
    }

    /// The message `trigger_id` was deleted: removes and hands back the reply
    /// to delete with it, if one was recorded.
    pub fn message_delete(&mut self, trigger_id: u64) -> (r: Option<H>)
        ensures
            (final(self)@, r) == taken(old(self)@, trigger_id),
    {
        self.entries.remove(&trigger_id)
    }
}

} // verus!
