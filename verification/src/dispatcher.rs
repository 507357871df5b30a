//! Identifier assignment for accepted connections.
//!
//! The listener accepts connections in a loop; each one gets the next
//! sequential identifier, starting at 0, never reused and never reset on
//! disconnect. The dispatcher keeps a ghost record of every identifier it
//! has handed out, which is how uniqueness is stated and proved.

use vstd::prelude::*;
use crate::message::ClientId;

verus! {

/// Hands out one identifier per accepted connection.
pub struct Dispatcher {
    pub next_id: ClientId,
    pub assigned: Ghost<Seq<ClientId>>,
}

impl Dispatcher {
    /// Every identifier handed out so far is its own position in the
    /// record: they were assigned 0, 1, 2, … in accept order.
    pub open spec fn wf(self) -> bool {
        &&& self.assigned@.len() == self.next_id
        &&& forall|i: int| 0 <= i < self.assigned@.len() ==> self.assigned@[i] == i
    }

    /// A dispatcher that has accepted nothing yet.
    pub fn new() -> (d: Dispatcher)
        ensures
            d.wf(),
            d.next_id == 0,
            d.assigned@ == Seq::<ClientId>::empty(),
    {
        Dispatcher { next_id: 0, assigned: Ghost(Seq::empty()) }
    }

    /// Assigns the identifier for one accepted connection: the next
    /// sequential value. `None` only when the identifier space is spent,
    /// which no server process reaches in practice.
    pub fn accept(&mut self) -> (r: Option<ClientId>)
        requires
            old(self).wf(),
        ensures
            final(self).wf(),
            old(self).next_id < ClientId::MAX ==> {
                &&& r == Some(old(self).next_id)
                &&& final(self).next_id == old(self).next_id + 1
                &&& final(self).assigned@ == old(self).assigned@.push(old(self).next_id)
            },
            old(self).next_id == ClientId::MAX ==> r is None && *final(self) == *old(self),
    {
        if self.next_id == ClientId::MAX {
            return None;
        }
        let id = self.next_id;
        self.next_id = self.next_id + 1;
        self.assigned = Ghost(self.assigned@.push(id));
        Some(id)
    }
}

/// Identifier uniqueness: any two distinct accepts were assigned distinct
/// identifiers, whatever disconnects came between them.
pub proof fn lemma_ids_distinct(d: Dispatcher, i: int, j: int)
    requires
        d.wf(),
        0 <= i < d.assigned@.len(),
        0 <= j < d.assigned@.len(),
        i != j,
    ensures
        d.assigned@[i] != d.assigned@[j],
{
}

} // verus!
