//! Buffer hand-off ledger: the ownership-transfer contract for payloads
//! that cross the host boundary. Every buffer handed out gets a fresh
//! ticket and must be released through the ledger exactly once; a second
//! release of the same ticket finds nothing and changes nothing.

use vstd::prelude::*;

verus! {

/// The ledger of buffers whose ownership was transferred to the host: each
/// hand-off records the bytes under a fresh ticket; each ticket can be
/// redeemed exactly once.
pub struct BufferLedger {
    slots: Vec<Option<Vec<u8>>>,
}

impl View for BufferLedger {
    type V = Seq<Option<Seq<u8>>>;

    /// For each ticket ever issued, in order: the bytes still owed, or
    /// nothing once released.
    closed spec fn view(&self) -> Seq<Option<Seq<u8>>> {
        self.slots@.map_values(
            |s: Option<Vec<u8>>|
                match s {
                    Option::Some(b) => Option::Some(b@),
                    Option::None => Option::None,
                },
        )
    }
}

impl BufferLedger {
    /// A ledger with no tickets issued.
    pub fn new() -> (l: BufferLedger)
        ensures
            l@ == Seq::<Option<Seq<u8>>>::empty(),
    {
        let l = BufferLedger { slots: Vec::new() };
        proof {
            assert(l@ =~= Seq::<Option<Seq<u8>>>::empty());
        }
        l
    }

    /// Transfer a buffer to the host: the bytes are recorded and the fresh
    /// ticket under which they must be released is returned.
    pub fn hand_out(&mut self, data: Vec<u8>) -> (id: usize)
        ensures
            id == old(self)@.len(),
            final(self)@ == old(self)@.push(Option::Some(data@)),
    {
        let id = self.slots.len();
        let ghost d = data@;
        self.slots.push(Option::Some(data));
        proof {
            assert(self@ =~= old(self)@.push(Option::Some(d)));
        }
        id
    }

    /// Redeem a ticket: the first release returns the recorded bytes and
    /// marks the ticket dead; an unknown or already-released ticket returns
    /// nothing and leaves the ledger unchanged, so no buffer can ever be
    /// redeemed twice.
    pub fn release(&mut self, id: usize) -> (r: Option<Vec<u8>>)
        ensures
            (id < old(self)@.len() && old(self)@[id as int] is Some) ==> (r
                matches Option::Some(b) && Option::Some(b@) == old(self)@[id as int] && final(self)@ == old(self)@.update(id as int, Option::None)),
            !(id < old(self)@.len() && old(self)@[id as int] is Some) ==> r is None && final(self)@ == old(self)@,
    {
        if id < self.slots.len() {
            let entry = self.slots.remove(id);
            self.slots.insert(id, Option::None);
            proof {
                assert(self@ =~= old(self)@.update(id as int, Option::None));
                if old(self)@[id as int] is None {
                    assert(self@ =~= old(self)@);
                }
            }
            entry
        } else {
            Option::None
        }
    }
}

/// Law: a released ticket stays dead — neither handing out further buffers
/// nor releasing any ticket ever revives it, so a buffer fetched once and
/// released once can never be obtained from the ledger again.
pub proof fn lemma_ticket_stays_dead(
    s: Seq<Option<Seq<u8>>>,
    id: int,
    id2: int,
    b: Seq<u8>,
)
    requires
        0 <= id < s.len(),
        s[id] is None,
        0 <= id2 < s.len(),
    ensures
        s.push(Option::Some(b))[id] is None,
        s.update(id2, Option::None)[id] is None,
{
}

} // verus!
