//! The registry of live sessions: an ordered collection of records, one per
//! session that has registered and not yet unregistered.

use vstd::prelude::*;
use crate::identity::Identity;
use crate::registry_laws::{
    lemma_identities_contains, lemma_push_keeps_distinct, lemma_without_absent,
    lemma_without_keeps_distinct, lemma_without_membership, lemma_without_push,
};

verus! {

/// What the registry keeps of one live session: who it is, and the handle on
/// which lines for it are written.
pub struct Record<H> {
    pub identity: Identity,
    pub handle: H,
}

/// The identities of `records`, in their order.
pub open spec fn identities<H>(records: Seq<Record<H>>) -> Seq<Seq<char>> {
    records.map_values(|r: Record<H>| r.identity@)
}

/// `records` without every record of the session `id`, the others in their
/// order.
pub open spec fn without<H>(records: Seq<Record<H>>, id: Seq<char>) -> Seq<Record<H>> {
    records.filter(|r: Record<H>| r.identity@ != id)
}

/// How many of `records` belong to the session `id`.
pub open spec fn occurrences<H>(records: Seq<Record<H>>, id: Seq<char>) -> nat {
    records.filter(|r: Record<H>| r.identity@ == id).len()
}

/// No identity has two records.
pub open spec fn distinct<H>(records: Seq<Record<H>>) -> bool {
    identities(records).no_duplicates()
}

/// The live sessions, in the order in which they registered.
pub struct Registry<H> {
    records: Vec<Record<H>>,
}

impl<H> View for Registry<H> {
    type V = Seq<Record<H>>;

    closed spec fn view(&self) -> Seq<Record<H>> {
        self.records@
    }
}

impl<H> Registry<H> {
    /// Some record belongs to the session `id`.
    pub open spec fn holds(&self, id: Seq<char>) -> bool {
        identities(self@).contains(id)
    }

    /// A registry without sessions.
    pub fn new() -> (registry: Registry<H>)
        ensures
            registry@ == Seq::<Record<H>>::empty(),
    {
        Registry { records: Vec::new() }
    }

    /// The number of records.
    pub fn len(&self) -> (n: usize)
        ensures
            n == self@.len(),
    {
        self.records.len()
    }

    /// Whether no session is registered.
    pub fn is_empty(&self) -> (empty: bool)
        ensures
            empty == (self@.len() == 0),
    {
        self.records.len() == 0
    }

    /// Appends the record of a session. Nothing else changes, and no record
    /// is looked at: an identity that is already there gets a second record.
    pub fn register(&mut self, identity: Identity, handle: H)
        ensures
            final(self)@ == old(self)@.push(Record { identity, handle }),
            final(self).holds(identity@),
            distinct(old(self)@) && !old(self).holds(identity@) ==> distinct(final(self)@),
    {
        proof {
            if distinct(self@) && !self.holds(identity@) {
                lemma_push_keeps_distinct(self@, Record { identity, handle });
            }
        }
        self.records.push(Record { identity, handle });
        proof {
            let ids = identities(self@);
            assert(ids[ids.len() - 1] == identity@);
        }
    }

    /// Tells whether the session `identity` has a record.
    pub fn contains(&self, identity: &Identity) -> (found: bool)
        ensures
            found == self.holds(identity@),
    {
        let mut i: usize = 0;
        while i < self.records.len()
            invariant
                i <= self.records@.len(),
                forall|k: int| 0 <= k < i ==> (#[trigger] self.records@[k]).identity@ != identity@,
            decreases self.records@.len() - i,
        {
            if self.records[i].identity == *identity {
                proof {
                    lemma_identities_contains(self@, identity@);
                }
                return true;
            }
            i = i + 1;
        }
        proof {
            lemma_identities_contains(self@, identity@);
        }
        false
    }

    /// All current records, for the time of one relay. While the borrow
    /// lasts no session can register or leave.
    pub fn snapshot_for_broadcast(&self) -> (records: &[Record<H>])
        ensures
            records@ == self@,
    {
        self.records.as_slice()
    }

    /// Removes every record of the session `identity`, and keeps the others
    /// in their order. Where the session has no record, nothing changes.
    pub fn unregister(&mut self, identity: &Identity)
        ensures
            final(self)@ == without(old(self)@, identity@),
            !final(self).holds(identity@),
            !old(self).holds(identity@) ==> final(self)@ == old(self)@,
            distinct(old(self)@) ==> distinct(final(self)@),
    {
        proof {
            lemma_without_membership(old(self)@, identity@, identity@);
            if !old(self).holds(identity@) {
                lemma_without_absent(old(self)@, identity@);
            }
            if distinct(old(self)@) {
                lemma_without_keeps_distinct(old(self)@, identity@);
            }
        }
        let mut i: usize = 0;
        let ghost mut seen: int = 0;
        while i < self.records.len()
            invariant
                0 <= seen <= old(self)@.len(),
                i <= self.records@.len(),
                self.records@.len() - i == old(self)@.len() - seen,
                self.records@.take(i as int) == without(old(self)@.take(seen), identity@),
                self.records@.skip(i as int) == old(self)@.skip(seen),
            decreases self.records@.len() - i,
        {
            let ghost before = self.records@;
            proof {
                assert(before[i as int] == before.skip(i as int)[0]);
                assert(old(self)@.skip(seen).skip(1) =~= old(self)@.skip(seen + 1));
                assert(old(self)@.take(seen + 1) =~= old(self)@.take(seen).push(old(self)@[seen]));
                lemma_without_push(old(self)@.take(seen), old(self)@[seen], identity@);
            }
            if self.records[i].identity == *identity {
                self.records.remove(i);
            } else {
                i = i + 1;
            }
            proof {
                seen = seen + 1;
            }
        }
        proof {
            assert(self.records@.take(i as int) =~= self.records@);
            assert(old(self)@.take(seen) =~= old(self)@);
        }
    }
}

} // verus!
