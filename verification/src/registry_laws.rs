//! Laws of the registry: what adding and removing records does to the
//! identities that have a record, to their number and to their being
//! distinct.

use vstd::prelude::*;
use crate::registry::{distinct, identities, occurrences, without, Record};

verus! {

/// How `without` treats the record that was added last.
pub proof fn lemma_without_push<H>(records: Seq<Record<H>>, last: Record<H>, id: Seq<char>)
    ensures
        without(records.push(last), id) == if last.identity@ != id {
            without(records, id).push(last)
        } else {
            without(records, id)
        },
{
    reveal(Seq::filter);
    assert(records.push(last).drop_last() =~= records);
}

/// How `occurrences` counts the record that was added last.
pub proof fn lemma_occurrences_push<H>(records: Seq<Record<H>>, last: Record<H>, id: Seq<char>)
    ensures
        occurrences(records.push(last), id) == occurrences(records, id) + if last.identity@ == id {
            1nat
        } else {
            0nat
        },
{
    reveal(Seq::filter);
    assert(records.push(last).drop_last() =~= records);
}

/// A session has a record exactly when its identity is that of some record.
pub proof fn lemma_identities_contains<H>(records: Seq<Record<H>>, id: Seq<char>)
    ensures
        identities(records).contains(id) <==> exists|i: int|
            0 <= i < records.len() && (#[trigger] records[i]).identity@ == id,
{
    let ids = identities(records);
    if exists|i: int| 0 <= i < records.len() && (#[trigger] records[i]).identity@ == id {
        let i = choose|i: int| 0 <= i < records.len() && (#[trigger] records[i]).identity@ == id;
        assert(ids[i] == id);
    }
}

/// Every record that `without` keeps was there before, and no record of the
/// session that left is kept.
pub proof fn lemma_without_keeps<H>(records: Seq<Record<H>>, id: Seq<char>)
    ensures
        without(records, id).len() <= records.len(),
        forall|k: int|
            0 <= k < without(records, id).len() ==> records.contains(
                #[trigger] without(records, id)[k],
            ) && without(records, id)[k].identity@ != id,
        forall|i: int|
            0 <= i < records.len() && records[i].identity@ != id ==> without(records, id).contains(
                #[trigger] records[i],
            ),
    decreases records.len(),
{
    reveal(Seq::filter);
    if records.len() > 0 {
        let front = records.drop_last();
        let last = records.last();
        lemma_without_keeps(front, id);
        lemma_without_push(front, last, id);
        let kept = without(records, id);
        assert forall|k: int| 0 <= k < kept.len() implies records.contains(#[trigger] kept[k])
            && kept[k].identity@ != id by {
            if k < without(front, id).len() {
                assert(front.contains(without(front, id)[k]));
            } else {
                assert(kept[k] == records[records.len() - 1]);
            }
        }
        assert forall|i: int|
            0 <= i < records.len() && records[i].identity@ != id implies kept.contains(
            #[trigger] records[i],
        ) by {
            if i < front.len() {
                assert(without(front, id).contains(front[i]));
            } else {
                assert(kept[kept.len() - 1] == records[i]);
            }
        }
    }
}

/// Removing a session that has no record changes nothing.
pub proof fn lemma_without_absent<H>(records: Seq<Record<H>>, id: Seq<char>)
    requires
        !identities(records).contains(id),
    ensures
        without(records, id) == records,
    decreases records.len(),
{
    reveal(Seq::filter);
    if records.len() > 0 {
        let front = records.drop_last();
        let last = records.last();
        lemma_identities_contains(records, id);
        lemma_identities_contains(front, id);
        assert forall|i: int| 0 <= i < front.len() implies (#[trigger] front[i]).identity@
            != id by {
            assert(front[i] == records[i]);
        }
        lemma_without_absent(front, id);
        lemma_without_push(front, last, id);
    }
}

/// After a session was removed it has no record; every other session has a
/// record exactly when it had one before.
pub proof fn lemma_without_membership<H>(records: Seq<Record<H>>, id: Seq<char>, other: Seq<char>)
    ensures
        !identities(without(records, id)).contains(id),
        other != id ==> (identities(without(records, id)).contains(other) <==> identities(
            records,
        ).contains(other)),
{
    let kept = without(records, id);
    lemma_without_keeps(records, id);
    lemma_identities_contains(kept, id);
    lemma_identities_contains(kept, other);
    lemma_identities_contains(records, other);
    if identities(kept).contains(other) {
        let k = choose|k: int| 0 <= k < kept.len() && (#[trigger] kept[k]).identity@ == other;
        assert(records.contains(kept[k]));
    }
    if other != id && identities(records).contains(other) {
        let i = choose|i: int|
            0 <= i < records.len() && (#[trigger] records[i]).identity@ == other;
        assert(kept.contains(records[i]));
    }
}

/// A session has a record after another record was added exactly when it
/// had one before or the new record is its own.
pub proof fn lemma_push_membership<H>(records: Seq<Record<H>>, added: Record<H>, id: Seq<char>)
    ensures
        identities(records.push(added)).contains(id) <==> added.identity@ == id || identities(
            records,
        ).contains(id),
{
    let grown = records.push(added);
    lemma_identities_contains(grown, id);
    lemma_identities_contains(records, id);
    if identities(grown).contains(id) {
        let i = choose|i: int| 0 <= i < grown.len() && (#[trigger] grown[i]).identity@ == id;
        if i < records.len() {
            assert(records[i].identity@ == id);
        }
    }
    if added.identity@ == id {
        assert(grown[grown.len() - 1].identity@ == id);
    }
    if identities(records).contains(id) {
        let i = choose|i: int| 0 <= i < records.len() && (#[trigger] records[i]).identity@ == id;
        assert(grown[i].identity@ == id);
    }
}

/// The records that stay and the records that leave make up the whole.
pub proof fn lemma_without_len<H>(records: Seq<Record<H>>, id: Seq<char>)
    ensures
        without(records, id).len() + occurrences(records, id) == records.len(),
    decreases records.len(),
{
    reveal(Seq::filter);
    if records.len() > 0 {
        let front = records.drop_last();
        let last = records.last();
        lemma_without_len(front, id);
        lemma_without_push(front, last, id);
        lemma_occurrences_push(front, last, id);
    }
}

/// Removing one session leaves every other session as many records as it
/// had, and the session itself none.
pub proof fn lemma_without_occurrences<H>(records: Seq<Record<H>>, id: Seq<char>, other: Seq<char>)
    ensures
        occurrences(without(records, id), other) == if other == id {
            0nat
        } else {
            occurrences(records, other)
        },
    decreases records.len(),
{
    reveal(Seq::filter);
    if records.len() > 0 {
        let front = records.drop_last();
        let last = records.last();
        lemma_without_occurrences(front, id, other);
        lemma_without_push(front, last, id);
        lemma_occurrences_push(front, last, other);
        if last.identity@ != id {
            lemma_occurrences_push(without(front, id), last, other);
        }
    }
}

/// Where no identity has two records, a session has one record or none.
pub proof fn lemma_distinct_occurrences<H>(records: Seq<Record<H>>, id: Seq<char>)
    requires
        distinct(records),
    ensures
        occurrences(records, id) == if identities(records).contains(id) {
            1nat
        } else {
            0nat
        },
    decreases records.len(),
{
    reveal(Seq::filter);
    if records.len() > 0 {
        let front = records.drop_last();
        let last = records.last();
        assert(records =~= front.push(last));
        let ids = identities(records);
        assert forall|i: int, j: int|
            0 <= i < front.len() && 0 <= j < front.len() && i != j implies identities(front)[i]
            != identities(front)[j] by {
            assert(ids[i] != ids[j]);
        }
        lemma_distinct_occurrences(front, id);
        lemma_occurrences_push(front, last, id);
        lemma_push_membership(front, last, id);
        if last.identity@ == id && identities(front).contains(id) {
            let i = choose|i: int| 0 <= i < front.len() && identities(front)[i] == id;
            assert(ids[i] == ids[records.len() - 1]);
        }
    }
}

/// Removing a session twice is removing it once.
pub proof fn lemma_without_twice<H>(records: Seq<Record<H>>, id: Seq<char>)
    ensures
        without(without(records, id), id) == without(records, id),
{
    lemma_without_membership(records, id, id);
    lemma_without_absent(without(records, id), id);
}

/// A session that registers where it had no record, and then leaves, leaves
/// the records as they were.
pub proof fn lemma_push_then_without<H>(records: Seq<Record<H>>, added: Record<H>)
    requires
        !identities(records).contains(added.identity@),
    ensures
        without(records.push(added), added.identity@) == records,
{
    lemma_without_push(records, added, added.identity@);
    lemma_without_absent(records, added.identity@);
}

/// Adding a record for a session that had none keeps the identities
/// distinct.
pub proof fn lemma_push_keeps_distinct<H>(records: Seq<Record<H>>, added: Record<H>)
    requires
        distinct(records),
        !identities(records).contains(added.identity@),
    ensures
        distinct(records.push(added)),
{
    let ids = identities(records);
    let grown = identities(records.push(added));
    assert forall|i: int, j: int| 0 <= i < grown.len() && 0 <= j < grown.len() && i != j implies grown[i]
        != grown[j] by {
        if i < ids.len() && j < ids.len() {
            assert(ids[i] != ids[j]);
        } else if i < ids.len() {
            assert(ids.contains(ids[i]));
        } else {
            assert(ids.contains(ids[j]));
        }
    }
}

/// Removing a session keeps the identities distinct.
pub proof fn lemma_without_keeps_distinct<H>(records: Seq<Record<H>>, id: Seq<char>)
    requires
        distinct(records),
    ensures
        distinct(without(records, id)),
    decreases records.len(),
{
    reveal(Seq::filter);
    if records.len() > 0 {
        let front = records.drop_last();
        let last = records.last();
        let ids = identities(records);
        assert forall|i: int, j: int|
            0 <= i < front.len() && 0 <= j < front.len() && i != j implies identities(front)[i]
            != identities(front)[j] by {
            assert(ids[i] != ids[j]);
        }
        lemma_without_keeps_distinct(front, id);
        lemma_without_push(front, last, id);
        if last.identity@ != id {
            lemma_without_membership(front, id, last.identity@);
            if identities(front).contains(last.identity@) {
                let i = choose|i: int|
                    0 <= i < front.len() && identities(front)[i] == last.identity@;
                assert(ids[i] == ids[records.len() - 1]);
            }
            lemma_push_keeps_distinct(without(front, id), last);
        }
    }
}

} // verus!
