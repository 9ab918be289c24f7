//! The broadcaster: one sender's line goes to every other live session.

use vstd::prelude::*;
use crate::identity::Identity;
use crate::registry::{distinct, identities, occurrences, without, Record};
use crate::registry_laws::{
    lemma_distinct_occurrences, lemma_without_keeps, lemma_without_len, lemma_without_occurrences,
    lemma_without_push,
};
use crate::text::{format_relay_line, relay_line};

verus! {

/// One copy of a relayed line, and the record of the session it is for.
pub struct Delivery<'a, H> {
    pub to: &'a Record<H>,
    pub line: String,
}

/// The records that `deliveries` are for, in their order.
pub open spec fn recipients<'a, H>(deliveries: Seq<Delivery<'a, H>>) -> Seq<Record<H>> {
    deliveries.map_values(|d: Delivery<'a, H>| *d.to)
}

/// Fan-out among sessions with distinct identities: a line from one of the
/// `records.len()` sessions goes to the `records.len() - 1` others, once to
/// each, and never to the sender or to a session that has no record.
pub proof fn lemma_fan_out_reaches_each_other_once<H>(records: Seq<Record<H>>, from: Seq<char>)
    requires
        distinct(records),
        identities(records).contains(from),
    ensures
        without(records, from).len() == records.len() - 1,
        forall|id: Seq<char>| #[trigger]
            occurrences(without(records, from), id) == if id != from && identities(records).contains(
                id,
            ) {
                1nat
            } else {
                0nat
            },
{
    lemma_without_len(records, from);
    lemma_distinct_occurrences(records, from);
    assert forall|id: Seq<char>| #[trigger]
        occurrences(without(records, from), id) == if id != from && identities(records).contains(id) {
            1nat
        } else {
            0nat
        } by {
        lemma_without_occurrences(records, from, id);
        lemma_distinct_occurrences(records, id);
    }
}

/// Fan-out whatever the records are: every other session gets as many copies
/// as it has records, the sender none.
pub proof fn lemma_fan_out_copies<H>(records: Seq<Record<H>>, from: Seq<char>, id: Seq<char>)
    ensures
        occurrences(without(records, from), id) == if id == from {
            0nat
        } else {
            occurrences(records, id)
        },
        without(records, from).len() == records.len() - occurrences(records, from),
{
    lemma_without_occurrences(records, from, id);
    lemma_without_len(records, from);
}

/// Plans the fan-out of `text`, sent by `from`, over `records`: one delivery
/// for each record of another session, in the order of the records, and none
/// for the sender. Every delivery carries the same line.
pub fn relay<'a, H>(records: &'a [Record<H>], from: &Identity, text: &str) -> (out: Vec<
    Delivery<'a, H>,
>)
    ensures
        recipients(out@) == without(records@, from@),
        forall|k: int| 0 <= k < out@.len() ==> (#[trigger] out@[k]).line@ == relay_line(from@, text@),
        forall|k: int| 0 <= k < out@.len() ==> (#[trigger] out@[k]).to.identity@ != from@,
{
    proof {
        lemma_without_keeps(records@, from@);
    }
    let line = format_relay_line(from.label(), text);
    let mut out: Vec<Delivery<'a, H>> = Vec::new();
    let mut i: usize = 0;
    proof {
        reveal(Seq::filter);
    }
    while i < records.len()
        invariant
            i <= records@.len(),
            line@ == relay_line(from@, text@),
            recipients(out@) == without(records@.take(i as int), from@),
            forall|k: int| 0 <= k < out@.len() ==> (#[trigger] out@[k]).line@ == line@,
        decreases records@.len() - i,
    {
        proof {
            assert(records@.take(i + 1) =~= records@.take(i as int).push(records@[i as int]));
            lemma_without_push(records@.take(i as int), records@[i as int], from@);
        }
        let record = &records[i];
        if record.identity != *from {
            out.push(Delivery { to: record, line: line.clone() });
        }
        i = i + 1;
    }
    proof {
        assert(records@.take(i as int) =~= records@);
        assert forall|k: int| 0 <= k < out@.len() implies (#[trigger] out@[k]).to.identity@
            != from@ by {
            assert(*out@[k].to == recipients(out@)[k]);
        }
    }
    out
}

/// Carries out `deliveries` in their order: `write` is called on each, and
/// tells whether the line went out. A write that fails is noted and stops
/// nothing: every delivery is attempted, whatever became of the others.
pub fn deliver<'a, H, W: Fn(&Delivery<'a, H>) -> bool>(
    deliveries: &Vec<Delivery<'a, H>>,
    write: W,
) -> (outcomes: Vec<bool>)
    requires
        forall|k: int| 0 <= k < deliveries@.len() ==> call_requires(write, (&deliveries@[k],)),
    ensures
        outcomes@.len() == deliveries@.len(),
        forall|k: int|
            0 <= k < deliveries@.len() ==> call_ensures(
                write,
                (&deliveries@[k],),
                #[trigger] outcomes@[k],
            ),
{
    let mut outcomes: Vec<bool> = Vec::new();
    let mut k: usize = 0;
    while k < deliveries.len()
        invariant
            k <= deliveries@.len(),
            outcomes@.len() == k,
            forall|j: int| 0 <= j < deliveries@.len() ==> call_requires(write, (&deliveries@[j],)),
            forall|j: int|
                0 <= j < k ==> call_ensures(write, (&deliveries@[j],), #[trigger] outcomes@[j]),
        decreases deliveries@.len() - k,
    {
        let sent = write(&deliveries[k]);
        outcomes.push(sent);
        k = k + 1;
    }
    outcomes
}

} // verus!
