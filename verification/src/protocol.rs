//! Inserts of several callers into one collection, under the guard. A caller
//! enters when the guard grants it the collection, reads the records, and
//! leaves by writing the records it read with its own record added, which
//! gives the collection back. The steps of different callers may come in any
//! order. No insert is lost: whatever the order, each caller that has left
//! added exactly one record to what the others had stored.

use vstd::prelude::*;
use vstd::set_lib::{lemma_int_range, lemma_len_subset, set_int_range};
use crate::json::JsonV;
use crate::laws::lemma_insert_assigns_unique_id;
use crate::records::{assigned, ids_unique};

verus! {

/// The collection and its guard, as the callers see them.
pub struct World {
    /// The name of the collection.
    pub name: Seq<char>,
    /// The collections that the guard lists as busy.
    pub busy: Set<Seq<char>>,
    /// The records that are stored.
    pub records: Seq<JsonV>,
    /// The caller that holds the collection, with the records it read when
    /// it entered; `None` while the collection is idle.
    pub holder: Option<(int, Seq<JsonV>)>,
    /// The callers that have left.
    pub done: Set<int>,
}

/// What the callers bring: one payload without an `id` each, and the
/// candidate that is drawn for it.
pub open spec fn callers(payloads: Seq<JsonV>, candidates: Seq<u64>) -> bool {
    &&& candidates.len() == payloads.len()
    &&& forall|c: int|
        0 <= c < payloads.len() ==> (#[trigger] payloads[c]) is Object && !payloads[c].has_id()
}

/// The world before any caller has entered: the collection is idle, whatever
/// other collections are busy.
pub open spec fn start(name: Seq<char>, others: Set<Seq<char>>, initial: Seq<JsonV>) -> World {
    World { name, busy: others.remove(name), records: initial, holder: None, done: Set::empty() }
}

/// Whether the caller may enter: the guard grants the collection, which it
/// does exactly where the collection is not busy, and the caller has not
/// been served yet.
pub open spec fn can_enter(w: World, c: int, payloads: Seq<JsonV>) -> bool {
    &&& 0 <= c < payloads.len()
    &&& !w.busy.contains(w.name)
    &&& !w.done.contains(c)
}

/// The world after the caller has entered and read the records: the
/// collection is busy.
pub open spec fn enter(w: World, c: int) -> World {
    World {
        name: w.name,
        busy: w.busy.insert(w.name),
        records: w.records,
        holder: Some((c, w.records)),
        done: w.done,
    }
}

/// Whether the caller may leave: it holds the collection.
pub open spec fn can_leave(w: World, c: int) -> bool {
    w.holder matches Some(held) && held.0 == c
}

/// The world after the caller has written and given the collection back:
/// the collection is idle again.
pub open spec fn leave(w: World, c: int, payloads: Seq<JsonV>, candidates: Seq<u64>) -> World {
    let read = w.holder.unwrap().1;
    World {
        name: w.name,
        busy: w.busy.remove(w.name),
        records: read.push(assigned(read, payloads[c], candidates[c])),
        holder: None,
        done: w.done.insert(c),
    }
}

/// One step of some caller.
pub open spec fn step(w: World, next: World, payloads: Seq<JsonV>, candidates: Seq<u64>) -> bool {
    exists|c: int|
        (can_enter(w, c, payloads) && next == #[trigger] enter(w, c)) || (can_leave(w, c) && next
            == leave(w, c, payloads, candidates))
}

/// What holds of every world that the callers can reach from `initial`: the
/// collection is busy exactly while a caller holds it, that caller read the
/// records that are stored now, and every caller that has left added one
/// record.
pub open spec fn consistent(w: World, initial: Seq<JsonV>, payloads: Seq<JsonV>) -> bool {
    &&& w.busy.contains(w.name) == (w.holder is Some)
    &&& w.done.subset_of(set_int_range(0, payloads.len() as int))
    &&& w.records.len() == initial.len() + w.done.len()
    &&& forall|i: int| 0 <= i < initial.len() ==> #[trigger] w.records[i] == initial[i]
    &&& forall|i: int| initial.len() <= i < w.records.len() ==> (#[trigger] w.records[i]).id() is Some
    &&& ids_unique(initial) ==> ids_unique(w.records)
    &&& match w.holder {
        Some(held) => 0 <= held.0 < payloads.len() && !w.done.contains(held.0) && held.1
            == w.records,
        None => true,
    }
}

/// The world is consistent before any caller has entered.
pub proof fn lemma_start_consistent(
    name: Seq<char>,
    others: Set<Seq<char>>,
    initial: Seq<JsonV>,
    payloads: Seq<JsonV>,
)
    ensures
        consistent(start(name, others, initial), initial, payloads),
{
}

/// While a caller holds the collection no other caller can enter.
pub proof fn lemma_one_holder(w: World, initial: Seq<JsonV>, payloads: Seq<JsonV>, c: int)
    requires
        consistent(w, initial, payloads),
        w.holder is Some,
    ensures
        !can_enter(w, c, payloads),
{
}

/// Every step keeps the world consistent. In particular the caller that
/// leaves wrote on top of the records that are stored, not of older ones:
/// what the others stored before stays, and one record is added.
pub proof fn lemma_step_consistent(
    w: World,
    next: World,
    initial: Seq<JsonV>,
    payloads: Seq<JsonV>,
    candidates: Seq<u64>,
)
    requires
        initial.len() + payloads.len() <= usize::MAX,
        callers(payloads, candidates),
        consistent(w, initial, payloads),
        step(w, next, payloads, candidates),
    ensures
        consistent(next, initial, payloads),
        next.name == w.name,
        forall|other: Seq<char>|
            other != w.name ==> next.busy.contains(other) == w.busy.contains(other),
        next.records.len() >= w.records.len(),
        forall|i: int| 0 <= i < w.records.len() ==> #[trigger] next.records[i] == w.records[i],
{
    let all = set_int_range(0, payloads.len() as int);
    lemma_int_range(0, payloads.len() as int);
    lemma_len_subset(w.done, all);
    let c = choose|c: int|
        (can_enter(w, c, payloads) && next == #[trigger] enter(w, c)) || (can_leave(w, c) && next
            == leave(w, c, payloads, candidates));
    if can_leave(w, c) && next == leave(w, c, payloads, candidates) {
        let stored = assigned(w.records, payloads[c], candidates[c]);
        lemma_insert_assigns_unique_id(w.records, payloads[c], candidates[c]);
        assert(next.records == w.records.push(stored));
        assert(next.done.len() == w.done.len() + 1);
    }
}

/// When every caller has left, the collection holds its old records and one
/// more record for each caller, each with an id; where the old ids were
/// unique, all ids are, so the new ones differ from each other and from the
/// old ones.
pub proof fn lemma_all_served(w: World, initial: Seq<JsonV>, payloads: Seq<JsonV>)
    requires
        consistent(w, initial, payloads),
        w.done == set_int_range(0, payloads.len() as int),
    ensures
        w.records.len() == initial.len() + payloads.len(),
        w.records.subrange(0, initial.len() as int) == initial,
        forall|i: int| initial.len() <= i < w.records.len() ==> (#[trigger] w.records[i]).id() is Some,
        ids_unique(initial) ==> ids_unique(w.records),
{
    lemma_int_range(0, payloads.len() as int);
    assert(w.records.subrange(0, initial.len() as int) =~= initial);
}

} // verus!
