//! The records of one collection, held in memory: lookup by id, insertion
//! with a fresh id, replacement, removal and paging. Everything here is
//! stated over the views of the records, in file order.

use vstd::prelude::*;
use vstd::relations::injective_on;
use vstd::set_lib::{lemma_int_range, lemma_len_subset, lemma_map_size, set_int_range};
use crate::json::{Json, JsonV, values_view};

verus! {

/// Whether some record of the collection carries the numeric id.
pub open spec fn holds_id(records: Seq<JsonV>, id: u64) -> bool {
    exists|i: int| 0 <= i < records.len() && #[trigger] records[i].id() == Some(id)
}

/// Whether `i` is the position of the first record that carries the id.
pub open spec fn first_with_id(records: Seq<JsonV>, id: u64, i: int) -> bool {
    &&& 0 <= i < records.len()
    &&& records[i].id() == Some(id)
    &&& forall|k: int| 0 <= k < i ==> #[trigger] records[k].id() != Some(id)
}

/// The position of the first record that carries the id, where there is one.
pub open spec fn position(records: Seq<JsonV>, id: u64) -> int {
    choose|i: int| first_with_id(records, id, i)
}

/// What a lookup by id gives: the first record that carries the id.
pub open spec fn lookup(records: Seq<JsonV>, id: u64) -> Option<JsonV> {
    if holds_id(records, id) {
        Some(records[position(records, id)])
    } else {
        None
    }
}

/// The collection after an update: the payload stands, verbatim, in the
/// place of the first record that carried the id. A collection without such
/// a record is left as it is.
pub open spec fn replaced(records: Seq<JsonV>, id: u64, payload: JsonV) -> Seq<JsonV> {
    if holds_id(records, id) {
        records.update(position(records, id), payload)
    } else {
        records
    }
}

/// The collection without the records that carry the id, the others in
/// their order.
pub open spec fn without_id(records: Seq<JsonV>, id: u64) -> Seq<JsonV> {
    records.filter(|record: JsonV| record.id() != Some(id))
}

/// One page of the collection: at most `limit` records from offset `skip`,
/// both clamped to the collection's end.
pub open spec fn page(records: Seq<JsonV>, skip: nat, limit: nat) -> Seq<JsonV> {
    let from = if skip <= records.len() {
        skip
    } else {
        records.len()
    };
    let to = if from + limit <= records.len() {
        from + limit
    } else {
        records.len()
    };
    records.subrange(from as int, to as int)
}

/// No two records carry the same numeric id.
pub open spec fn ids_unique(records: Seq<JsonV>) -> bool {
    forall|i: int, j: int|
        #![trigger records[i], records[j]]
        0 <= i < j < records.len() && records[i].id() is Some ==> records[i].id()
            != records[j].id()
}

/// Whether `id` is the smallest id that no record carries.
pub open spec fn least_unused(records: Seq<JsonV>, id: u64) -> bool {
    &&& !holds_id(records, id)
    &&& forall|k: u64| k < id ==> #[trigger] holds_id(records, k)
}

/// The id given to a record that comes without one: the candidate where no
/// record carries it yet, else the smallest id that no record carries.
pub open spec fn fresh_id(records: Seq<JsonV>, candidate: u64) -> u64 {
    if holds_id(records, candidate) {
        choose|id: u64| least_unused(records, id)
    } else {
        candidate
    }
}

/// The record as it is stored: as it came where it has a member `id`, else
/// with a fresh id added.
pub open spec fn assigned(records: Seq<JsonV>, payload: JsonV, candidate: u64) -> JsonV {
    if payload.has_id() {
        payload
    } else {
        payload.with_id(fresh_id(records, candidate))
    }
}

/// The first position with the id is unique.
pub proof fn lemma_position(records: Seq<JsonV>, id: u64, i: int)
    requires
        first_with_id(records, id, i),
    ensures
        holds_id(records, id),
        position(records, id) == i,
        lookup(records, id) == Some(records[i]),
{
    let p = position(records, id);
    assert(first_with_id(records, id, p));
    if p < i {
        assert(records[p].id() != Some(id));
    }
    if i < p {
        assert(records[i].id() != Some(id));
    }
}

/// The position of some record that carries the id.
pub open spec fn carrier(records: Seq<JsonV>, id: int) -> int {
    choose|i: int| 0 <= i < records.len() && #[trigger] records[i].id() == Some(id as u64)
}

/// Distinct ids are carried by distinct records: where every id below
/// `bound` is carried, the collection has at least `bound` records.
pub proof fn lemma_carried_ids_bounded(records: Seq<JsonV>, bound: nat)
    requires
        bound <= u64::MAX,
        forall|k: u64| k < bound ==> #[trigger] holds_id(records, k),
    ensures
        bound <= records.len(),
{
    let ids = set_int_range(0, bound as int);
    let places = set_int_range(0, records.len() as int);
    let f = |k: int| carrier(records, k);
    let used = ids.map(f);
    lemma_int_range(0, bound as int);
    lemma_int_range(0, records.len() as int);
    assert forall|k: int| ids.contains(k) implies 0 <= #[trigger] f(k) < records.len()
        && records[f(k)].id() == Some(k as u64) by {
        assert(holds_id(records, k as u64));
    }
    assert(injective_on(f, ids)) by {
        assert forall|a: int, b: int|
            ids.contains(a) && ids.contains(b) && #[trigger] f(a) == #[trigger] f(b) implies a
            == b by {
            assert(records[f(a)].id() == Some(a as u64));
            assert(records[f(b)].id() == Some(b as u64));
        }
    }
    lemma_map_size(ids, used, f);
    assert(used.subset_of(places)) by {
        assert forall|p: int| used.contains(p) implies places.contains(p) by {
            let k = choose|k: int| ids.contains(k) && p == f(k);
            assert(0 <= f(k) < records.len());
        }
    }
    lemma_len_subset(used, places);
}

/// No collection in memory carries every id from zero to `u64::MAX`: it
/// would need more records than it can have.
pub proof fn lemma_some_id_unused(records: Seq<JsonV>)
    requires
        records.len() <= usize::MAX,
    ensures
        exists|k: u64| !holds_id(records, k),
{
    if forall|k: u64| #[trigger] holds_id(records, k) {
        let last = carrier(records, u64::MAX as int);
        assert(holds_id(records, u64::MAX));
        let rest = records.remove(last);
        assert forall|k: u64| k < u64::MAX implies #[trigger] holds_id(rest, k) by {
            assert(holds_id(records, k));
            let i = carrier(records, k as int);
            if i < last {
                assert(rest[i].id() == Some(k));
            } else {
                assert(rest[i - 1].id() == Some(k));
            }
        }
        lemma_carried_ids_bounded(rest, u64::MAX as nat);
    }
}

/// The smallest id that no record carries is unique.
pub proof fn lemma_least_unused(records: Seq<JsonV>, id: u64)
    requires
        least_unused(records, id),
    ensures
        (choose|other: u64| least_unused(records, other)) == id,
{
    let other = choose|other: u64| least_unused(records, other);
    assert(least_unused(records, other));
    if other < id {
        assert(holds_id(records, other));
    }
    if id < other {
        assert(holds_id(records, id));
    }
}

/// Picks the id for a record that comes without one: the candidate where no
/// record carries it yet, else the smallest id that no record carries. The
/// result is never an id of the collection.
pub fn unused_id(records: &Vec<Json>, candidate: u64) -> (id: u64)
    ensures
        id == fresh_id(values_view(records@), candidate),
        !holds_id(values_view(records@), id),
{
    if find_by_id(records, candidate).is_none() {
        return candidate;
    }
    let mut id: u64 = 0;
    loop
        invariant
            holds_id(values_view(records@), candidate),
            forall|k: u64| k < id ==> #[trigger] holds_id(values_view(records@), k),
        decreases u64::MAX - id,
    {
        if find_by_id(records, id).is_none() {
            proof {
                lemma_least_unused(values_view(records@), id);
            }
            return id;
        }
        proof {
            if id == u64::MAX {
                assert(values_view(records@).len() == records.len());
                lemma_some_id_unused(values_view(records@));
                let k = choose|k: u64| !holds_id(values_view(records@), k);
                assert(k < id ==> holds_id(values_view(records@), k));
            }
        }
        id += 1;
    }
}

/// Finds the first record that carries the id. Records whose `id` is
/// missing or is no whole number from zero up never match.
pub fn find_by_id(records: &Vec<Json>, id: u64) -> (r: Option<usize>)
    ensures
        match r {
            Some(i) => first_with_id(values_view(records@), id, i as int),
            None => !holds_id(values_view(records@), id),
        },
{
    let mut i: usize = 0;
    while i < records.len()
        invariant
            i <= records.len(),
            forall|k: int| 0 <= k < i ==> #[trigger] values_view(records@)[k].id() != Some(id),
        decreases records.len() - i,
    {
        if records[i].id() == Some(id) {
            return Some(i);
        }
        i += 1;
    }
    None
}

/// Appends a record to the collection and gives back a copy of what was
/// stored. A payload with a member `id`, of whatever kind, is stored as it
/// came; one without gets the fresh id that [`unused_id`] picks for the
/// candidate.
pub fn insert_record(records: &mut Vec<Json>, payload: Json, candidate: u64) -> (stored: Json)
    requires
        payload is Object,
    ensures
        stored@ == assigned(values_view(old(records)@), payload@, candidate),
        values_view(final(records)@) == values_view(old(records)@).push(stored@),
{
    let ghost before = records@;
    let record = if payload.has_id() {
        payload
    } else {
        let id = unused_id(records, candidate);
        payload.with_id(id)
    };
    let stored = record.clone();
    records.push(record);
    assert(values_view(records@) =~= values_view(before).push(stored@));
    stored
}

/// Replaces the first record that carries the id by the payload, verbatim:
/// the payload's own `id` is not looked at and may differ. Tells whether
/// there was such a record; without one the collection stays as it is.
pub fn replace_by_id(records: &mut Vec<Json>, id: u64, payload: Json) -> (found: bool)
    ensures
        found == holds_id(values_view(old(records)@), id),
        values_view(final(records)@) == replaced(values_view(old(records)@), id, payload@),
        !found ==> final(records)@ == old(records)@,
{
    match find_by_id(records, id) {
        Some(i) => {
            proof {
                lemma_position(values_view(records@), id, i as int);
            }
            let ghost before = records@;
            records.set(i, payload);
            assert(values_view(records@) =~= values_view(before).update(i as int, payload@));
            true
        },
        None => false,
    }
}

/// Copies the collection without the records that carry the id, and tells
/// whether any record was left out.
pub fn remove_by_id(records: &Vec<Json>, id: u64) -> (r: (Vec<Json>, bool))
    ensures
        values_view(r.0@) == without_id(values_view(records@), id),
        r.1 == holds_id(values_view(records@), id),
{
    let ghost all = values_view(records@);
    let ghost keep = |record: JsonV| record.id() != Some(id);
    let mut kept: Vec<Json> = Vec::new();
    let mut found = false;
    let mut i: usize = 0;
    proof {
        reveal(Seq::filter);
        assert(all.subrange(0, 0) =~= Seq::<JsonV>::empty());
        assert(values_view(kept@) =~= all.subrange(0, 0).filter(keep));
    }
    while i < records.len()
        invariant
            i <= records.len(),
            all == values_view(records@),
            keep == |record: JsonV| record.id() != Some(id),
            values_view(kept@) == all.subrange(0, i as int).filter(keep),
            found == holds_id(all.subrange(0, i as int), id),
        decreases records.len() - i,
    {
        let ghost prefix = all.subrange(0, i as int);
        let ghost next = all.subrange(0, i + 1);
        let ghost shown = values_view(kept@);
        proof {
            reveal(Seq::filter);
            assert(next.drop_last() =~= prefix);
            assert(next.last() == records[i as int]@);
        }
        if records[i].id() == Some(id) {
            found = true;
            assert(next[i as int].id() == Some(id));
        } else {
            kept.push(records[i].clone());
            assert(values_view(kept@) =~= shown.push(records[i as int]@));
            proof {
                if holds_id(next, id) {
                    let k = choose|k: int| 0 <= k < next.len() && next[k].id() == Some(id);
                    assert(prefix[k].id() == Some(id));
                }
            }
        }
        proof {
            if holds_id(prefix, id) {
                let k = choose|k: int| 0 <= k < prefix.len() && prefix[k].id() == Some(id);
                assert(next[k].id() == Some(id));
            }
        }
        i += 1;
    }
    assert(all.subrange(0, i as int) =~= all);
    (kept, found)
}

/// Copies one page of the collection: at most `limit` records from offset
/// `skip`, in file order, both clamped to the collection's end.
pub fn list_page(records: &Vec<Json>, skip: usize, limit: usize) -> (r: Vec<Json>)
    ensures
        values_view(r@) == page(values_view(records@), skip as nat, limit as nat),
{
    let len = records.len();
    let from = if skip <= len {
        skip
    } else {
        len
    };
    let to = if limit <= len - from {
        from + limit
    } else {
        len
    };
    let mut out: Vec<Json> = Vec::new();
    let mut i: usize = from;
    while i < to
        invariant
            from <= i <= to <= records.len(),
            out.len() == i - from,
            forall|k: int| 0 <= k < out.len() ==> out[k]@ == records[from + k]@,
        decreases to - i,
    {
        out.push(records[i].clone());
        i += 1;
    }
    assert(values_view(out@) =~= values_view(records@).subrange(from as int, to as int));
    out
}

} // verus!
