//! What holds of the operations on a collection, one after another, and of
//! the guard's states. The statements on records are over the views of the
//! records and are proved from the definitions in [`crate::records`], of
//! which the contracts of the operations speak.

use vstd::prelude::*;
use crate::json::{JsonV, JsonNumber, id_key, member};
use crate::records::{
    assigned, first_with_id, fresh_id, holds_id, ids_unique, least_unused, lemma_position,
    lemma_some_id_unused, lookup, page, position, replaced, without_id,
};

verus! {

/// Among the ids from zero to an unused one there is a smallest unused id.
pub proof fn lemma_least_unused_exists(records: Seq<JsonV>, unused: u64)
    requires
        !holds_id(records, unused),
    ensures
        exists|id: u64| least_unused(records, id),
    decreases unused,
{
    if forall|k: u64| k < unused ==> #[trigger] holds_id(records, k) {
        assert(least_unused(records, unused));
    } else {
        let k = choose|k: u64| k < unused && !holds_id(records, k);
        lemma_least_unused_exists(records, k);
    }
}

/// The id picked for a new record is carried by no record of the collection,
/// whatever the candidate.
pub proof fn lemma_fresh_id_unused(records: Seq<JsonV>, candidate: u64)
    requires
        records.len() <= usize::MAX,
    ensures
        !holds_id(records, fresh_id(records, candidate)),
{
    if holds_id(records, candidate) {
        lemma_some_id_unused(records);
        let unused = choose|k: u64| !holds_id(records, k);
        lemma_least_unused_exists(records, unused);
        let least = choose|id: u64| least_unused(records, id);
        assert(least_unused(records, least));
    }
}

/// An object that gets an id carries exactly that id.
pub proof fn lemma_with_id(payload: JsonV, id: u64)
    requires
        payload is Object,
    ensures
        payload.with_id(id).id() == Some(id),
        payload.with_id(id).has_id(),
{
    let members = payload->Object_0.push((id_key(), JsonV::Number(JsonNumber::Unsigned(id))));
    assert(members.last().0 == id_key());
    assert(member(members, id_key()) == Some(JsonV::Number(JsonNumber::Unsigned(id))));
}

/// Inserting a payload that has no `id` stores a record whose id is numeric
/// and carried by no record that the collection held before; a collection
/// whose ids were unique keeps them unique.
pub proof fn lemma_insert_assigns_unique_id(records: Seq<JsonV>, payload: JsonV, candidate: u64)
    requires
        records.len() <= usize::MAX,
        payload is Object,
        !payload.has_id(),
    ensures
        assigned(records, payload, candidate).id() == Some(fresh_id(records, candidate)),
        !holds_id(records, fresh_id(records, candidate)),
        ids_unique(records) ==> ids_unique(records.push(assigned(records, payload, candidate))),
{
    let id = fresh_id(records, candidate);
    let stored = assigned(records, payload, candidate);
    lemma_with_id(payload, id);
    lemma_fresh_id_unused(records, candidate);
    if ids_unique(records) {
        let after = records.push(stored);
        assert forall|i: int, j: int|
            #![trigger after[i], after[j]]
            0 <= i < j < after.len() && after[i].id() is Some implies after[i].id()
            != after[j].id() by {
            if j < records.len() {
                assert(after[i] == records[i] && after[j] == records[j]);
            } else {
                assert(after[i] == records[i]);
                if records[i].id() == Some(id) {
                    assert(holds_id(records, id));
                }
            }
        }
    }
}

/// Inserting a record and then looking its id up gives the record that was
/// stored, provided that no record of the collection carried that id before.
/// A payload without an `id` always meets this; one that brings its own id
/// meets it where the id is numeric and not yet in the collection.
pub proof fn lemma_insert_then_get(records: Seq<JsonV>, payload: JsonV, candidate: u64)
    requires
        records.len() <= usize::MAX,
        payload is Object,
        payload.has_id() ==> payload.id() is Some && !holds_id(records, payload.id().unwrap()),
    ensures
        assigned(records, payload, candidate).id() is Some,
        lookup(
            records.push(assigned(records, payload, candidate)),
            assigned(records, payload, candidate).id().unwrap(),
        ) == Some(assigned(records, payload, candidate)),
{
    let stored = assigned(records, payload, candidate);
    if !payload.has_id() {
        lemma_insert_assigns_unique_id(records, payload, candidate);
    }
    let id = stored.id().unwrap();
    let after = records.push(stored);
    assert forall|k: int| 0 <= k < records.len() implies #[trigger] after[k].id() != Some(id) by {
        if records[k].id() == Some(id) {
            assert(holds_id(records, id));
        }
    }
    assert(first_with_id(after, id, records.len() as int));
    lemma_position(after, id, records.len() as int);
}

/// Updating stores the payload verbatim in the place of the first record
/// that carried the id, whatever id the payload itself carries, and changes
/// no other record.
pub proof fn lemma_update_stores_payload(records: Seq<JsonV>, id: u64, payload: JsonV)
    requires
        holds_id(records, id),
    ensures
        first_with_id(records, id, position(records, id)),
        replaced(records, id, payload).len() == records.len(),
        replaced(records, id, payload)[position(records, id)] == payload,
        forall|k: int|
            0 <= k < records.len() && k != position(records, id) ==> #[trigger] replaced(
                records,
                id,
                payload,
            )[k] == records[k],
{
    lemma_first_exists(records, id);
}

/// Where some record carries the id, there is a first one.
pub proof fn lemma_first_exists(records: Seq<JsonV>, id: u64)
    requires
        holds_id(records, id),
    ensures
        first_with_id(records, id, position(records, id)),
{
    let some = choose|i: int| 0 <= i < records.len() && #[trigger] records[i].id() == Some(id);
    lemma_first_before(records, id, some);
}

/// Before any record that carries the id stands the first that does.
proof fn lemma_first_before(records: Seq<JsonV>, id: u64, at: int)
    requires
        0 <= at < records.len(),
        records[at].id() == Some(id),
    ensures
        first_with_id(records, id, position(records, id)),
    decreases at,
{
    if forall|k: int| 0 <= k < at ==> #[trigger] records[k].id() != Some(id) {
        assert(first_with_id(records, id, at));
    } else {
        let k = choose|k: int| 0 <= k < at && #[trigger] records[k].id() == Some(id);
        lemma_first_before(records, id, k);
    }
}

/// Updating a record with a payload that carries the same id and then
/// looking the id up gives the payload.
pub proof fn lemma_update_then_get(records: Seq<JsonV>, id: u64, payload: JsonV)
    requires
        holds_id(records, id),
        payload.id() == Some(id),
    ensures
        lookup(replaced(records, id, payload), id) == Some(payload),
{
    lemma_first_exists(records, id);
    let at = position(records, id);
    let after = replaced(records, id, payload);
    assert forall|k: int| 0 <= k < at implies #[trigger] after[k].id() != Some(id) by {
        assert(after[k] == records[k]);
    }
    assert(first_with_id(after, id, at));
    lemma_position(after, id, at);
}

/// Updating a record with a payload that carries the same id keeps the ids
/// of the collection unique.
pub proof fn lemma_update_keeps_ids_unique(records: Seq<JsonV>, id: u64, payload: JsonV)
    requires
        ids_unique(records),
        payload.id() == Some(id),
    ensures
        ids_unique(replaced(records, id, payload)),
{
    if holds_id(records, id) {
        lemma_first_exists(records, id);
        let at = position(records, id);
        let after = replaced(records, id, payload);
        assert forall|i: int, j: int|
            #![trigger after[i], after[j]]
            0 <= i < j < after.len() && after[i].id() is Some implies after[i].id()
            != after[j].id() by {
            assert(after[i].id() == records[i].id());
            assert(after[j].id() == records[j].id());
        }
    }
}

/// Every record that a delete keeps stood in the collection before.
proof fn lemma_kept_was_there(records: Seq<JsonV>, id: u64, i: int)
    requires
        0 <= i < without_id(records, id).len(),
    ensures
        exists|k: int| 0 <= k < records.len() && #[trigger] records[k] == without_id(records, id)[i],
{
    let keep = |record: JsonV| record.id() != Some(id);
    let kept = records.filter(keep);
    assert(kept.contains(kept[i]));
    records.lemma_filter_contains_rev(keep, kept[i]);
    let k = choose|k: int| 0 <= k < records.len() && records[k] == kept[i];
    assert(records[k] == without_id(records, id)[i]);
}

/// A delete keeps the ids of the collection unique.
pub proof fn lemma_delete_keeps_ids_unique(records: Seq<JsonV>, id: u64)
    requires
        ids_unique(records),
    ensures
        ids_unique(without_id(records, id)),
    decreases records.len(),
{
    reveal(Seq::filter);
    if records.len() > 0 {
        let rest = records.drop_last();
        let last = records.last();
        assert forall|i: int, j: int|
            #![trigger rest[i], rest[j]]
            0 <= i < j < rest.len() && rest[i].id() is Some implies rest[i].id() != rest[j].id() by {
            assert(rest[i] == records[i] && rest[j] == records[j]);
        }
        lemma_delete_keeps_ids_unique(rest, id);
        let kept = without_id(rest, id);
        if last.id() != Some(id) {
            let after = kept.push(last);
            assert(without_id(records, id) == after);
            assert forall|i: int, j: int|
                #![trigger after[i], after[j]]
                0 <= i < j < after.len() && after[i].id() is Some implies after[i].id()
                != after[j].id() by {
                if j < kept.len() {
                    assert(after[i] == kept[i] && after[j] == kept[j]);
                } else {
                    lemma_kept_was_there(rest, id, i);
                    let k = choose|k: int| 0 <= k < rest.len() && #[trigger] rest[k] == kept[i];
                    assert(records[k] == after[i]);
                    assert(records[records.len() - 1] == after[j]);
                }
            }
        } else {
            assert(without_id(records, id) == kept);
        }
    }
}

/// After a delete no record carries the id, so a lookup finds nothing.
pub proof fn lemma_delete_then_get(records: Seq<JsonV>, id: u64)
    ensures
        !holds_id(without_id(records, id), id),
        lookup(without_id(records, id), id) is None,
{
    let keep = |record: JsonV| record.id() != Some(id);
    let after = records.filter(keep);
    if holds_id(after, id) {
        let i = choose|i: int| 0 <= i < after.len() && #[trigger] after[i].id() == Some(id);
        records.lemma_filter_pred(keep, i);
    }
}

/// Deleting an id that no record carries leaves the collection as it was.
pub proof fn lemma_delete_absent(records: Seq<JsonV>, id: u64)
    requires
        !holds_id(records, id),
    ensures
        without_id(records, id) == records,
    decreases records.len(),
{
    reveal(Seq::filter);
    let keep = |record: JsonV| record.id() != Some(id);
    if records.len() > 0 {
        let rest = records.drop_last();
        assert forall|i: int| 0 <= i < rest.len() implies #[trigger] rest[i].id() != Some(id) by {
            assert(records[i].id() != Some(id));
        }
        lemma_delete_absent(rest, id);
        assert(records.last() == records[records.len() - 1]);
        assert(keep(records.last()));
        assert(rest.push(records.last()) =~= records);
    }
}

/// A page from the start that is at least as long as the collection holds
/// every record, in file order.
pub proof fn lemma_first_page_holds_all(records: Seq<JsonV>, limit: nat)
    requires
        records.len() <= limit,
    ensures
        page(records, 0, limit) == records,
{
    assert(page(records, 0, limit) =~= records);
}

/// The collection after the payloads were inserted one after the other,
/// each with its own candidate.
pub open spec fn insert_all(records: Seq<JsonV>, payloads: Seq<JsonV>, candidates: Seq<u64>) -> Seq<
    JsonV,
>
    decreases payloads.len(),
{
    if payloads.len() == 0 {
        records
    } else {
        let before = insert_all(records, payloads.drop_last(), candidates.drop_last());
        before.push(assigned(before, payloads.last(), candidates.last()))
    }
}

/// Inserts that run one after the other, as the guard makes those of
/// concurrent callers run, lose nothing: after `m` payloads without an `id`
/// the collection holds its old records, unchanged and in their places, and
/// behind them one record for each payload, in the order of the inserts, each
/// with a numeric id; a collection whose ids were unique keeps them unique,
/// so the `m` new ids differ from each other and from the old ones.
pub proof fn lemma_inserts_in_turn(
    records: Seq<JsonV>,
    payloads: Seq<JsonV>,
    candidates: Seq<u64>,
)
    requires
        records.len() + payloads.len() <= usize::MAX,
        candidates.len() == payloads.len(),
        forall|k: int|
            0 <= k < payloads.len() ==> (#[trigger] payloads[k]) is Object && !payloads[k].has_id(),
    ensures
        insert_all(records, payloads, candidates).len() == records.len() + payloads.len(),
        forall|i: int|
            0 <= i < records.len() ==> #[trigger] insert_all(records, payloads, candidates)[i]
                == records[i],
        forall|k: int|
            #![trigger payloads[k]]
            0 <= k < payloads.len() ==> {
                let stored = insert_all(records, payloads, candidates)[records.len() + k];
                stored.id() is Some && stored == payloads[k].with_id(stored.id().unwrap())
            },
        ids_unique(records) ==> ids_unique(insert_all(records, payloads, candidates)),
    decreases payloads.len(),
{
    if payloads.len() > 0 {
        let earlier = payloads.drop_last();
        let before = insert_all(records, earlier, candidates.drop_last());
        lemma_inserts_in_turn(records, earlier, candidates.drop_last());
        lemma_insert_assigns_unique_id(before, payloads.last(), candidates.last());
        let after = insert_all(records, payloads, candidates);
        assert forall|k: int| #![trigger payloads[k]] 0 <= k < payloads.len() implies {
            let stored = after[records.len() + k];
            stored.id() is Some && stored == payloads[k].with_id(stored.id().unwrap())
        } by {
            if k < earlier.len() {
                assert(earlier[k] == payloads[k]);
                assert(after[records.len() + k] == before[records.len() + k]);
            }
        }
    }
}

/// A collection that was granted is busy: whoever asks for it next is
/// refused until it is given back.
pub proof fn lemma_guard_excludes(busy: Set<Seq<char>>, name: Seq<char>)
    ensures
        busy.insert(name).contains(name),
        !busy.insert(name).remove(name).contains(name),
{
}

/// Taking or giving back one collection changes the state of no other.
pub proof fn lemma_guard_independent(busy: Set<Seq<char>>, name: Seq<char>, other: Seq<char>)
    requires
        name != other,
    ensures
        busy.insert(name).contains(other) == busy.contains(other),
        busy.remove(name).contains(other) == busy.contains(other),
{
}

/// Taking an idle collection and giving it back leaves the guard as it was.
pub proof fn lemma_guard_release_restores(busy: Set<Seq<char>>, name: Seq<char>)
    requires
        !busy.contains(name),
    ensures
        busy.insert(name).remove(name) == busy,
{
    assert(busy.insert(name).remove(name) =~= busy);
}

} // verus!
