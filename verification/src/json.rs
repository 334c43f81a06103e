//! The JSON value that records are made of, and its mathematical view.

use vstd::prelude::*;

verus! {

/// `serde_json::Number`, opaque to the verifier: a number that is no whole
/// number is carried in it from the parser to the printer.
#[verifier::external_type_specification]
#[verifier::external_body]
pub struct ExNumber(serde_json::Number);

/// `serde_json::Number::clone` gives back a number equal to the one cloned.
pub assume_specification[ <serde_json::Number as Clone>::clone ](n: &serde_json::Number) -> (r:
    serde_json::Number)
    ensures
        r == *n,
;

/// A JSON number. Whole numbers are held as integers; every other number is
/// carried as the parser produced it and is never inspected.
#[derive(Debug, PartialEq)]
pub enum JsonNumber {
    /// A whole number from zero to `u64::MAX`.
    Unsigned(u64),
    /// A whole number below zero. A number from zero up that is held here
    /// counts as the same number held as `Unsigned`.
    Negative(i64),
    /// A number with a fraction or an exponent, as the parser gave it. It is
    /// never looked into: a whole number wrapped here by hand is not
    /// recognised as one.
    Real(serde_json::Number),
}

impl JsonNumber {
    /// The number as an unsigned integer, where it is a whole number from
    /// zero to `u64::MAX`.
    pub open spec fn as_u64_spec(self) -> Option<u64> {
        match self {
            JsonNumber::Unsigned(n) => Some(n),
            JsonNumber::Negative(n) => if n >= 0 {
                Some(n as u64)
            } else {
                None
            },
            JsonNumber::Real(_) => None,
        }
    }

    /// The number as an unsigned integer, where it is a whole number from
    /// zero to `u64::MAX`.
    pub fn as_u64(&self) -> (r: Option<u64>)
        ensures
            r == self.as_u64_spec(),
    {
        match self {
            JsonNumber::Unsigned(n) => Some(*n),
            JsonNumber::Negative(n) => if *n >= 0 {
                Some(*n as u64)
            } else {
                None
            },
            JsonNumber::Real(_) => None,
        }
    }
}

/// A JSON value. An object keeps its members in the order of the document.
#[derive(Debug, PartialEq)]
pub enum Json {
    Null,
    Bool(bool),
    Number(JsonNumber),
    String(String),
    Array(Vec<Json>),
    Object(Vec<(String, Json)>),
}

/// The mathematical value of a [`Json`]: strings are sequences of characters,
/// arrays and objects are sequences.
pub enum JsonV {
    Null,
    Bool(bool),
    Number(JsonNumber),
    String(Seq<char>),
    Array(Seq<JsonV>),
    Object(Seq<(Seq<char>, JsonV)>),
}

impl View for Json {
    type V = JsonV;

    /// The value, with every string, array and object replaced by the
    /// sequence it stands for. An array's view is [`values_view`] of its
    /// items and an object's is [`members_view`] of its members; the bounds
    /// tested below only show that the definition is well-founded.
    open spec fn view(&self) -> JsonV
        decreases self,
    {
        match self {
            Json::Null => JsonV::Null,
            Json::Bool(b) => JsonV::Bool(*b),
            Json::Number(n) => JsonV::Number(*n),
            Json::String(s) => JsonV::String(s@),
            Json::Array(items) => JsonV::Array(
                Seq::new(
                    items.len() as nat,
                    |i: int|
                        if 0 <= i < items.len() {
                            items[i]@
                        } else {
                            JsonV::Null
                        },
                ),
            ),
            Json::Object(members) => JsonV::Object(
                Seq::new(
                    members.len() as nat,
                    |i: int|
                        if 0 <= i < members.len() {
                            (members[i].0@, members[i].1@)
                        } else {
                            (Seq::empty(), JsonV::Null)
                        },
                ),
            ),
        }
    }
}

/// The views of a sequence of values, one for one.
pub open spec fn values_view(items: Seq<Json>) -> Seq<JsonV> {
    Seq::new(items.len(), |i: int| items[i]@)
}

/// The views of an object's members, one for one.
pub open spec fn members_view(members: Seq<(String, Json)>) -> Seq<(Seq<char>, JsonV)> {
    Seq::new(members.len(), |i: int| (members[i].0@, members[i].1@))
}

/// The view of an array is the array of its items' views.
pub proof fn lemma_array_view(items: Vec<Json>)
    ensures
        Json::Array(items)@ == JsonV::Array(values_view(items@)),
{
    reveal_with_fuel(<Json as View>::view, 2);
    assert(Json::Array(items)@->Array_0 =~= values_view(items@));
}

/// The view of an object is the sequence of its members' views.
pub proof fn lemma_object_view(members: Vec<(String, Json)>)
    ensures
        Json::Object(members)@ == JsonV::Object(members_view(members@)),
{
    reveal_with_fuel(<Json as View>::view, 2);
    assert(Json::Object(members)@->Object_0 =~= members_view(members@));
}

impl Clone for JsonNumber {
    fn clone(&self) -> (r: Self)
        ensures
            r == *self,
    {
        match self {
            JsonNumber::Unsigned(n) => JsonNumber::Unsigned(*n),
            JsonNumber::Negative(n) => JsonNumber::Negative(*n),
            JsonNumber::Real(n) => JsonNumber::Real(n.clone()),
        }
    }
}

impl Clone for Json {
    fn clone(&self) -> (r: Self)
        ensures
            r@ == self@,
    {
        self.duplicate()
    }
}

impl Json {
    /// A copy of the whole value, with the same view.
    pub fn duplicate(&self) -> (r: Self)
        ensures
            r@ == self@,
        decreases self,
    {
        match self {
            Json::Null => Json::Null,
            Json::Bool(b) => Json::Bool(*b),
            Json::Number(n) => Json::Number(n.clone()),
            Json::String(s) => Json::String(s.clone()),
            Json::Array(items) => {
                let mut out: Vec<Json> = Vec::new();
                let mut i: usize = 0;
                while i < items.len()
                    invariant
                        self is Array,
                        self->Array_0 == *items,
                        i <= items.len(),
                        out.len() == i,
                        forall|k: int| 0 <= k < i ==> out[k]@ == items[k]@,
                    decreases items.len() - i,
                {
                    assert(decreases_to!(*items => items[i as int]));
                    out.push(items[i].duplicate());
                    i += 1;
                }
                proof {
                    lemma_array_view(out);
                    lemma_array_view(*items);
                    assert(values_view(out@) =~= values_view(items@));
                }
                Json::Array(out)
            },
            Json::Object(members) => {
                let mut out: Vec<(String, Json)> = Vec::new();
                let mut i: usize = 0;
                while i < members.len()
                    invariant
                        self is Object,
                        self->Object_0 == *members,
                        i <= members.len(),
                        out.len() == i,
                        forall|k: int|
                            0 <= k < i ==> out[k].0@ == members[k].0@ && out[k].1@
                                == members[k].1@,
                    decreases members.len() - i,
                {
                    assert(decreases_to!(*members => members[i as int]));
                    out.push((members[i].0.clone(), members[i].1.duplicate()));
                    i += 1;
                }
                proof {
                    lemma_object_view(out);
                    lemma_object_view(*members);
                    assert(members_view(out@) =~= members_view(members@));
                }
                Json::Object(out)
            },
        }
    }
}

/// The name of the member that identifies a record.
pub open spec fn id_key() -> Seq<char> {
    seq!['i', 'd']
}

/// The value that an object's members give to `key`: that of the last member
/// with this name, as a later member of a document overrides an earlier one.
pub open spec fn member(members: Seq<(Seq<char>, JsonV)>, key: Seq<char>) -> Option<JsonV>
    decreases members.len(),
{
    if members.len() == 0 {
        None
    } else if members.last().0 == key {
        Some(members.last().1)
    } else {
        member(members.drop_last(), key)
    }
}

impl JsonV {
    /// The value of the member `key`, if this is an object that has one.
    pub open spec fn get(self, key: Seq<char>) -> Option<JsonV> {
        match self {
            JsonV::Object(members) => member(members, key),
            _ => None,
        }
    }

    /// Whether this value carries a member named `id`, of whatever kind.
    pub open spec fn has_id(self) -> bool {
        self.get(id_key()) is Some
    }

    /// The numeric id of a record: the member `id` where it is a whole number
    /// from zero to `u64::MAX`. A record whose `id` is missing, negative,
    /// fractional or no number at all has none.
    pub open spec fn id(self) -> Option<u64> {
        match self.get(id_key()) {
            Some(JsonV::Number(n)) => n.as_u64_spec(),
            _ => None,
        }
    }

    /// This object with the member `id` set to `id`, added behind the others.
    pub open spec fn with_id(self, id: u64) -> JsonV
        recommends
            self is Object,
    {
        JsonV::Object(
            self->Object_0.push((id_key(), JsonV::Number(JsonNumber::Unsigned(id)))),
        )
    }
}

impl Json {
    /// Looks a member of an object up by name. A value that is no object has
    /// no members.
    pub fn get(&self, key: &String) -> (r: Option<&Json>)
        ensures
            match r {
                Some(v) => self@.get(key@) == Some(v@),
                None => self@.get(key@) is None,
            },
    {
        match self {
            Json::Object(members) => {
                let ghost all = members_view(members@);
                proof {
                    lemma_object_view(*members);
                }
                let mut i: usize = members.len();
                assert(all.subrange(0, i as int) =~= all);
                while i > 0
                    invariant
                        i <= members.len(),
                        all.len() == members.len(),
                        self@ == JsonV::Object(all),
                        forall|k: int|
                            0 <= k < members.len() ==> all[k] == (members[k].0@, members[k].1@),
                        member(all, key@) == member(all.subrange(0, i as int), key@),
                    decreases i,
                {
                    proof {
                        let prefix = all.subrange(0, i as int);
                        assert(prefix.drop_last() =~= all.subrange(0, i - 1));
                        assert(prefix.last() == all[i - 1]);
                    }
                    i -= 1;
                    if members[i].0 == *key {
                        return Some(&members[i].1);
                    }
                }
                assert(all.subrange(0, 0).len() == 0);
                None
            },
            _ => None,
        }
    }

    /// The numeric id of this record, if it has one.
    pub fn id(&self) -> (r: Option<u64>)
        ensures
            r == self@.id(),
    {
        let key = id_name();
        match self.get(&key) {
            Some(Json::Number(n)) => n.as_u64(),
            _ => None,
        }
    }

    /// Whether this value carries a member named `id`, of whatever kind.
    pub fn has_id(&self) -> (r: bool)
        ensures
            r == self@.has_id(),
    {
        let key = id_name();
        self.get(&key).is_some()
    }

    /// Adds the member `id` to an object, behind its other members.
    pub fn with_id(self, id: u64) -> (r: Json)
        requires
            self is Object,
        ensures
            r@ == self@.with_id(id),
            r@.id() == Some(id),
    {
        match self {
            Json::Object(mut members) => {
                let ghost before = members;
                members.push((id_name(), Json::Number(JsonNumber::Unsigned(id))));
                proof {
                    lemma_object_view(before);
                    lemma_object_view(members);
                    let added = (id_key(), JsonV::Number(JsonNumber::Unsigned(id)));
                    assert(members_view(members@) =~= members_view(before@).push(added));
                    assert(members_view(members@).last() == added);
                }
                Json::Object(members)
            },
            other => other,
        }
    }
}

/// The text `id`, the name of the member that identifies a record.
pub fn id_name() -> (r: String)
    ensures
        r@ == id_key(),
{
    proof {
        reveal_strlit("id");
    }
    let r = String::from_str("id");
    assert(r@ =~= id_key());
    r
}

} // verus!
