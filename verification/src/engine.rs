//! The operations on a stored collection. Each takes the text that the
//! collection's file holds, or `None` where there is no file, and answers
//! with a [`Step`]: the reply for the caller and what has to happen to the
//! file. The engine never touches a file itself.

use vstd::prelude::*;
use crate::codec::{convert_json_to_string, convert_string_to_json, parsed, printed};
use crate::errors::AppError;
use crate::ids::{generate_random_id, MAX_RANDOM_ID, MIN_RANDOM_ID};
use crate::json::{lemma_array_view, values_view, Json, JsonV};
use crate::records::{
    assigned, find_by_id, holds_id, insert_record, list_page, lookup, page, remove_by_id,
    replace_by_id, replaced, without_id, lemma_position,
};

verus! {

/// The page length of a listing that names none.
pub const DEFAULT_LIMIT: usize = 30;

/// The offset of a listing that names none.
pub const DEFAULT_SKIP: usize = 0;

/// What has to happen to the collection's file after an operation.
#[derive(Debug, PartialEq)]
pub enum FileAction {
    /// The file stays as it is; where there is none, none is made.
    Keep,
    /// The file's whole content is replaced by this text; where there is no
    /// file, it is created with it.
    Write(String),
    /// The file is removed.
    Remove,
}

impl FileAction {
    /// Whether the action writes exactly this text.
    pub open spec fn writes(self, text: Seq<char>) -> bool {
        self matches FileAction::Write(t) && t@ == text
    }
}

/// The outcome of one operation: the reply, and the action on the file.
#[derive(Debug, PartialEq)]
pub struct Step<T> {
    pub reply: Result<T, AppError>,
    pub action: FileAction,
}

impl<T> Step<T> {
    /// Whether the reply is the failure to read or to write a document.
    pub open spec fn fails_to_parse(self) -> bool {
        self.reply matches Err(e) && e is JsonParse
    }
}

/// One page of a collection, with the numbers that describe it.
#[derive(Debug, PartialEq)]
pub struct ApiResponse {
    /// The records of the page, in file order.
    pub data: Vec<Json>,
    /// The number of records in the whole collection.
    pub total: usize,
    /// The page length that was asked for, or the default.
    pub limit: usize,
    /// The offset that was asked for, or the default.
    pub skip: usize,
}

/// The characters of the text that was read from a collection's file.
pub open spec fn stored_text(stored: Option<&str>) -> Option<Seq<char>> {
    match stored {
        Some(text) => Some(text@),
        None => None,
    }
}

/// The text of a collection without records.
pub open spec fn empty_text() -> Seq<char> {
    seq!['[', ']']
}

/// The records that a stored text holds: those of the array that it reads
/// as. A text that is no JSON, or whose root is no array, holds none.
pub open spec fn stored_records(text: Seq<char>) -> Option<Seq<JsonV>> {
    match parsed(text) {
        Some(JsonV::Array(items)) => Some(items),
        _ => None,
    }
}

/// The text that is stored for a collection: its records as one
/// pretty-printed JSON array.
pub open spec fn document_text(records: Seq<JsonV>) -> Option<Seq<char>> {
    printed(JsonV::Array(records))
}

/// The text `[]`, with which a collection's file is created on first access.
pub fn create_empty_json_file() -> (action: FileAction)
    ensures
        action.writes(empty_text()),
{
    proof {
        reveal_strlit("[]");
    }
    let text = String::from_str("[]");
    assert(text@ =~= empty_text());
    FileAction::Write(text)
}

/// Reads the records of a stored text.
///
/// Succeeds exactly where the text is JSON with an array at its root; any
/// other text is a [`AppError::JsonParse`].
pub fn load_records(text: &str) -> (r: Result<Vec<Json>, AppError>)
    ensures
        match r {
            Ok(records) => stored_records(text@) == Some(values_view(records@)),
            Err(e) => stored_records(text@) is None && e is JsonParse,
        },
{
    match convert_string_to_json(text) {
        Ok(Json::Array(items)) => {
            proof {
                lemma_array_view(items);
            }
            Ok(items)
        },
        Ok(other) => {
            assert(!(other@ is Array)) by {
                reveal_with_fuel(<Json as View>::view, 2);
            }
            Err(AppError::JsonParse(String::from_str("the root of the document is not an array")))
        },
        Err(e) => Err(e),
    }
}

/// Reads the payload of a request.
///
/// Succeeds exactly on the texts that the parser accepts, with the value it
/// reads; every other text is a [`AppError::ParseError`].
pub fn parse_payload(body: &str) -> (r: Result<Json, AppError>)
    ensures
        match r {
            Ok(value) => parsed(body@) == Some(value@),
            Err(e) => parsed(body@) is None && e is ParseError,
        },
{
    match convert_string_to_json(body) {
        Ok(value) => Ok(value),
        Err(e) => Err(AppError::ParseError(e.message())),
    }
}

/// Writes the records as the text to store.
///
/// Succeeds exactly where the printer accepts the array of the records.
pub fn save_records(records: Vec<Json>) -> (r: Result<String, AppError>)
    ensures
        match r {
            Ok(text) => document_text(values_view(records@)) == Some(text@),
            Err(e) => document_text(values_view(records@)) is None && e is JsonParse,
        },
{
    proof {
        lemma_array_view(records);
    }
    convert_json_to_string(&Json::Array(records))
}

/// Lists one page of a collection.
///
/// Without a file the collection is empty and its file is created as `[]`.
/// A stored text that holds no records is a [`AppError::JsonParse`]. Else the
/// reply holds the page of the records that `skip` (by default 0) and `limit`
/// (by default 30) select, both clamped, and the number of all records; the
/// file is left alone.
pub fn get_all(stored: Option<&str>, skip: Option<usize>, limit: Option<usize>) -> (step: Step<
    ApiResponse,
>)
    ensures
        match stored {
            None => step.action.writes(empty_text()) && (step.reply matches Ok(page)
                && page.data@.len() == 0 && page.total == 0),
            Some(text) => step.action is Keep && match stored_records(text@) {
                None => step.fails_to_parse(),
                Some(records) => step.reply matches Ok(page) && page.total == records.len()
                    && values_view(page.data@) == self::page(
                    records,
                    page.skip as nat,
                    page.limit as nat,
                ),
            },
        },
        step.reply matches Ok(page) ==> page.skip == skip.unwrap_or(DEFAULT_SKIP) && page.limit
            == limit.unwrap_or(DEFAULT_LIMIT),
{
    let skip = match skip {
        Some(n) => n,
        None => DEFAULT_SKIP,
    };
    let limit = match limit {
        Some(n) => n,
        None => DEFAULT_LIMIT,
    };
    match stored {
        None => Step {
            reply: Ok(ApiResponse { data: Vec::new(), total: 0, limit, skip }),
            action: create_empty_json_file(),
        },
        Some(text) => match load_records(text) {
            Err(e) => Step { reply: Err(e), action: FileAction::Keep },
            Ok(records) => {
                let data = list_page(&records, skip, limit);
                assert(values_view(records@).len() == records.len());
                Step {
                    reply: Ok(ApiResponse { data, total: records.len(), limit, skip }),
                    action: FileAction::Keep,
                }
            },
        },
    }
}

/// Looks one record up by its id.
///
/// Without a file the collection is empty: its file is created as `[]` and
/// the record is not found. A stored text that holds no records is a
/// [`AppError::JsonParse`]. Else the reply is the first record that carries
/// the id, or [`AppError::ItemNotFound`] with the id where none does; the
/// file is left alone.
pub fn get_item_by_id(stored: Option<&str>, id: u64) -> (step: Step<Json>)
    ensures
        match stored {
            None => step.action.writes(empty_text()) && step.reply == Err::<Json, AppError>(
                AppError::ItemNotFound(id),
            ),
            Some(text) => step.action is Keep && match stored_records(text@) {
                None => step.fails_to_parse(),
                Some(records) => match lookup(records, id) {
                    Some(record) => step.reply matches Ok(found) && found@ == record,
                    None => step.reply == Err::<Json, AppError>(AppError::ItemNotFound(id)),
                },
            },
        },
{
    match stored {
        None => Step {
            reply: Err(AppError::ItemNotFound(id)),
            action: create_empty_json_file(),
        },
        Some(text) => match load_records(text) {
            Err(e) => Step { reply: Err(e), action: FileAction::Keep },
            Ok(records) => match find_by_id(&records, id) {
                Some(i) => {
                    proof {
                        lemma_position(values_view(records@), id, i as int);
                    }
                    Step { reply: Ok(records[i].clone()), action: FileAction::Keep }
                },
                None => Step {
                    reply: Err(AppError::ItemNotFound(id)),
                    action: FileAction::Keep,
                },
            },
        },
    }
}

/// What inserting `payload` into the stored collection comes to when
/// `candidate` is the id proposed for a record without one.
///
/// A payload that is no object is refused and nothing is written. Without a
/// file the collection is empty. A stored text that holds no records is a
/// parse error. Else the record is appended, with a fresh id where it brought
/// none, the reply is the stored record and the whole collection is written.
/// Should the printer refuse the new collection, nothing but the `[]` of a
/// collection that had no file is written.
pub open spec fn is_insert_step(
    stored: Option<Seq<char>>,
    payload: JsonV,
    candidate: u64,
    step: Step<Json>,
) -> bool {
    let before = match stored {
        None => Some(Seq::<JsonV>::empty()),
        Some(text) => stored_records(text),
    };
    if !(payload is Object) {
        step.action is Keep && (step.reply matches Err(e) && e is ParseError)
    } else {
        match before {
            None => step.action is Keep && step.fails_to_parse(),
            Some(records) => {
                let record = assigned(records, payload, candidate);
                match document_text(records.push(record)) {
                    Some(text) => step.action.writes(text) && (step.reply matches Ok(r) && r@
                        == record),
                    None => step.fails_to_parse() && if stored is None {
                        step.action.writes(empty_text())
                    } else {
                        step.action is Keep
                    },
                }
            },
        }
    }
}

/// Inserts a record, with `candidate` as the id proposed for a record that
/// brings none. The step is the one that [`is_insert_step`] describes.
pub fn add_item_with_candidate(stored: Option<&str>, new_item: Json, candidate: u64) -> (step:
    Step<Json>)
    ensures
        is_insert_step(stored_text(stored), new_item@, candidate, step),
{
    let is_object = match &new_item {
        Json::Object(_) => true,
        _ => false,
    };
    assert(is_object == (new_item@ is Object)) by {
        reveal_with_fuel(<Json as View>::view, 2);
    }
    if !is_object {
        return Step {
            reply: Err(AppError::ParseError(String::from_str("the payload is not a JSON object"))),
            action: FileAction::Keep,
        };
    }
    let loaded = match stored {
        None => Ok(Vec::new()),
        Some(text) => load_records(text),
    };
    match loaded {
        Err(e) => Step { reply: Err(e), action: FileAction::Keep },
        Ok(mut records) => {
            assert(stored is None ==> values_view(records@) =~= Seq::<JsonV>::empty());
            let record = insert_record(&mut records, new_item, candidate);
            match save_records(records) {
                Ok(text) => Step { reply: Ok(record), action: FileAction::Write(text) },
                Err(e) => Step {
                    reply: Err(e),
                    action: if stored.is_none() {
                        create_empty_json_file()
                    } else {
                        FileAction::Keep
                    },
                },
            }
        },
    }
}

/// Inserts a record. A record that brings no `id` gets one: a number drawn at
/// random where no record carries it yet, else the smallest id that no record
/// carries. The step is an insert step for some candidate that can be drawn.
pub fn add_item_to_json_file(stored: Option<&str>, new_item: Json) -> (step: Step<Json>)
    ensures
        exists|candidate: u64|
            MIN_RANDOM_ID <= candidate <= MAX_RANDOM_ID && #[trigger] is_insert_step(
                stored_text(stored),
                new_item@,
                candidate,
                step,
            ),
{
    let candidate = generate_random_id();
    add_item_with_candidate(stored, new_item, candidate)
}

/// Replaces the first record that carries the id by the payload, verbatim.
///
/// Without a file nothing is found and none is made. A stored text that holds
/// no records is a [`AppError::JsonParse`]. Where no record carries the id the
/// reply is `false` and nothing is written. Else the payload takes the
/// record's place, whatever id the payload itself carries, the whole
/// collection is written and the reply is `true`.
pub fn update_json_file(stored: Option<&str>, id: u64, updated_item: &Json) -> (step: Step<bool>)
    ensures
        match stored {
            None => step.action is Keep && step.reply == Ok::<bool, AppError>(false),
            Some(text) => match stored_records(text@) {
                None => step.action is Keep && step.fails_to_parse(),
                Some(records) => if !holds_id(records, id) {
                    step.action is Keep && step.reply == Ok::<bool, AppError>(false)
                } else {
                    match document_text(replaced(records, id, updated_item@)) {
                        Some(after) => step.action.writes(after) && step.reply == Ok::<
                            bool,
                            AppError,
                        >(true),
                        None => step.action is Keep && step.fails_to_parse(),
                    }
                },
            },
        },
{
    match stored {
        None => Step { reply: Ok(false), action: FileAction::Keep },
        Some(text) => match load_records(text) {
            Err(e) => Step { reply: Err(e), action: FileAction::Keep },
            Ok(mut records) => {
                if !replace_by_id(&mut records, id, updated_item.clone()) {
                    return Step { reply: Ok(false), action: FileAction::Keep };
                }
                match save_records(records) {
                    Ok(after) => Step { reply: Ok(true), action: FileAction::Write(after) },
                    Err(e) => Step { reply: Err(e), action: FileAction::Keep },
                }
            },
        },
    }
}

/// Removes every record that carries the id.
///
/// Without a file nothing is found and none is made. A stored text that holds
/// no records is a [`AppError::JsonParse`]. Else the collection without the
/// records that carry the id is written, also where there was none, and the
/// reply tells whether there was one.
pub fn delete_from_json_file(stored: Option<&str>, id: u64) -> (step: Step<bool>)
    ensures
        match stored {
            None => step.action is Keep && step.reply == Ok::<bool, AppError>(false),
            Some(text) => match stored_records(text@) {
                None => step.action is Keep && step.fails_to_parse(),
                Some(records) => match document_text(without_id(records, id)) {
                    Some(after) => step.action.writes(after) && step.reply == Ok::<
                        bool,
                        AppError,
                    >(holds_id(records, id)),
                    None => step.action is Keep && step.fails_to_parse(),
                },
            },
        },
{
    match stored {
        None => Step { reply: Ok(false), action: FileAction::Keep },
        Some(text) => match load_records(text) {
            Err(e) => Step { reply: Err(e), action: FileAction::Keep },
            Ok(records) => {
                let (kept, found) = remove_by_id(&records, id);
                match save_records(kept) {
                    Ok(after) => Step { reply: Ok(found), action: FileAction::Write(after) },
                    Err(e) => Step { reply: Err(e), action: FileAction::Keep },
                }
            },
        },
    }
}

/// Deletes a whole collection: its file is removed. A collection without a
/// file is a [`AppError::CollectionNotFound`] with the collection's name.
pub fn delete_collection_sync(name: &str, exists: bool) -> (step: Step<()>)
    ensures
        exists ==> step.action is Remove && step.reply is Ok,
        !exists ==> step.action is Keep && (step.reply matches Err(
            AppError::CollectionNotFound(n),
        ) && n@ == name@),
{
    if exists {
        Step { reply: Ok(()), action: FileAction::Remove }
    } else {
        Step {
            reply: Err(AppError::CollectionNotFound(String::from_str(name))),
            action: FileAction::Keep,
        }
    }
}

} // verus!
