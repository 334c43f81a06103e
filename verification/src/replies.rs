//! What a client is told: the status and the body for each outcome of the
//! engine. A failure that says "not found" becomes a 404 with an empty
//! object; any other failure becomes a 500 with the failure's message.

use vstd::prelude::*;
use crate::engine::ApiResponse;
use crate::errors::AppError;
use crate::json::{
    lemma_array_view, lemma_object_view, members_view, values_view, Json, JsonNumber, JsonV,
};

verus! {

pub const OK: u16 = 200;

pub const CREATED: u16 = 201;

pub const NO_CONTENT: u16 = 204;

pub const SEE_OTHER: u16 = 303;

pub const NOT_FOUND: u16 = 404;

pub const INTERNAL_SERVER_ERROR: u16 = 500;

/// The body of a reply.
#[derive(Debug, PartialEq)]
pub enum Body {
    /// A JSON document.
    Json(Json),
    /// Plain text.
    Text(String),
    /// No content, and the place to go to instead.
    Redirect(String),
}

/// The reply to one request.
#[derive(Debug, PartialEq)]
pub struct Reply {
    pub status: u16,
    pub body: Body,
}

impl Reply {
    /// Whether the reply has this status and this JSON document as its body.
    pub open spec fn is_json(self, status: u16, body: JsonV) -> bool {
        self.status == status && (self.body matches Body::Json(value) && value@ == body)
    }

    /// Whether the reply has this status and this text as its body.
    pub open spec fn is_text(self, status: u16, body: Seq<char>) -> bool {
        self.status == status && (self.body matches Body::Text(text) && text@ == body)
    }

    /// Whether the reply sends the client to this place.
    pub open spec fn is_redirect(self, place: Seq<char>) -> bool {
        self.status == SEE_OTHER && (self.body matches Body::Redirect(text) && text@ == place)
    }

    /// Whether the reply is the one that tells of this failure.
    pub open spec fn tells(self, e: AppError) -> bool {
        if e.is_not_found_spec() {
            self.is_json(NOT_FOUND, empty_object())
        } else {
            self.is_text(INTERNAL_SERVER_ERROR, e.message_spec())
        }
    }
}

/// The object without members.
pub open spec fn empty_object() -> JsonV {
    JsonV::Object(Seq::empty())
}

/// The document that lists one page: the members `data`, `total`, `limit` and
/// `skip`, in this order.
pub open spec fn page_document(data: Seq<JsonV>, total: usize, limit: usize, skip: usize) -> JsonV {
    JsonV::Object(
        seq![
            ("data"@, JsonV::Array(data)),
            ("total"@, JsonV::Number(JsonNumber::Unsigned(total as u64))),
            ("limit"@, JsonV::Number(JsonNumber::Unsigned(limit as u64))),
            ("skip"@, JsonV::Number(JsonNumber::Unsigned(skip as u64))),
        ],
    )
}

/// The object without members.
pub fn no_content() -> (body: Json)
    ensures
        body@ == empty_object(),
{
    let members: Vec<(String, Json)> = Vec::new();
    proof {
        lemma_object_view(members);
        assert(members_view(members@) =~= Seq::empty());
    }
    Json::Object(members)
}

impl ApiResponse {
    /// The page as a JSON document.
    pub fn into_json(self) -> (document: Json)
        ensures
            document@ == page_document(values_view(self.data@), self.total, self.limit, self.skip),
    {
        let ghost data = self.data;
        let total = Json::Number(JsonNumber::Unsigned(self.total as u64));
        let limit = Json::Number(JsonNumber::Unsigned(self.limit as u64));
        let skip = Json::Number(JsonNumber::Unsigned(self.skip as u64));
        let mut members: Vec<(String, Json)> = Vec::new();
        members.push((String::from_str("data"), Json::Array(self.data)));
        members.push((String::from_str("total"), total));
        members.push((String::from_str("limit"), limit));
        members.push((String::from_str("skip"), skip));
        proof {
            lemma_array_view(data);
            lemma_object_view(members);
            assert(members_view(members@) =~= page_document(
                values_view(data@),
                self.total,
                self.limit,
                self.skip,
            )->Object_0);
        }
        Json::Object(members)
    }
}

/// The reply that tells of a failure: a 404 with an empty object where the
/// failure says "not found", else a 500 with the failure's message.
pub fn failure(e: &AppError) -> (reply: Reply)
    ensures
        reply.tells(*e),
{
    if e.is_not_found() {
        Reply { status: NOT_FOUND, body: Body::Json(no_content()) }
    } else {
        Reply { status: INTERNAL_SERVER_ERROR, body: Body::Text(e.message()) }
    }
}

/// The reply to a listing: the page as a document, with status 200.
pub fn page_reply(outcome: Result<ApiResponse, AppError>) -> (reply: Reply)
    ensures
        match outcome {
            Ok(page) => reply.is_json(
                OK,
                page_document(values_view(page.data@), page.total, page.limit, page.skip),
            ),
            Err(e) => reply.tells(e),
        },
{
    match outcome {
        Ok(page) => Reply { status: OK, body: Body::Json(page.into_json()) },
        Err(e) => failure(&e),
    }
}

/// The reply to a lookup: the record, with status 200.
pub fn get_one(outcome: Result<Json, AppError>) -> (reply: Reply)
    ensures
        match outcome {
            Ok(record) => reply.is_json(OK, record@),
            Err(e) => reply.tells(e),
        },
{
    match outcome {
        Ok(record) => Reply { status: OK, body: Body::Json(record) },
        Err(e) => failure(&e),
    }
}

/// The reply to an insert: the stored record, with status 201.
pub fn add_one(outcome: Result<Json, AppError>) -> (reply: Reply)
    ensures
        match outcome {
            Ok(record) => reply.is_json(CREATED, record@),
            Err(e) => reply.tells(e),
        },
{
    match outcome {
        Ok(record) => Reply { status: CREATED, body: Body::Json(record) },
        Err(e) => failure(&e),
    }
}

/// The reply to an update: the payload with status 200 where a record was
/// replaced, a 404 with an empty object where none carried the id.
pub fn update_one(outcome: Result<bool, AppError>, payload: Json) -> (reply: Reply)
    ensures
        match outcome {
            Ok(true) => reply.is_json(OK, payload@),
            Ok(false) => reply.is_json(NOT_FOUND, empty_object()),
            Err(e) => reply.tells(e),
        },
{
    match outcome {
        Ok(true) => Reply { status: OK, body: Body::Json(payload) },
        Ok(false) => Reply { status: NOT_FOUND, body: Body::Json(no_content()) },
        Err(e) => failure(&e),
    }
}

/// The reply to a delete: an empty object, with status 204 where a record
/// was removed and 404 where none carried the id.
pub fn delete_one(outcome: Result<bool, AppError>) -> (reply: Reply)
    ensures
        match outcome {
            Ok(true) => reply.is_json(NO_CONTENT, empty_object()),
            Ok(false) => reply.is_json(NOT_FOUND, empty_object()),
            Err(e) => reply.tells(e),
        },
{
    match outcome {
        Ok(true) => Reply { status: NO_CONTENT, body: Body::Json(no_content()) },
        Ok(false) => Reply { status: NOT_FOUND, body: Body::Json(no_content()) },
        Err(e) => failure(&e),
    }
}

/// The reply to the deletion of a collection: the client is sent back to the
/// front page.
pub fn delete_collection(outcome: Result<(), AppError>) -> (reply: Reply)
    ensures
        match outcome {
            Ok(_) => reply.is_redirect(seq!['/']),
            Err(e) => reply.tells(e),
        },
{
    match outcome {
        Ok(_) => {
            proof {
                reveal_strlit("/");
            }
            let place = String::from_str("/");
            assert(place@ =~= seq!['/']);
            Reply { status: SEE_OTHER, body: Body::Redirect(place) }
        },
        Err(e) => failure(&e),
    }
}

} // verus!
