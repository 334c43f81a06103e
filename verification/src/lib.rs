//! Storage engine of a mock REST server: every collection is one JSON array,
//! kept as a single text document, and served through generic create, read,
//! update and delete operations keyed by a numeric `id` member.
//!
//! The engine is pure: it receives the stored text and hands back the reply
//! together with the text that has to be stored next. Reading and writing the
//! files, and the network, belong to the program around it.
//!
//! - [`json`]: the JSON value and its view;
//! - [`codec`]: text to value and back, done by `serde_json`;
//! - [`records`]: the operations on the records of one collection;
//! - [`laws`]: what holds of those operations, proved;
//! - [`engine`]: the operations on a stored collection;
//! - [`ids`]: random candidates for new ids;
//! - [`paths`]: where a collection is stored;
//! - [`guard`]: exclusive access to a collection;
//! - [`protocol`]: the inserts of several callers under the guard;
//! - [`replies`]: status and body for each outcome;
//! - [`errors`]: the failures.

pub mod codec;
pub mod engine;
pub mod errors;
pub mod guard;
pub mod ids;
pub mod json;
pub mod laws;
pub mod paths;
pub mod protocol;
pub mod records;
pub mod replies;
