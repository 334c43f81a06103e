//! What an operation of the engine can fail with, and how a failure reads.

use vstd::prelude::*;

verus! {

/// The failures that the engine reports to its caller.
#[derive(Debug, Clone, PartialEq, Eq)]
pub enum AppError {
    /// The file system failed; the text says how.
    Io(String),
    /// The stored document is not valid JSON, or its root is not an array.
    JsonParse(String),
    /// The request's payload cannot be used as a record.
    ParseError(String),
    /// No record of the collection carries this id.
    ItemNotFound(u64),
    /// The collection to delete has no file.
    CollectionNotFound(String),
}

/// The character of a decimal digit.
pub open spec fn digit_char(d: nat) -> char {
    if d == 0 {
        '0'
    } else if d == 1 {
        '1'
    } else if d == 2 {
        '2'
    } else if d == 3 {
        '3'
    } else if d == 4 {
        '4'
    } else if d == 5 {
        '5'
    } else if d == 6 {
        '6'
    } else if d == 7 {
        '7'
    } else if d == 8 {
        '8'
    } else {
        '9'
    }
}

/// A number in decimal, without leading zeros.
pub open spec fn decimal(n: nat) -> Seq<char>
    decreases n,
{
    if n < 10 {
        seq![digit_char(n)]
    } else {
        decimal(n / 10).push(digit_char(n % 10))
    }
}

/// One backtick, which quotes a cause inside a message.
pub open spec fn tick() -> Seq<char> {
    seq!['`']
}

impl AppError {
    /// Whether the failure says that what was asked for does not exist.
    pub open spec fn is_not_found_spec(self) -> bool {
        self is ItemNotFound || self is CollectionNotFound
    }

    /// The message of the failure.
    pub open spec fn message_spec(self) -> Seq<char> {
        match self {
            AppError::Io(cause) => "io: "@ + tick() + cause@ + tick(),
            AppError::JsonParse(cause) => "json parsing: "@ + tick() + cause@ + tick(),
            AppError::ParseError(cause) => "error parsing request: "@ + tick() + cause@ + tick(),
            AppError::ItemNotFound(id) => "Item not found with ID: "@ + decimal(id as nat),
            AppError::CollectionNotFound(name) => "Collection not found: "@ + name@,
        }
    }

    /// Whether the failure says that what was asked for does not exist.
    pub fn is_not_found(&self) -> (r: bool)
        ensures
            r == self.is_not_found_spec(),
    {
        match self {
            AppError::ItemNotFound(_) => true,
            AppError::CollectionNotFound(_) => true,
            _ => false,
        }
    }

    /// The message of the failure, as it is shown to a client.
    pub fn message(&self) -> (text: String)
        ensures
            text@ == self.message_spec(),
    {
        proof {
            reveal_strlit("`");
        }
        match self {
            AppError::Io(cause) => quoted("io: ", cause),
            AppError::JsonParse(cause) => quoted("json parsing: ", cause),
            AppError::ParseError(cause) => quoted("error parsing request: ", cause),
            AppError::ItemNotFound(id) => {
                let mut text = String::from_str("Item not found with ID: ");
                let number = decimal_text(*id);
                text.append(number.as_str());
                text
            },
            AppError::CollectionNotFound(name) => {
                let mut text = String::from_str("Collection not found: ");
                text.append(name.as_str());
                text
            },
        }
    }
}

/// A head followed by the cause between backticks.
fn quoted(head: &str, cause: &String) -> (text: String)
    ensures
        text@ == head@ + tick() + cause@ + tick(),
{
    proof {
        reveal_strlit("`");
    }
    assert("`"@ =~= tick());
    let mut text = String::from_str(head);
    text.append("`");
    text.append(cause.as_str());
    text.append("`");
    text
}

/// The text of one decimal digit.
fn digit_text(d: u64) -> (text: &'static str)
    requires
        d < 10,
    ensures
        text@ == seq![digit_char(d as nat)],
{
    proof {
        reveal_strlit("0");
        reveal_strlit("1");
        reveal_strlit("2");
        reveal_strlit("3");
        reveal_strlit("4");
        reveal_strlit("5");
        reveal_strlit("6");
        reveal_strlit("7");
        reveal_strlit("8");
        reveal_strlit("9");
    }
    let text = if d == 0 {
        "0"
    } else if d == 1 {
        "1"
    } else if d == 2 {
        "2"
    } else if d == 3 {
        "3"
    } else if d == 4 {
        "4"
    } else if d == 5 {
        "5"
    } else if d == 6 {
        "6"
    } else if d == 7 {
        "7"
    } else if d == 8 {
        "8"
    } else {
        "9"
    };
    assert(text@ =~= seq![digit_char(d as nat)]);
    text
}

/// Writes a number in decimal.
pub fn decimal_text(n: u64) -> (text: String)
    ensures
        text@ == decimal(n as nat),
    decreases n,
{
    if n < 10 {
        String::from_str(digit_text(n))
    } else {
        let mut text = decimal_text(n / 10);
        text.append(digit_text(n % 10));
        assert(text@ =~= decimal(n as nat));
        text
    }
}

} // verus!
