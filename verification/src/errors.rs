//! What the library reports when an operation cannot be carried out.

use vstd::prelude::*;
use vstd::string::*;
use crate::text::chars_of;
use crate::text::contains_text;
use crate::text::decimal;
use crate::text::decimal_digits;
use crate::text::find_from;
use crate::text::first_match;
use crate::text::lemma_first_match;
use crate::text::lemma_first_match_found;
use crate::text::slice_of;
use crate::text::string_of;
use crate::text::trim;
use crate::text::trim_bounds;

verus! {

/// Main error type. A variant that stands for a failure of a collaborator
/// (file system, storage engine, inference runtime, decoders) carries the
/// collaborator's own text.
#[derive(Debug)]
pub enum Error {
    /// I/O error.
    Io(String),
    /// Storage engine error.
    SQLite(String),
    /// Inference error.
    Inference(String),
    /// Tokenization error.
    Tokenization(String),
    /// Inference session error.
    Onnx(String),
    /// Model hub error.
    HfHub(String),
    /// JSON error.
    Json(String),
    /// Configuration error.
    Config(String),
    /// Invalid date or time.
    Chrono(String),
    /// Invalid input.
    InvalidInput(String),
    /// Empty input cannot be processed.
    EmptyInput,
    /// Input exceeds the maximum allowed length.
    InputTooLong { max_length: usize, actual_length: usize },
    /// A stored record holds a timestamp that cannot be read.
    InvalidTimestamp { id: String, timestamp: String, error: String },
    /// Memory not found.
    NotFound(String),
    /// An error of the record layer, by its text.
    SqliteModule(String),
    /// A parameter outside its range.
    Validation(String),
}

impl Error {
    /// The text of this error.
    pub open spec fn message_spec(&self) -> Seq<char> {
        match self {
            Error::Io(m) => "I/O error: "@ + m@,
            Error::SQLite(_) => "Database error"@,
            Error::Inference(m) => "Inference error: "@ + m@,
            Error::Tokenization(m) => "Tokenization error: "@ + m@,
            Error::Onnx(m) => "ONNX session error: "@ + m@,
            Error::HfHub(m) => "HuggingFace Hub error: "@ + m@,
            Error::Json(m) => "JSON error: "@ + m@,
            Error::Config(m) => "Configuration error: "@ + m@,
            Error::Chrono(m) => "Invalid date/time: "@ + m@,
            Error::InvalidInput(m) => "Invalid input: "@ + m@,
            Error::EmptyInput => "Input cannot be empty"@,
            Error::InputTooLong { max_length, actual_length } => "Input too long: "@
                + decimal_digits(*actual_length as nat) + " characters (max: "@ + decimal_digits(
                *max_length as nat,
            ) + ")"@,
            Error::InvalidTimestamp { id, timestamp, error } => "Invalid timestamp for memory "@
                + id@ + ": "@ + timestamp@ + " ("@ + error@ + ")"@,
            Error::NotFound(m) => "Memory not found: "@ + m@,
            Error::SqliteModule(_) => "Database error"@,
            Error::Validation(m) => "Validation error: "@ + m@,
        }
    }

    /// The text of this error, for display.
    pub fn message(&self) -> (r: String)
        ensures
            r@ == self.message_spec(),
    {
        match self {
            Error::Io(m) => String::from_str("I/O error: ").concat(m.as_str()),
            Error::SQLite(_) => String::from_str("Database error"),
            Error::Inference(m) => String::from_str("Inference error: ").concat(m.as_str()),
            Error::Tokenization(m) => String::from_str("Tokenization error: ").concat(m.as_str()),
            Error::Onnx(m) => String::from_str("ONNX session error: ").concat(m.as_str()),
            Error::HfHub(m) => String::from_str("HuggingFace Hub error: ").concat(m.as_str()),
            Error::Json(m) => String::from_str("JSON error: ").concat(m.as_str()),
            Error::Config(m) => String::from_str("Configuration error: ").concat(m.as_str()),
            Error::Chrono(m) => String::from_str("Invalid date/time: ").concat(m.as_str()),
            Error::InvalidInput(m) => String::from_str("Invalid input: ").concat(m.as_str()),
            Error::EmptyInput => String::from_str("Input cannot be empty"),
            Error::InputTooLong { max_length, actual_length } => {
                let mut t = String::from_str("Input too long: ");
                t.append(decimal(*actual_length).as_str());
                t.append(" characters (max: ");
                t.append(decimal(*max_length).as_str());
                t.append(")");
                t
            },
            Error::InvalidTimestamp { id, timestamp, error } => {
                let mut t = String::from_str("Invalid timestamp for memory ");
                t.append(id.as_str());
                t.append(": ");
                t.append(timestamp.as_str());
                t.append(" (");
                t.append(error.as_str());
                t.append(")");
                t
            },
            Error::NotFound(m) => String::from_str("Memory not found: ").concat(m.as_str()),
            Error::SqliteModule(_) => String::from_str("Database error"),
            Error::Validation(m) => String::from_str("Validation error: ").concat(m.as_str()),
        }
    }

    /// The id that a text of the record layer reports as missing: what
    /// follows the first "No memory found with id: ", up to the next one,
    /// trimmed; "unknown" where the text does not hold those words in full.
    pub open spec fn missing_id(text: Seq<char>) -> Seq<char> {
        let pat = "No memory found with id: "@;
        let at = first_match(text, pat, 0);
        if at < 0 {
            "unknown"@
        } else {
            let rest = text.skip(at + pat.len());
            let end = first_match(rest, pat, 0);
            trim(
                if end < 0 {
                    rest
                } else {
                    rest.take(end)
                },
            )
        }
    }

    /// `self` is what an error of the record layer with the text `text`
    /// becomes: `NotFound` with the missing id where the text reports one,
    /// else `SqliteModule` with the text.
    pub open spec fn is_conversion_of(&self, text: Seq<char>) -> bool {
        if contains_text(text, "No memory found with id:"@) {
            self matches Error::NotFound(id) && id@ == Self::missing_id(text)
        } else {
            self matches Error::SqliteModule(m) && m@ == text
        }
    }

    /// Converts an error of the record layer, by its text.
    pub fn from_sqlite(err: &crate::sqlite::Error) -> (r: Error)
        ensures
            r.is_conversion_of(err.message_spec()),
    {
        let text = err.message();
        let chars = chars_of(text.as_str());
        let marker = chars_of("No memory found with id:");
        if find_from(&chars, &marker, 0).is_none() {
            return Error::SqliteModule(text);
        }
        let pat = chars_of("No memory found with id: ");
        match find_from(&chars, &pat, 0) {
            None => Error::NotFound(String::from_str("unknown")),
            Some(at) => {
                let total = chars.len();
                proof {
                    lemma_first_match(chars@, pat@, 0);
                    assert(at + pat@.len() <= total);
                }
                let rest = slice_of(&chars, at + pat.len(), total);
                assert(rest@ == chars@.skip(at + pat@.len()));
                let end = match find_from(&rest, &pat, 0) {
                    None => rest.len(),
                    Some(e) => {
                        proof {
                            lemma_first_match(rest@, pat@, 0);
                        }
                        e
                    },
                };
                let part = slice_of(&rest, 0, end);
                assert(rest@.subrange(0, rest@.len() as int) =~= rest@);
                let (lo, hi) = trim_bounds(&part);
                let id = slice_of(&part, lo, hi);
                Error::NotFound(string_of(&id))
            },
        }
    }
}

/// What the proof below needs of the three texts: their lengths, that the
/// marker begins the report, and that the report's first letter does not
/// occur in the prefix.
proof fn lemma_report_texts()
    ensures
        "Database error: "@.len() == 16,
        "No memory found with id: "@.len() == 25,
        "No memory found with id:"@ == "No memory found with id: "@.take(24),
        "No memory found with id: "@[0] == 'N',
        forall|k: int| 0 <= k < 16 ==> #[trigger] "Database error: "@[k] != 'N',
{
    reveal_strlit("Database error: ");
    reveal_strlit("No memory found with id: ");
    reveal_strlit("No memory found with id:");
    assert("No memory found with id:"@ =~= "No memory found with id: "@.take(24));
}

/// An update that found no memory is reported as `NotFound` with the id that
/// was asked for, trimmed, provided the id does not itself hold the words
/// "No memory found with id: ".
pub proof fn lemma_missing_update_is_not_found(id: Seq<char>, converted: Error)
    requires
        first_match(id, "No memory found with id: "@, 0) == -1,
        converted.is_conversion_of(
            "Database error: "@ + crate::sqlite::missing_memory_text(id),
        ),
    ensures
        converted matches Error::NotFound(found) && found@ == trim(id),
{
    lemma_report_texts();
    let head = "Database error: "@;
    let pat = "No memory found with id: "@;
    let marker = "No memory found with id:"@;
    let text = head + crate::sqlite::missing_memory_text(id);
    assert(text =~= head + pat + id);
    assert(text.subrange(16, 41) =~= pat);
    assert(text.subrange(16, 40) =~= pat.take(24));
    lemma_first_match_found(text, marker, 0, 16);
    lemma_first_match_found(text, pat, 0, 16);
    lemma_first_match(text, pat, 0);
    let at = first_match(text, pat, 0);
    assert(at == 16) by {
        if at < 16 {
            let window = text.subrange(at, at + 25);
            assert(window[0] == text[at]);
            assert(text[at] == head[at]);
        }
    }
    assert(text.skip(41) =~= id);
}

} // verus!
