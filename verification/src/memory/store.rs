//! Input validation for the memory store.

use vstd::prelude::*;
use vstd::string::*;
use crate::errors::Error;
use crate::sqlite::search::limit_exceeded_message;
use crate::sqlite::search::limit_exceeded_text;
use crate::text::chars_of;
use crate::text::lemma_trim_empty_iff_blank;
use crate::text::is_blank;
use crate::text::trim;
use crate::text::trim_bounds;

verus! {

/// Maximum allowed input length, in characters.
pub const MAX_INPUT_LENGTH: usize = 100_000;

/// Maximum allowed limit for search and list operations.
pub const MAX_SEARCH_LIMIT: usize = 10_000;

/// Accepts a limit from 1 to `MAX_SEARCH_LIMIT`; rejects zero and everything
/// above as invalid input.
pub fn validate_limit(limit: usize) -> (r: Result<(), Error>)
    ensures
        0 < limit <= MAX_SEARCH_LIMIT <==> r is Ok,
        limit == 0 ==> (r matches Err(Error::InvalidInput(msg)) && msg@
            == "Limit must be greater than 0"@),
        limit > MAX_SEARCH_LIMIT ==> (r matches Err(Error::InvalidInput(msg)) && msg@
            == limit_exceeded_text(limit)),
{
    if limit == 0 {
        return Err(Error::InvalidInput(String::from_str("Limit must be greater than 0")));
    }
    if limit > MAX_SEARCH_LIMIT {
        return Err(Error::InvalidInput(limit_exceeded_message(limit)));
    }
    Ok(())
}

/// A text that can be stored or searched for: after trimming it holds at
/// least one character and at most `MAX_INPUT_LENGTH`.
pub open spec fn is_valid_input(text: Seq<char>) -> bool {
    0 < trim(text).len() <= MAX_INPUT_LENGTH
}

/// `e` is the error that the text `text` is rejected with.
pub open spec fn is_input_error(text: Seq<char>, e: Error) -> bool {
    match e {
        Error::EmptyInput => is_blank(text),
        Error::InputTooLong { max_length, actual_length } => {
            &&& max_length == MAX_INPUT_LENGTH
            &&& actual_length == trim(text).len()
            &&& actual_length > MAX_INPUT_LENGTH
        },
        _ => false,
    }
}

/// Accepts a text whose trimmed form holds 1 to `MAX_INPUT_LENGTH` characters.
///
/// A blank text is rejected as empty, a longer one with the length found.
pub fn validate_input_length(text: &str) -> (r: Result<(), Error>)
    ensures
        is_valid_input(text@) <==> r is Ok,
        r matches Err(e) ==> is_input_error(text@, e),
{
    let chars = chars_of(text);
    let (lo, hi) = trim_bounds(&chars);
    proof {
        lemma_trim_empty_iff_blank(text@);
    }
    let length: usize = hi - lo;
    if length == 0 {
        return Err(Error::EmptyInput);
    }
    if length > MAX_INPUT_LENGTH {
        return Err(Error::InputTooLong { max_length: MAX_INPUT_LENGTH, actual_length: length });
    }
    Ok(())
}

/// A path component is bounded by `/` or by the ends of the path.
pub open spec fn is_component(path: Seq<char>, from: int, to: int) -> bool {
    &&& 0 <= from <= to <= path.len()
    &&& from == 0 || path[from - 1] == '/'
    &&& to == path.len() || path[to] == '/'
    &&& forall|k: int| from <= k < to ==> #[trigger] path[k] != '/'
}

/// Some component of the path is `..`, which leads out of the directory it stands in.
pub open spec fn has_parent_component(path: Seq<char>) -> bool {
    exists|from: int|
        #![trigger path[from]]
        is_component(path, from, from + 2) && path[from] == '.' && path[from + 1] == '.'
}

/// Whether some component of `path` is `..`.
pub fn contains_parent_component(path: &str) -> (r: bool)
    ensures
        r == has_parent_component(path@),
{
    let chars = chars_of(path);
    let n = chars.len();
    let mut i: usize = 0;
    while i < n
        invariant
            i <= n == chars@.len(),
            chars@ == path@,
            forall|from: int|
                0 <= from < i ==> !(is_component(path@, from, from + 2) && #[trigger] path@[from]
                    == '.' && path@[from + 1] == '.'),
        decreases n - i,
    {
        if n - i >= 2 && chars[i] == '.' && chars[i + 1] == '.' && (i == 0 || chars[i - 1] == '/')
            && (i + 2 == n || chars[i + 2] == '/') {
            assert(is_component(path@, i as int, i + 2));
            return true;
        }
        i += 1;
    }
    false
}

/// Accepts a database path without a `..` component.
pub fn check_database_path(path: &str) -> (r: Result<(), Error>)
    ensures
        !has_parent_component(path@) <==> r is Ok,
        has_parent_component(path@) ==> (r matches Err(Error::Config(msg)) && msg@
            == "Invalid database path: contains '..' which may escape the intended directory"@),
{
    if contains_parent_component(path) {
        return Err(
            Error::Config(
                String::from_str(
                    "Invalid database path: contains '..' which may escape the intended directory",
                ),
            ),
        );
    }
    Ok(())
}

} // verus!
