//! Values taken from environment variables.

use vstd::prelude::*;
use vstd::string::*;
use crate::errors::Error;
use crate::text::blank;
use crate::text::chars_of;
use crate::text::is_blank;

verus! {

/// The text that rejects an empty value of the variable `name`.
pub open spec fn empty_value_text(name: Seq<char>) -> Seq<char> {
    name + " cannot be empty"@
}

fn reject_empty(name: &str) -> (e: Error)
    ensures
        e matches Error::Config(msg) && msg@ == empty_value_text(name@),
{
    Error::Config(String::from_str(name).concat(" cannot be empty"))
}

/// The value of the variable `name`, which must hold more than whitespace.
pub fn parse_env_string(name: &str, value: &str) -> (r: Result<String, Error>)
    ensures
        !is_blank(value@) ==> (r matches Ok(s) && s@ == value@),
        is_blank(value@) ==> (r matches Err(Error::Config(msg)) && msg@ == empty_value_text(name@)),
{
    if blank(&chars_of(value)) {
        return Err(reject_empty(name));
    }
    Ok(String::from_str(value))
}

/// The path that the variable `name` holds, as written: a leading `~` is
/// left for the caller to expand.
pub fn parse_env_path(name: &str, value: &str) -> (r: Result<String, Error>)
    ensures
        !is_blank(value@) ==> (r matches Ok(s) && s@ == value@),
        is_blank(value@) ==> (r matches Err(Error::Config(msg)) && msg@ == empty_value_text(name@)),
{
    if blank(&chars_of(value)) {
        return Err(reject_empty(name));
    }
    Ok(String::from_str(value))
}

} // verus!
