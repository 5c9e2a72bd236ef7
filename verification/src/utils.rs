//! Checks on the place the result is written to.

use crate::error::ParseError;
use vstd::prelude::*;

verus! {

/// Accepts `output_path` as the place to write the result to when nothing
/// exists there yet, and refuses it when something does. Whether the path
/// is free is for the caller to find out.
pub fn check_output_path(output_path: &str, path_is_free: bool) -> (r: Result<String, ParseError>)
    ensures
        path_is_free ==> (r matches Ok(path) && path@ == output_path@),
        !path_is_free ==> r == Err::<String, ParseError>(ParseError::OutputExists),
{
    if path_is_free {
        Ok(output_path.to_owned())
    } else {
        Err(ParseError::OutputExists)
    }
}

} // verus!
