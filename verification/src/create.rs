//! Creating changelog fragments.
//!
//! A new fragment is a file in the fragments directory. Its name has to be
//! the name of a fragment. It holds the content that was given, or else a
//! placeholder, and ends with the end of a line.

use vstd::prelude::*;
use vstd::string::StringExecFns;

use crate::changelog::NEW_LINE;
use crate::fragment::{
    is_valid_name, parsed_partial, part_end, validate, ParseError, ParseErrorSource, ParseFailure,
    PartialView,
};

verus! {

/// The placeholder that gets written to fragment files if contents are not provided.
pub const PLACEHOLDER: &'static str = "Add the fragment content here.";

/// What a new fragment file holds.
pub open spec fn created(content: Option<Seq<char>>) -> Seq<char> {
    (match content {
        Some(content) => content,
        None => PLACEHOLDER@,
    }).push(NEW_LINE)
}

/// Creates changelog fragments: checks the name of the new file, and
/// returns what to write to it.
pub fn create(name: &str, content: Option<&str>) -> (result: Result<String, ParseError>)
    ensures
        result is Ok <==> is_valid_name(name@),
        result matches Ok(text) ==> text@ == created(
            match content {
                Some(content) => Some(content@),
                None => None,
            },
        ),
        result matches Err(error) ==> {
            &&& parsed_partial(name@) == Err::<PartialView, ParseFailure>(error.failure())
            &&& error.name@ == name@
            &&& error.source matches ParseErrorSource::InvalidId(invalid) ==> invalid.string@
                == name@.take(part_end(name@, 0))
        },
{
    match validate(name) {
        Ok(()) => {},
        Err(error) => {
            return Err(error);
        },
    }

    let mut string = String::new();
    match content {
        Some(content) => string.append(content),
        None => string.append(PLACEHOLDER),
    }
    string.push(NEW_LINE);

    Ok(string)
}

} // verus!
