//! What this library takes on trust from the standard library, where it has
//! no specification to go by. Nothing here is proved.

use std::path::PathBuf;
use std::time::SystemTime;
use vstd::prelude::*;

verus! {

/// `std::path::PathBuf`, carried through as it is.
#[verifier::external_type_specification]
#[verifier::external_body]
pub struct ExPathBuf(PathBuf);

/// `std::time::SystemTime`, carried through as it is.
#[verifier::external_type_specification]
#[verifier::external_body]
pub struct ExSystemTime(SystemTime);

/// The characters of `s` in lower case, as `str::to_lowercase` gives them.
pub uninterp spec fn lowercase(s: Seq<char>) -> Seq<char>;

/// `str::to_lowercase`: the text in lower case, handed out character by
/// character.
#[verifier::external_body]
pub(crate) fn lowercase_chars(s: &str) -> (lower: Vec<char>)
    ensures
        lower@ == lowercase(s@),
{
    s.to_lowercase().chars().collect()
}

/// `PathBuf::clone`: a path equal to the one given.
pub assume_specification[ <PathBuf as Clone>::clone ](path: &PathBuf) -> (copy: PathBuf)
    ensures
        copy == *path,
;

} // verus!
