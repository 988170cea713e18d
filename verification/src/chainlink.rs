//! The names of the functions that move a state machine on to one of its
//! states, one function for each variant of the state enum.

use vstd::prelude::*;
use vstd::string::StringExecFns;

verus! {

/// What `str::to_lowercase` makes of the string that reads `s`.
pub uninterp spec fn lowercase_of(s: Seq<char>) -> Seq<char>;

/// Calls `str::to_lowercase` of the standard library, which returns the
/// lower-case equivalent of a string as a new string. Not proved: that the
/// result is the one this module names `lowercase_of`, which says no more
/// than that equal strings have equal results.
#[verifier::external_body]
fn lowercase(s: &str) -> (lower: String)
    ensures
        lower@ == lowercase_of(s@),
{
    s.to_lowercase()
}

/// The name of the function that sets the state whose variant, in lower
/// case, reads `lowered`.
pub fn set_next_name_of(lowered: &str) -> (name: String)
    ensures
        name@ == "set_next_"@ + lowered@,
{
    let mut name: String = "set_next_".to_owned();
    name.append(lowered);
    name
}

/// The name of the function that sets the state `variant`: `set_next_`
/// and the variant's name in lower case.
pub fn set_next_name(variant: &str) -> (name: String)
    ensures
        name@ == "set_next_"@ + lowercase_of(variant@),
{
    let lowered: String = lowercase(variant);
    set_next_name_of(lowered.as_str())
}

} // verus!
