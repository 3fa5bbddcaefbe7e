//! The length of a text, as it is asked for through different kinds of
//! dispatch.
use vstd::prelude::*;
use vstd::string::StringSliceAdditionalSpecFns;

verus! {

/// The number of bytes that `s` takes in UTF-8.
pub fn strlen(s: &str) -> (n: usize)
    ensures
        n == s.spec_bytes().len(),
{
    s.as_bytes().len()
}

/// `strlen` again, for the callers that name the kind of their text.
pub fn strlen2(s: &str) -> (n: usize)
    ensures
        n == s.spec_bytes().len(),
{
    s.as_bytes().len()
}

} // verus!
