//! Helpers shared by the test suites: whitespace-insensitive comparison
//! of generated code text.

use vstd::prelude::*;

use crate::common::{self, strip_whitespace};

verus! {

/// Whether two fragments of generated code are equal once whitespace
/// is ignored, which is how token streams are compared as strings.
pub fn assert_tokens_are_equal(left: &str, right: &str) -> (r: bool)
    ensures
        r == (strip_whitespace(left@) == strip_whitespace(right@)),
{
    common::assert_tokens_are_equal(left, right)
}

} // verus!
