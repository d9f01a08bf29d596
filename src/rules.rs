//! Rules: total predicates on single field values.
//!
//! Lengths are counted in Unicode scalar values (`char`s), not in bytes.

use vstd::prelude::*;
use vstd::string::StrSliceExecFns;

verus! {

/// Longest value, in characters, that any length-checked field may hold.
pub const MAX_LEN: usize = 10;

/// Character count above which the shape check fails.
pub const SHAPE_LEN: usize = 3;

/// `s` holds strictly more than `n` characters.
pub open spec fn exceeds_max_length(s: Seq<char>, n: nat) -> bool {
    s.len() > n
}

/// The shape check fails on `s`. This is a stand-in for a real character
/// class test: it fails on every value of more than three characters.
pub open spec fn fails_alpha_shape(s: Seq<char>) -> bool {
    s.len() > SHAPE_LEN
}

/// Whether `s` holds more than `n` characters.
pub fn is_too_long(s: &String, n: usize) -> (r: bool)
    ensures
        r == exceeds_max_length(s@, n as nat),
{
    s.as_str().unicode_len() > n
}

/// Whether the shape check fails on `s`.
pub fn is_non_alpha(s: &String) -> (r: bool)
    ensures
        r == fails_alpha_shape(s@),
{
    s.as_str().unicode_len() > SHAPE_LEN
}

} // verus!
