//! Flat projection: one sentence per distinct report, in order of first
//! appearance.

use vstd::prelude::*;
use crate::message::{sentence, sentence_of};
use crate::violation::Invalid;

verus! {

/// The sentence of each violation of `errs`, in order.
pub open spec fn sentences(errs: Seq<Invalid>) -> Seq<Seq<char>> {
    errs.map_values(|e: Invalid| sentence(e))
}

/// `s` with every value that occurred earlier in `s` left out.
pub open spec fn stable_unique(s: Seq<Seq<char>>) -> Seq<Seq<char>>
    decreases s.len(),
{
    if s.len() == 0 {
        seq![]
    } else {
        let kept = stable_unique(s.drop_last());
        if kept.contains(s.last()) {
            kept
        } else {
            kept.push(s.last())
        }
    }
}

/// Whether `v` holds a string equal to `s`.
pub fn contains_text(v: &Vec<String>, s: &String) -> (r: bool)
    ensures
        r == v.deep_view().contains(s@),
{
    let n = v.len();
    for i in 0..n
        invariant
            n == v@.len(),
            forall|j: int| 0 <= j < i ==> v@[j]@ != s@,
    {
        if v[i] == *s {
            assert(v.deep_view()[i as int] == s@);
            return true;
        }
    }
    assert forall|j: int| 0 <= j < v.deep_view().len() implies v.deep_view()[j] != s@ by {}
    false
}

/// The sentences of `errors`, each distinct sentence once, at the place of
/// its first appearance.
pub fn project_friendly_list(errors: &Vec<Invalid>) -> (r: Vec<String>)
    ensures
        r.deep_view() == stable_unique(sentences(errors@)),
{
    let mut out: Vec<String> = Vec::new();
    assert(out.deep_view() =~= seq![]);
    assert(sentences(errors@.take(0)) =~= seq![]);
    let n = errors.len();
    for i in 0..n
        invariant
            n == errors@.len(),
            out.deep_view() == stable_unique(sentences(errors@.take(i as int))),
    {
        let s = sentence_of(errors[i]);
        let ghost before = out.deep_view();
        assert(sentences(errors@.take(i + 1)).drop_last() =~= sentences(errors@.take(i as int)));
        assert(sentences(errors@.take(i + 1)).last() == s@);
        if !contains_text(&out, &s) {
            out.push(s);
            assert(out.deep_view() =~= before.push(s@));
        }
    }
    assert(errors@.take(n as int) =~= errors@);
    out
}

} // verus!
