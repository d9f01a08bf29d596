//! Laws that relate the validator and the two projections.

use vstd::prelude::*;
use crate::flat::{sentences, stable_unique};
use crate::message::{fragment, sentence};
use crate::record::{ContactView, RecordView};
use crate::tree::{add_violation, tree_of, FailedView};
use crate::violation::{
    contact_violation, contact_violations, emit_if, field_violations, short_alpha_violations,
    violations_of, BadParticipant, Invalid, ShortAlphas,
};

verus! {

/// Place of a violation in the validator's traversal: cost centre length,
/// cost centre shape, who pays length, who pays shape, sender, receiver, then
/// the contact method at each position.
pub open spec fn rank(e: Invalid) -> int {
    match e {
        Invalid::CostCentre(ShortAlphas::TooLong(_)) => 0,
        Invalid::CostCentre(ShortAlphas::NonAlpha) => 1,
        Invalid::WhoPays(ShortAlphas::TooLong(_)) => 2,
        Invalid::WhoPays(ShortAlphas::NonAlpha) => 3,
        Invalid::Sender(_) => 4,
        Invalid::Receiver(_) => 5,
        Invalid::BadPhone(p) => 6 + p,
        Invalid::BadEmail(p) => 6 + p,
    }
}

/// The ranks of `s` strictly increase and lie in `[lo, hi)`.
pub open spec fn ranked_within(s: Seq<Invalid>, lo: int, hi: int) -> bool {
    &&& forall|i: int, j: int| 0 <= i < j < s.len() ==> rank(s[i]) < rank(s[j])
    &&& forall|i: int| 0 <= i < s.len() ==> lo <= #[trigger] rank(s[i]) < hi
}

proof fn lemma_ranked_concat(a: Seq<Invalid>, b: Seq<Invalid>, lo: int, mid: int, hi: int)
    requires
        lo <= mid <= hi,
        ranked_within(a, lo, mid),
        ranked_within(b, mid, hi),
    ensures
        ranked_within(a + b, lo, hi),
{
    assert forall|i: int, j: int| 0 <= i < j < (a + b).len() implies rank((a + b)[i]) < rank(
        (a + b)[j],
    ) by {
        if j < a.len() {
        } else if i < a.len() {
            assert(rank(a[i]) < mid);
            assert(mid <= rank(b[j - a.len()]));
        } else {
            assert(rank(b[i - a.len()]) < rank(b[j - a.len()]));
        }
    }
    assert forall|i: int| 0 <= i < (a + b).len() implies lo <= #[trigger] rank((a + b)[i]) < hi by {
        if i < a.len() {
            assert((a + b)[i] == a[i]);
            assert(lo <= rank(a[i]) < mid);
        } else {
            assert((a + b)[i] == b[i - a.len()]);
            assert(mid <= rank(b[i - a.len()]) < hi);
        }
    }
}

proof fn lemma_emit_ranked(c: bool, e: Invalid)
    ensures
        ranked_within(emit_if(c, e), rank(e), rank(e) + 1),
{
}

proof fn lemma_field_ranked(v: RecordView)
    ensures
        ranked_within(field_violations(v), 0, 6),
{
    let cc = short_alpha_violations(v.cost_centre, |a: ShortAlphas| Invalid::CostCentre(a));
    let wp = short_alpha_violations(v.who_pays, |a: ShortAlphas| Invalid::WhoPays(a));
    lemma_emit_ranked(v.cost_centre.len() > 10, Invalid::CostCentre(ShortAlphas::TooLong(10)));
    lemma_emit_ranked(v.cost_centre.len() > 3, Invalid::CostCentre(ShortAlphas::NonAlpha));
    lemma_ranked_concat(
        emit_if(v.cost_centre.len() > 10, Invalid::CostCentre(ShortAlphas::TooLong(10))),
        emit_if(v.cost_centre.len() > 3, Invalid::CostCentre(ShortAlphas::NonAlpha)),
        0,
        1,
        2,
    );
    lemma_emit_ranked(v.who_pays.len() > 10, Invalid::WhoPays(ShortAlphas::TooLong(10)));
    lemma_emit_ranked(v.who_pays.len() > 3, Invalid::WhoPays(ShortAlphas::NonAlpha));
    lemma_ranked_concat(
        emit_if(v.who_pays.len() > 10, Invalid::WhoPays(ShortAlphas::TooLong(10))),
        emit_if(v.who_pays.len() > 3, Invalid::WhoPays(ShortAlphas::NonAlpha)),
        2,
        3,
        4,
    );
    lemma_ranked_concat(cc, wp, 0, 2, 4);
    let s = emit_if(
        v.sender_business_name.len() > 10,
        Invalid::Sender(BadParticipant::BusinessNameTooLong(10)),
    );
    let r = emit_if(
        v.receiver_business_name.len() > 10,
        Invalid::Receiver(BadParticipant::BusinessNameTooLong(10)),
    );
    lemma_emit_ranked(
        v.sender_business_name.len() > 10,
        Invalid::Sender(BadParticipant::BusinessNameTooLong(10)),
    );
    lemma_emit_ranked(
        v.receiver_business_name.len() > 10,
        Invalid::Receiver(BadParticipant::BusinessNameTooLong(10)),
    );
    lemma_ranked_concat(cc + wp, s, 0, 4, 5);
    lemma_ranked_concat(cc + wp + s, r, 0, 5, 6);
}

proof fn lemma_contacts_ranked(cms: Seq<ContactView>)
    requires
        cms.len() <= usize::MAX,
    ensures
        ranked_within(contact_violations(cms), 6, 6 + cms.len() as int),
    decreases cms.len(),
{
    if cms.len() > 0 {
        let p = (cms.len() - 1) as usize;
        lemma_contacts_ranked(cms.drop_last());
        let last = contact_violation(cms.last(), p);
        match cms.last() {
            ContactView::Phone(s) => lemma_emit_ranked(s.len() > 10, Invalid::BadPhone(p)),
            ContactView::Email(s) => lemma_emit_ranked(s.len() > 10, Invalid::BadEmail(p)),
        }
        lemma_ranked_concat(contact_violations(cms.drop_last()), last, 6, 6 + p, 6 + cms.len() as int);
    }
}

/// Order: the violations of a record come in the validator's traversal
/// order, each rule at most once, whatever else the record breaks. So, on one
/// field, the length rule comes before the shape rule.
pub proof fn law_violation_order(v: RecordView)
    requires
        v.contact_methods.len() <= usize::MAX,
    ensures
        forall|i: int, j: int|
            0 <= i < j < violations_of(v).len() ==> rank(violations_of(v)[i]) < rank(
                violations_of(v)[j],
            ),
{
    lemma_field_ranked(v);
    lemma_contacts_ranked(v.contact_methods);
    lemma_ranked_concat(
        field_violations(v),
        contact_violations(v.contact_methods),
        0,
        6,
        6 + v.contact_methods.len() as int,
    );
}

/// Idempotence: records that hold the same values get the same violations,
/// in the same order; so validating one record twice gives one answer.
pub proof fn law_validate_deterministic(a: RecordView, b: RecordView)
    requires
        a == b,
    ensures
        violations_of(a) == violations_of(b),
{
}

/// Which slot of the tree a violation targets: the four single fields get
/// negative keys, a contact method its position.
pub open spec fn slot_key(e: Invalid) -> int {
    match e {
        Invalid::WhoPays(_) => -4,
        Invalid::CostCentre(_) => -3,
        Invalid::Sender(_) => -2,
        Invalid::Receiver(_) => -1,
        Invalid::BadPhone(p) => p as int,
        Invalid::BadEmail(p) => p as int,
    }
}

/// The messages of `t` in the slot that `e` targets; empty for a contact
/// position that has no entry.
pub open spec fn slot(t: FailedView, e: Invalid) -> Seq<Seq<char>> {
    match e {
        Invalid::WhoPays(_) => t.who_pays,
        Invalid::CostCentre(_) => t.cost_centre,
        Invalid::Sender(_) => t.sender_business_name,
        Invalid::Receiver(_) => t.receiver_business_name,
        Invalid::BadPhone(p) => if t.contact_methods.contains_key(p) {
            t.contact_methods[p]
        } else {
            seq![]
        },
        Invalid::BadEmail(p) => if t.contact_methods.contains_key(p) {
            t.contact_methods[p]
        } else {
            seq![]
        },
    }
}

proof fn lemma_add_violation_slot(t: FailedView, e: Invalid, x: Invalid)
    ensures
        slot(add_violation(t, e), x) == if slot_key(x) == slot_key(e) {
            slot(t, x).push(fragment(e))
        } else {
            slot(t, x)
        },
        forall|p: usize|
            #[trigger] add_violation(t, e).contact_methods.contains_key(p) == (
            t.contact_methods.contains_key(p) || slot_key(e) == p),
{
}

proof fn lemma_tree_slots(errs: Seq<Invalid>)
    ensures
        forall|i: int|
            0 <= i < errs.len() ==> #[trigger] slot(tree_of(errs), errs[i]).contains(
                fragment(errs[i]),
            ),
        forall|x: Invalid|
            (#[trigger] slot(tree_of(errs), x).len() == 0) == (forall|i: int|
                0 <= i < errs.len() ==> slot_key(errs[i]) != slot_key(x)),
        forall|p: usize|
            #[trigger] tree_of(errs).contact_methods.contains_key(p) == (exists|i: int|
                0 <= i < errs.len() && slot_key(errs[i]) == p),
    decreases errs.len(),
{
    if errs.len() > 0 {
        let d = errs.drop_last();
        let e = errs.last();
        let t = tree_of(d);
        lemma_tree_slots(d);
        assert forall|i: int| 0 <= i < errs.len() implies #[trigger] slot(
            tree_of(errs),
            errs[i],
        ).contains(fragment(errs[i])) by {
            lemma_add_violation_slot(t, e, errs[i]);
            assert(tree_of(errs) == add_violation(t, e));
            if i < d.len() {
                assert(d[i] == errs[i]);
                assert(slot(t, d[i]).contains(fragment(d[i])));
                let k = choose|k: int| 0 <= k < slot(t, d[i]).len() && slot(t, d[i])[k] == fragment(
                    d[i],
                );
                assert(slot(tree_of(errs), errs[i])[k] == fragment(errs[i]));
            } else {
                let s = slot(tree_of(errs), errs[i]);
                assert(s[s.len() - 1] == fragment(errs[i]));
            }
        }
        assert forall|x: Invalid|
            (#[trigger] slot(tree_of(errs), x).len() == 0) == (forall|i: int|
                0 <= i < errs.len() ==> slot_key(errs[i]) != slot_key(x)) by {
            lemma_add_violation_slot(t, e, x);
            if slot_key(x) != slot_key(e) && slot(t, x).len() != 0 {
                let i = choose|i: int| 0 <= i < d.len() && slot_key(d[i]) == slot_key(x);
                assert(errs[i] == d[i]);
            }
            if slot(t, x).len() == 0 {
                assert forall|i: int| 0 <= i < d.len() implies slot_key(errs[i]) != slot_key(x) by {
                    assert(errs[i] == d[i]);
                }
            }
        }
        assert forall|p: usize|
            #[trigger] tree_of(errs).contact_methods.contains_key(p) == (exists|i: int|
                0 <= i < errs.len() && slot_key(errs[i]) == p) by {
            lemma_add_violation_slot(t, e, e);
            if t.contact_methods.contains_key(p) {
                let i = choose|i: int| 0 <= i < d.len() && slot_key(d[i]) == p;
                assert(errs[i] == d[i]);
            }
            if exists|i: int| 0 <= i < errs.len() && slot_key(errs[i]) == p {
                let i = choose|i: int| 0 <= i < errs.len() && slot_key(errs[i]) == p;
                if i < d.len() {
                    assert(errs[i] == d[i]);
                }
            }
        }
    }
}

/// `k` is the first index at which `x` occurs in `s`.
pub open spec fn is_first_index(s: Seq<Seq<char>>, x: Seq<char>, k: int) -> bool {
    &&& 0 <= k < s.len()
    &&& s[k] == x
    &&& forall|m: int| 0 <= m < k ==> s[m] != x
}

proof fn lemma_stable_unique(s: Seq<Seq<char>>)
    ensures
        stable_unique(s).len() <= s.len(),
        forall|i: int, j: int|
            0 <= i < j < stable_unique(s).len() ==> stable_unique(s)[i] != stable_unique(s)[j],
        forall|x: Seq<char>| #[trigger] stable_unique(s).contains(x) == s.contains(x),
        forall|i: int, j: int, ki: int, kj: int|
            0 <= i < j < stable_unique(s).len() && is_first_index(s, stable_unique(s)[i], ki)
                && is_first_index(s, stable_unique(s)[j], kj) ==> ki < kj,
    decreases s.len(),
{
    if s.len() > 0 {
        let d = s.drop_last();
        let kept = stable_unique(d);
        let r = stable_unique(s);
        lemma_stable_unique(d);
        assert forall|x: Seq<char>| #[trigger] r.contains(x) == s.contains(x) by {
            if s.contains(x) {
                let k = choose|k: int| 0 <= k < s.len() && s[k] == x;
                if k < d.len() {
                    assert(d[k] == x);
                    assert(kept.contains(x));
                    let m = choose|m: int| 0 <= m < kept.len() && kept[m] == x;
                    assert(r[m] == x);
                } else if !kept.contains(x) {
                    assert(r[r.len() - 1] == x);
                }
            }
            if r.contains(x) {
                let m = choose|m: int| 0 <= m < r.len() && r[m] == x;
                if m < kept.len() {
                    assert(kept[m] == x);
                    assert(kept.contains(x));
                    assert(d.contains(x));
                    let k = choose|k: int| 0 <= k < d.len() && d[k] == x;
                    assert(s[k] == x);
                } else {
                    assert(s[s.len() - 1] == x);
                }
            }
        }
        // An element of `d` has the same first index in `s` as in `d`.
        assert forall|x: Seq<char>, k: int| d.contains(x) && is_first_index(s, x, k) implies
            is_first_index(d, x, k) by {
            let m = choose|m: int| 0 <= m < d.len() && d[m] == x;
            assert(s[m] == x);
        }
        assert forall|i: int, j: int, ki: int, kj: int|
            0 <= i < j < r.len() && is_first_index(s, r[i], ki) && is_first_index(
                s,
                r[j],
                kj,
            ) implies ki < kj by {
            assert(r[i] == kept[i]);
            assert(kept.contains(kept[i]));
            assert(d.contains(r[i]));
            assert(is_first_index(d, r[i], ki));
            if j < kept.len() {
                assert(r[j] == kept[j]);
                assert(kept.contains(kept[j]));
                assert(d.contains(r[j]));
                assert(is_first_index(d, r[j], kj));
            } else {
                assert(!kept.contains(s.last()));
                assert(!d.contains(s.last()));
                if kj < d.len() {
                    assert(d[kj] == s.last());
                }
            }
        }
        assert forall|i: int, j: int| 0 <= i < j < r.len() implies r[i] != r[j] by {
            if j >= kept.len() {
                assert(kept[i] == r[i]);
            }
        }
    }
}

/// Consistency of the projections: each violation has its message in the
/// tree, under the slot it targets, and its sentence in the flat list.
pub proof fn law_every_violation_reported(errs: Seq<Invalid>)
    ensures
        forall|i: int|
            0 <= i < errs.len() ==> #[trigger] slot(tree_of(errs), errs[i]).contains(
                fragment(errs[i]),
            ),
        forall|i: int|
            0 <= i < errs.len() ==> stable_unique(sentences(errs)).contains(
                #[trigger] sentence(errs[i]),
            ),
{
    lemma_tree_slots(errs);
    lemma_stable_unique(sentences(errs));
    assert forall|i: int| 0 <= i < errs.len() implies stable_unique(sentences(errs)).contains(
        #[trigger] sentence(errs[i]),
    ) by {
        assert(sentences(errs)[i] == sentence(errs[i]));
    }
}

/// Deduplication: the flat list is no longer than the violations, holds no
/// sentence twice, holds exactly the sentences of the violations, and keeps
/// them in the order of their first appearance.
pub proof fn law_flat_dedup(errs: Seq<Invalid>)
    ensures
        stable_unique(sentences(errs)).len() <= errs.len(),
        forall|i: int, j: int|
            0 <= i < j < stable_unique(sentences(errs)).len() ==> stable_unique(sentences(errs))[i]
                != stable_unique(sentences(errs))[j],
        forall|x: Seq<char>|
            #[trigger] stable_unique(sentences(errs)).contains(x) == sentences(errs).contains(x),
        forall|i: int, j: int, ki: int, kj: int|
            0 <= i < j < stable_unique(sentences(errs)).len() && is_first_index(
                sentences(errs),
                stable_unique(sentences(errs))[i],
                ki,
            ) && is_first_index(sentences(errs), stable_unique(sentences(errs))[j], kj) ==> ki
                < kj,
{
    lemma_stable_unique(sentences(errs));
}

/// Empty slots: a slot of the tree is empty exactly when no violation
/// targets it, and a contact position has an entry exactly when some
/// violation targets that position.
pub proof fn law_empty_elision(errs: Seq<Invalid>)
    ensures
        forall|x: Invalid|
            (#[trigger] slot(tree_of(errs), x).len() == 0) == (forall|i: int|
                0 <= i < errs.len() ==> slot_key(errs[i]) != slot_key(x)),
        forall|p: usize|
            #[trigger] tree_of(errs).contact_methods.contains_key(p) == (exists|i: int|
                0 <= i < errs.len() && slot_key(errs[i]) == p),
{
    lemma_tree_slots(errs);
}

} // verus!
