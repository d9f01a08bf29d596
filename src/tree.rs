//! Tree projection: the messages of each field, under that field's path.

use vstd::prelude::*;
use std::collections::HashMap;
use crate::message::{fragment, non_alpha, too_long};
use crate::violation::{BadParticipant, Invalid, ShortAlphas};

verus! {

broadcast use vstd::std_specs::hash::group_hash_axioms;

/// Messages on the details of a party.
#[derive(Debug)]
pub struct SenderReceiverFailed {
    pub business_name: Vec<String>,
}

/// Messages of a whole record, one list per field path. The contact
/// methods' lists are keyed by position; a position with no message has no
/// entry. Empty lists are kept here: leaving them out is a matter of
/// presentation.
#[derive(Debug)]
pub struct ConsignmentFailed {
    pub who_pays: Vec<String>,
    pub cost_centre: Vec<String>,
    pub sender: SenderReceiverFailed,
    pub receiver: SenderReceiverFailed,
    pub contact_methods: HashMap<usize, Vec<String>>,
}

/// What a `ConsignmentFailed` holds, as plain values.
pub struct FailedView {
    pub who_pays: Seq<Seq<char>>,
    pub cost_centre: Seq<Seq<char>>,
    pub sender_business_name: Seq<Seq<char>>,
    pub receiver_business_name: Seq<Seq<char>>,
    pub contact_methods: Map<usize, Seq<Seq<char>>>,
}

/// The texts held under each key of `m`.
pub open spec fn texts_by_position(m: Map<usize, Vec<String>>) -> Map<usize, Seq<Seq<char>>> {
    Map::new(|k: usize| m.contains_key(k), |k: usize| m[k].deep_view())
}

impl View for ConsignmentFailed {
    type V = FailedView;

    open spec fn view(&self) -> FailedView {
        FailedView {
            who_pays: self.who_pays.deep_view(),
            cost_centre: self.cost_centre.deep_view(),
            sender_business_name: self.sender.business_name.deep_view(),
            receiver_business_name: self.receiver.business_name.deep_view(),
            contact_methods: texts_by_position(self.contact_methods@),
        }
    }
}

/// The tree with no message at all.
pub open spec fn empty_tree() -> FailedView {
    FailedView {
        who_pays: seq![],
        cost_centre: seq![],
        sender_business_name: seq![],
        receiver_business_name: seq![],
        contact_methods: Map::empty(),
    }
}

/// `m` with `msg` appended to the list at `position`, which is created
/// when absent.
pub open spec fn append_at(m: Map<usize, Seq<Seq<char>>>, position: usize, msg: Seq<char>) -> Map<
    usize,
    Seq<Seq<char>>,
> {
    let before = if m.contains_key(position) {
        m[position]
    } else {
        seq![]
    };
    m.insert(position, before.push(msg))
}

/// `t` with the message of `e` appended under the field that `e` targets.
pub open spec fn add_violation(t: FailedView, e: Invalid) -> FailedView {
    match e {
        Invalid::WhoPays(_) => FailedView { who_pays: t.who_pays.push(fragment(e)), ..t },
        Invalid::CostCentre(_) => FailedView { cost_centre: t.cost_centre.push(fragment(e)), ..t },
        Invalid::Sender(_) => FailedView {
            sender_business_name: t.sender_business_name.push(fragment(e)),
            ..t
        },
        Invalid::Receiver(_) => FailedView {
            receiver_business_name: t.receiver_business_name.push(fragment(e)),
            ..t
        },
        Invalid::BadPhone(p) => FailedView {
            contact_methods: append_at(t.contact_methods, p, fragment(e)),
            ..t
        },
        Invalid::BadEmail(p) => FailedView {
            contact_methods: append_at(t.contact_methods, p, fragment(e)),
            ..t
        },
    }
}

/// The tree of the violations `errs`, each message in the order of `errs`.
pub open spec fn tree_of(errs: Seq<Invalid>) -> FailedView
    decreases errs.len(),
{
    if errs.len() == 0 {
        empty_tree()
    } else {
        add_violation(tree_of(errs.drop_last()), errs.last())
    }
}

/// Appends `msg` to the list at `position`, creating the list when absent.
pub fn upsert(errors: &mut HashMap<usize, Vec<String>>, position: usize, msg: &str)
    ensures
        texts_by_position(final(errors)@) == append_at(texts_by_position(old(errors)@), position, msg@),
{
    let mut list = match errors.remove(&position) {
        Some(list) => list,
        None => Vec::new(),
    };
    let ghost before = list;
    let ghost old_texts = texts_by_position(old(errors)@);
    assert(errors@ == old(errors)@.remove(position));
    assert(before.deep_view() =~= (if old_texts.contains_key(position) {
        old_texts[position]
    } else {
        seq![]
    }));
    list.push(msg.to_owned());
    assert(list.deep_view() =~= before.deep_view().push(msg@));
    errors.insert(position, list);
    assert(texts_by_position(errors@) =~= append_at(texts_by_position(old(errors)@), position, msg@));
}

/// `v` with `s` appended.
fn push_text(v: &mut Vec<String>, s: String)
    ensures
        final(v).deep_view() == old(v).deep_view().push(s@),
{
    v.push(s);
    assert(v.deep_view() =~= old(v).deep_view().push(s@));
}

/// Groups the messages of `errors` by the field that each targets.
pub fn project_to_object(errors: &Vec<Invalid>) -> (r: ConsignmentFailed)
    ensures
        r@ == tree_of(errors@),
{
    let mut failed = ConsignmentFailed {
        who_pays: Vec::new(),
        cost_centre: Vec::new(),
        sender: SenderReceiverFailed { business_name: Vec::new() },
        receiver: SenderReceiverFailed { business_name: Vec::new() },
        contact_methods: HashMap::new(),
    };
    assert(failed@.who_pays =~= seq![]);
    assert(failed@.cost_centre =~= seq![]);
    assert(failed@.sender_business_name =~= seq![]);
    assert(failed@.receiver_business_name =~= seq![]);
    assert(failed@.contact_methods =~= Map::empty());
    assert(errors@.take(0) =~= seq![]);
    let n = errors.len();
    for i in 0..n
        invariant
            n == errors@.len(),
            failed@ == tree_of(errors@.take(i as int)),
    {
        let e = errors[i];
        match e {
            Invalid::CostCentre(ShortAlphas::NonAlpha) => push_text(&mut failed.cost_centre, non_alpha()),
            Invalid::CostCentre(ShortAlphas::TooLong(n)) => push_text(&mut failed.cost_centre, too_long(n)),
            Invalid::WhoPays(ShortAlphas::NonAlpha) => push_text(&mut failed.who_pays, non_alpha()),
            Invalid::WhoPays(ShortAlphas::TooLong(n)) => push_text(&mut failed.who_pays, too_long(n)),
            Invalid::Sender(BadParticipant::BusinessNameTooLong(n)) => push_text(
                &mut failed.sender.business_name,
                too_long(n),
            ),
            Invalid::Receiver(BadParticipant::BusinessNameTooLong(n)) => push_text(
                &mut failed.receiver.business_name,
                too_long(n),
            ),
            Invalid::BadPhone(position) => {
                proof { reveal_strlit("invalid phone"); }
                upsert(&mut failed.contact_methods, position, "invalid phone")
            },
            Invalid::BadEmail(position) => {
                proof { reveal_strlit("invalid email"); }
                upsert(&mut failed.contact_methods, position, "invalid email")
            },
        }
        assert(errors@.take(i + 1).drop_last() =~= errors@.take(i as int));
    }
    assert(errors@.take(n as int) =~= errors@);
    failed
}

} // verus!
