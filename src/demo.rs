//! Validation of a few sample records, with both projections of each.

use vstd::prelude::*;
use vstd::string::StringExecFns;
use crate::flat::{project_friendly_list, sentences, stable_unique};
use crate::record::{ConsignmentData, ConsignmentType, ContactMethod, SenderReceiverDetails};
use crate::tree::{project_to_object, tree_of, ConsignmentFailed};
use crate::violation::{validate, violations_of, BadParticipant, Invalid, ShortAlphas};

verus! {

/// The violations of one record, with their two projections.
#[derive(Debug)]
pub struct Report {
    pub violations: Vec<Invalid>,
    pub tree: ConsignmentFailed,
    pub messages: Vec<String>,
}

/// The report's projections are those of its violations.
pub open spec fn report_consistent(r: Report) -> bool {
    &&& r.tree@ == tree_of(r.violations@)
    &&& r.messages.deep_view() == stable_unique(sentences(r.violations@))
}

/// Validates `cd` and projects its violations both ways.
pub fn validate_and_report(cd: ConsignmentData) -> (r: Report)
    ensures
        r.violations@ == violations_of(cd@),
        report_consistent(r),
{
    let violations = validate(cd);
    let tree = project_to_object(&violations);
    let messages = project_friendly_list(&violations);
    Report { violations, tree, messages }
}

fn party(name: &str) -> (r: SenderReceiverDetails)
    ensures
        r.business_name@ == name@,
{
    SenderReceiverDetails { business_name: String::from_str(name) }
}

/// Reports on three sample records: a valid one, one whose cost centre fails
/// the shape check, and one with violations on several fields.
pub fn play() -> (r: Vec<Report>)
    ensures
        r@.len() == 3,
        r@[0].violations@ == Seq::<Invalid>::empty(),
        r@[1].violations@ == seq![Invalid::CostCentre(ShortAlphas::NonAlpha)],
        r@[2].violations@ == seq![
            Invalid::WhoPays(ShortAlphas::NonAlpha),
            Invalid::Receiver(BadParticipant::BusinessNameTooLong(10)),
            Invalid::BadPhone(1),
            Invalid::BadPhone(3),
            Invalid::BadEmail(4),
        ],
        forall|i: int| 0 <= i < 3 ==> report_consistent(#[trigger] r@[i]),
{
    proof {
        reveal_strlit("ok");
        reveal_strlit("12345");
        reveal_strlit("abc");
        reveal_strlit("*^%^&%$^%$");
        reveal_strlit("foo");
        reveal_strlit("aaaaaa");
        reveal_strlit("asd");
        reveal_strlit("bbbbb");
        reveal_strlit("bbbbb88888888888888888888");
        reveal_strlit("foofoofoofoofoofoofoofoofoofoo");
        reveal_with_fuel(crate::violation::contact_violations, 6);
    }
    let first = ConsignmentData {
        direction: ConsignmentType::Outbound,
        who_pays: String::from_str("ok"),
        cost_centre: String::from_str("ok"),
        sender: party("ok"),
        receiver: party("ok"),
        contact_methods: vec![ContactMethod::Phone(String::from_str("12345"))],
    };
    let second = ConsignmentData {
        direction: ConsignmentType::Outbound,
        who_pays: String::from_str("abc"),
        cost_centre: String::from_str("*^%^&%$^%$"),
        sender: party("ok"),
        receiver: party("ok"),
        contact_methods: vec![ContactMethod::Phone(String::from_str("foo"))],
    };
    let third = ConsignmentData {
        direction: ConsignmentType::Incoming,
        who_pays: String::from_str("aaaaaa"),
        cost_centre: String::from_str("asd"),
        sender: party("bbbbb"),
        receiver: party("bbbbb88888888888888888888"),
        contact_methods: vec![
            ContactMethod::Email(String::from_str("foo")),
            ContactMethod::Phone(String::from_str("foofoofoofoofoofoofoofoofoofoo")),
            ContactMethod::Email(String::from_str("foo")),
            ContactMethod::Phone(String::from_str("foofoofoofoofoofoofoofoofoofoo")),
            ContactMethod::Email(String::from_str("foofoofoofoofoofoofoofoofoofoo")),
        ],
    };
    let a = validate_and_report(first);
    let b = validate_and_report(second);
    let c = validate_and_report(third);
    assert(a.violations@ =~= Seq::<Invalid>::empty());
    assert(b.violations@ =~= seq![Invalid::CostCentre(ShortAlphas::NonAlpha)]);
    assert(c.violations@ =~= seq![
        Invalid::WhoPays(ShortAlphas::NonAlpha),
        Invalid::Receiver(BadParticipant::BusinessNameTooLong(10)),
        Invalid::BadPhone(1),
        Invalid::BadPhone(3),
        Invalid::BadEmail(4),
    ]);
    let mut reports: Vec<Report> = Vec::new();
    reports.push(a);
    reports.push(b);
    reports.push(c);
    reports
}

} // verus!
