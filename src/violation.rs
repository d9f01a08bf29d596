//! Violations and the validator that finds them.

use vstd::prelude::*;
use crate::record::{ConsignmentData, ContactMethod, ContactView, RecordView};
use crate::rules::{exceeds_max_length, fails_alpha_shape, is_non_alpha, is_too_long, MAX_LEN};

verus! {

/// A rule broken by a short identifier field.
#[derive(Debug, Clone, Copy, PartialEq, Eq, Structural)]
pub enum ShortAlphas {
    TooLong(usize),
    NonAlpha,
}

/// A rule broken by the details of a party.
#[derive(Debug, Clone, Copy, PartialEq, Eq, Structural)]
pub enum BadParticipant {
    BusinessNameTooLong(usize),
}

/// One broken rule on one field of a record.
#[derive(Debug, Clone, Copy, PartialEq, Eq, Structural)]
pub enum Invalid {
    WhoPays(ShortAlphas),
    CostCentre(ShortAlphas),
    Sender(BadParticipant),
    Receiver(BadParticipant),
    /// The phone at this position of the contact methods.
    BadPhone(usize),
    /// The email at this position of the contact methods.
    BadEmail(usize),
}

/// `seq![e]` when `c` holds, else nothing.
pub open spec fn emit_if(c: bool, e: Invalid) -> Seq<Invalid> {
    if c {
        seq![e]
    } else {
        seq![]
    }
}

/// Violations of the length and shape rules on a short identifier field,
/// wrapped by `wrap`: the length rule first.
pub open spec fn short_alpha_violations(s: Seq<char>, wrap: spec_fn(ShortAlphas) -> Invalid) -> Seq<Invalid> {
    emit_if(exceeds_max_length(s, MAX_LEN as nat), wrap(ShortAlphas::TooLong(MAX_LEN)))
        + emit_if(fails_alpha_shape(s), wrap(ShortAlphas::NonAlpha))
}

/// Violations of the fields other than the contact methods, in the order
/// cost centre, who pays, sender, receiver.
pub open spec fn field_violations(v: RecordView) -> Seq<Invalid> {
    short_alpha_violations(v.cost_centre, |a: ShortAlphas| Invalid::CostCentre(a))
        + short_alpha_violations(v.who_pays, |a: ShortAlphas| Invalid::WhoPays(a))
        + emit_if(
            exceeds_max_length(v.sender_business_name, MAX_LEN as nat),
            Invalid::Sender(BadParticipant::BusinessNameTooLong(MAX_LEN)),
        )
        + emit_if(
            exceeds_max_length(v.receiver_business_name, MAX_LEN as nat),
            Invalid::Receiver(BadParticipant::BusinessNameTooLong(MAX_LEN)),
        )
}

/// Violation, if any, of the contact method `c` at `position`.
pub open spec fn contact_violation(c: ContactView, position: usize) -> Seq<Invalid> {
    match c {
        ContactView::Phone(s) => emit_if(exceeds_max_length(s, MAX_LEN as nat), Invalid::BadPhone(position)),
        ContactView::Email(s) => emit_if(exceeds_max_length(s, MAX_LEN as nat), Invalid::BadEmail(position)),
    }
}

/// Violations of the contact methods `cms`, in their order.
pub open spec fn contact_violations(cms: Seq<ContactView>) -> Seq<Invalid>
    decreases cms.len(),
{
    if cms.len() == 0 {
        seq![]
    } else {
        contact_violations(cms.drop_last()) + contact_violation(cms.last(), (cms.len() - 1) as usize)
    }
}

/// All violations of the record `v`, in the order the validator finds them.
pub open spec fn violations_of(v: RecordView) -> Seq<Invalid> {
    field_violations(v) + contact_violations(v.contact_methods)
}

/// Checks every rule on `cd` and lists the broken ones, in a fixed order:
/// cost centre (length, then shape), who pays (length, then shape), sender
/// and receiver business names, then each contact method in turn.
pub fn validate(cd: ConsignmentData) -> (r: Vec<Invalid>)
    ensures
        r@ == violations_of(cd@),
{
    let mut errors: Vec<Invalid> = Vec::new();
    if is_too_long(&cd.cost_centre, MAX_LEN) {
        errors.push(Invalid::CostCentre(ShortAlphas::TooLong(MAX_LEN)));
    }
    if is_non_alpha(&cd.cost_centre) {
        errors.push(Invalid::CostCentre(ShortAlphas::NonAlpha));
    }
    if is_too_long(&cd.who_pays, MAX_LEN) {
        errors.push(Invalid::WhoPays(ShortAlphas::TooLong(MAX_LEN)));
    }
    if is_non_alpha(&cd.who_pays) {
        errors.push(Invalid::WhoPays(ShortAlphas::NonAlpha));
    }
    if is_too_long(&cd.sender.business_name, MAX_LEN) {
        errors.push(Invalid::Sender(BadParticipant::BusinessNameTooLong(MAX_LEN)));
    }
    if is_too_long(&cd.receiver.business_name, MAX_LEN) {
        errors.push(Invalid::Receiver(BadParticipant::BusinessNameTooLong(MAX_LEN)));
    }
    assert(errors@ =~= field_violations(cd@));
    let ghost cms = cd@.contact_methods;
    let n = cd.contact_methods.len();
    for position in 0..n
        invariant
            n == cd.contact_methods@.len(),
            cms == cd@.contact_methods,
            errors@ == field_violations(cd@) + contact_violations(cms.take(position as int)),
    {
        let cm = &cd.contact_methods[position];
        match cm {
            ContactMethod::Phone(number) => {
                if is_too_long(number, MAX_LEN) {
                    errors.push(Invalid::BadPhone(position));
                }
            },
            ContactMethod::Email(address) => {
                if is_too_long(address, MAX_LEN) {
                    errors.push(Invalid::BadEmail(position));
                }
            },
        }
        assert(cms.take(position + 1).drop_last() =~= cms.take(position as int));
        assert(errors@ =~= field_violations(cd@) + contact_violations(cms.take(position + 1)));
    }
    assert(cms.take(n as int) =~= cms);
    errors
}

} // verus!
