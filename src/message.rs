//! Message catalog: the text that each violation is reported with.

use vstd::prelude::*;
use vstd::string::StringExecFns;
use crate::violation::{BadParticipant, Invalid, ShortAlphas};

verus! {

/// The decimal digit `d`, for `d < 10`.
pub open spec fn digit_char(d: nat) -> char {
    if d == 0 {
        '0'
    } else if d == 1 {
        '1'
    } else if d == 2 {
        '2'
    } else if d == 3 {
        '3'
    } else if d == 4 {
        '4'
    } else if d == 5 {
        '5'
    } else if d == 6 {
        '6'
    } else if d == 7 {
        '7'
    } else if d == 8 {
        '8'
    } else {
        '9'
    }
}

/// `n` written in decimal, without leading zeros.
pub open spec fn decimal(n: nat) -> Seq<char>
    decreases n,
{
    if n < 10 {
        seq![digit_char(n)]
    } else {
        decimal(n / 10).push(digit_char(n % 10))
    }
}

/// Fragment for a value that fails the shape check.
pub open spec fn non_alpha_text() -> Seq<char> {
    "should be alphanumeric"@
}

/// Fragment for a value longer than `n` characters.
pub open spec fn too_long_text(n: nat) -> Seq<char> {
    "too long (should be less than "@ + decimal(n) + " characters)"@
}

/// Fragment for an invalid phone.
pub open spec fn invalid_phone_text() -> Seq<char> {
    "invalid phone"@
}

/// Fragment for an invalid email.
pub open spec fn invalid_email_text() -> Seq<char> {
    "invalid email"@
}

/// The catalog: the fragment that reports `e`, without any field name.
pub open spec fn fragment(e: Invalid) -> Seq<char> {
    match e {
        Invalid::WhoPays(ShortAlphas::NonAlpha) => non_alpha_text(),
        Invalid::WhoPays(ShortAlphas::TooLong(n)) => too_long_text(n as nat),
        Invalid::CostCentre(ShortAlphas::NonAlpha) => non_alpha_text(),
        Invalid::CostCentre(ShortAlphas::TooLong(n)) => too_long_text(n as nat),
        Invalid::Sender(BadParticipant::BusinessNameTooLong(n)) => too_long_text(n as nat),
        Invalid::Receiver(BadParticipant::BusinessNameTooLong(n)) => too_long_text(n as nat),
        Invalid::BadPhone(_) => invalid_phone_text(),
        Invalid::BadEmail(_) => invalid_email_text(),
    }
}

/// The sentence that reports `e` in the flat list: a field label before the
/// fragment, or a fixed sentence for contact methods.
pub open spec fn sentence(e: Invalid) -> Seq<char> {
    match e {
        Invalid::CostCentre(ShortAlphas::NonAlpha) => "Cost centre "@ + non_alpha_text(),
        Invalid::CostCentre(ShortAlphas::TooLong(n)) => "Cost centre is "@ + too_long_text(n as nat),
        Invalid::WhoPays(ShortAlphas::NonAlpha) => "Who pays "@ + non_alpha_text(),
        Invalid::WhoPays(ShortAlphas::TooLong(n)) => "Who pays is "@ + too_long_text(n as nat),
        Invalid::Sender(BadParticipant::BusinessNameTooLong(n)) => "Sender Business Name is "@
            + too_long_text(n as nat),
        Invalid::Receiver(BadParticipant::BusinessNameTooLong(n)) => "Receiver Business Name is "@
            + too_long_text(n as nat),
        Invalid::BadPhone(_) => "Contact phone is invalid"@,
        Invalid::BadEmail(_) => "Contact email is invalid"@,
    }
}

fn digit_str(d: usize) -> (r: &'static str)
    requires
        d < 10,
    ensures
        r@ == seq![digit_char(d as nat)],
{
    if d == 0 {
        proof { reveal_strlit("0"); }
        "0"
    } else if d == 1 {
        proof { reveal_strlit("1"); }
        "1"
    } else if d == 2 {
        proof { reveal_strlit("2"); }
        "2"
    } else if d == 3 {
        proof { reveal_strlit("3"); }
        "3"
    } else if d == 4 {
        proof { reveal_strlit("4"); }
        "4"
    } else if d == 5 {
        proof { reveal_strlit("5"); }
        "5"
    } else if d == 6 {
        proof { reveal_strlit("6"); }
        "6"
    } else if d == 7 {
        proof { reveal_strlit("7"); }
        "7"
    } else if d == 8 {
        proof { reveal_strlit("8"); }
        "8"
    } else {
        proof { reveal_strlit("9"); }
        "9"
    }
}

/// `n` written in decimal.
pub fn decimal_string(n: usize) -> (r: String)
    ensures
        r@ == decimal(n as nat),
    decreases n,
{
    if n < 10 {
        String::from_str(digit_str(n))
    } else {
        let mut s = decimal_string(n / 10);
        s.append(digit_str(n % 10));
        assert(s@ =~= decimal(n as nat));
        s
    }
}

/// Fragment for a value that fails the shape check.
pub fn non_alpha() -> (r: String)
    ensures
        r@ == non_alpha_text(),
{
    String::from_str("should be alphanumeric")
}

/// Fragment for a value longer than `n` characters.
pub fn too_long(n: usize) -> (r: String)
    ensures
        r@ == too_long_text(n as nat),
{
    let mut s = String::from_str("too long (should be less than ");
    let digits = decimal_string(n);
    s.append(digits.as_str());
    s.append(" characters)");
    s
}

/// `label` followed by `tail`.
fn prefixed(label: &str, tail: String) -> (r: String)
    ensures
        r@ == label@ + tail@,
{
    let mut s = String::from_str(label);
    s.append(tail.as_str());
    s
}

/// The sentence that reports `e` in the flat list.
pub fn sentence_of(e: Invalid) -> (r: String)
    ensures
        r@ == sentence(e),
{
    match e {
        Invalid::CostCentre(ShortAlphas::NonAlpha) => prefixed("Cost centre ", non_alpha()),
        Invalid::CostCentre(ShortAlphas::TooLong(n)) => prefixed("Cost centre is ", too_long(n)),
        Invalid::WhoPays(ShortAlphas::NonAlpha) => prefixed("Who pays ", non_alpha()),
        Invalid::WhoPays(ShortAlphas::TooLong(n)) => prefixed("Who pays is ", too_long(n)),
        Invalid::Sender(BadParticipant::BusinessNameTooLong(n)) => prefixed(
            "Sender Business Name is ",
            too_long(n),
        ),
        Invalid::Receiver(BadParticipant::BusinessNameTooLong(n)) => prefixed(
            "Receiver Business Name is ",
            too_long(n),
        ),
        Invalid::BadPhone(_) => String::from_str("Contact phone is invalid"),
        Invalid::BadEmail(_) => String::from_str("Contact email is invalid"),
    }
}

} // verus!
