use consignment_validation::BadParticipant::BusinessNameTooLong;
use consignment_validation::ContactMethod::{Email, Phone};
use consignment_validation::Invalid::{BadEmail, BadPhone, CostCentre, Receiver, Sender, WhoPays};
use consignment_validation::ShortAlphas::{NonAlpha, TooLong};
use consignment_validation::{
    decimal_string, is_non_alpha, is_too_long, non_alpha, play, project_friendly_list,
    project_to_object, sentence_of, too_long, upsert, validate, validate_and_report,
    ConsignmentData, ConsignmentType, ContactMethod, Invalid, SenderReceiverDetails,
};
use std::collections::HashMap;

fn record(
    who_pays: &str,
    cost_centre: &str,
    sender: &str,
    receiver: &str,
    contact_methods: Vec<ContactMethod>,
) -> ConsignmentData {
    ConsignmentData {
        direction: ConsignmentType::Outbound,
        who_pays: who_pays.to_owned(),
        cost_centre: cost_centre.to_owned(),
        sender: SenderReceiverDetails {
            business_name: sender.to_owned(),
        },
        receiver: SenderReceiverDetails {
            business_name: receiver.to_owned(),
        },
        contact_methods,
    }
}

#[test]
fn test_valid() {
    let c = ConsignmentData {
        direction: ConsignmentType::Outbound,
        who_pays: "ok".to_owned(),
        cost_centre: "ok".to_owned(),
        sender: SenderReceiverDetails {
            business_name: "ok".to_owned(),
        },
        receiver: SenderReceiverDetails {
            business_name: "ok".to_owned(),
        },
        contact_methods: vec![Phone("12345".to_owned()), Email("asdasd".to_owned())],
    };
    assert!(validate(c).is_empty());
}

#[test]
fn test_flat_fields() {
    let c = ConsignmentData {
        direction: ConsignmentType::Outbound,
        who_pays: "ok".repeat(10),
        cost_centre: "ok".to_owned(),
        sender: SenderReceiverDetails {
            business_name: "ok".to_owned(),
        },
        receiver: SenderReceiverDetails {
            business_name: "ok".to_owned(),
        },
        contact_methods: vec![],
    };
    assert_eq!(vec![WhoPays(TooLong(10)), WhoPays(NonAlpha)], validate(c));
}

#[test]
fn test_contact_methods() {
    let c = ConsignmentData {
        direction: ConsignmentType::Outbound,
        who_pays: "ok".to_owned(),
        cost_centre: "ok".to_owned(),
        sender: SenderReceiverDetails {
            business_name: "ok".to_owned(),
        },
        receiver: SenderReceiverDetails {
            business_name: "ok".to_owned(),
        },
        contact_methods: vec![
            Phone("12345".repeat(10).to_owned()),
            Email("asdasd".repeat(10).to_owned()),
        ],
    };
    assert_eq!(vec![BadPhone(0), BadEmail(1)], validate(c));
}

#[test]
fn valid_record_has_empty_projections() {
    let c = record("ok", "ok", "ok", "ok", vec![Phone("12345".to_owned())]);
    let errors = validate(c);
    assert!(errors.is_empty());
    let tree = project_to_object(&errors);
    assert!(tree.who_pays.is_empty());
    assert!(tree.cost_centre.is_empty());
    assert!(tree.sender.business_name.is_empty());
    assert!(tree.receiver.business_name.is_empty());
    assert!(tree.contact_methods.is_empty());
    assert!(project_friendly_list(&errors).is_empty());
}

#[test]
fn shape_check_on_cost_centre_only() {
    let c = record("abc", "*^%^&%$^%$", "ok", "ok", vec![Phone("foo".to_owned())]);
    let errors = validate(c);
    assert_eq!(vec![CostCentre(NonAlpha)], errors);
    assert_eq!(
        vec!["Cost centre should be alphanumeric".to_owned()],
        project_friendly_list(&errors)
    );
    let tree = project_to_object(&errors);
    assert_eq!(vec!["should be alphanumeric".to_owned()], tree.cost_centre);
    assert!(tree.who_pays.is_empty());
}

#[test]
fn only_long_email_is_reported() {
    let c = record(
        "ok",
        "ok",
        "ok",
        "ok",
        vec![
            Phone("foo".to_owned()),
            Email("foo".to_owned()),
            Phone("foo".to_owned()),
            Email("foo".to_owned()),
            Email("foofoofoofoofoofoofoofoofoofoo".to_owned()),
        ],
    );
    let errors = validate(c);
    assert_eq!(vec![BadEmail(4)], errors);
    assert_eq!(
        vec!["Contact email is invalid".to_owned()],
        project_friendly_list(&errors)
    );
    let tree = project_to_object(&errors);
    assert_eq!(1, tree.contact_methods.len());
    assert_eq!(Some(&vec!["invalid email".to_owned()]), tree.contact_methods.get(&4));
}

#[test]
fn repeated_contact_sentences_collapse() {
    let errors = vec![BadEmail(1), BadPhone(2), BadEmail(3), BadPhone(4)];
    assert_eq!(
        vec![
            "Contact email is invalid".to_owned(),
            "Contact phone is invalid".to_owned()
        ],
        project_friendly_list(&errors)
    );
}

#[test]
fn business_name_gets_length_check_only() {
    let c = record("ok", "ok", "ok", "bbbbb888888888888888888888", vec![]);
    assert_eq!(26, "bbbbb888888888888888888888".chars().count());
    assert_eq!(vec![Receiver(BusinessNameTooLong(10))], validate(c));
}

#[test]
fn sender_and_receiver_reported_apart() {
    let c = record("ok", "ok", "abcdefghijk", "abcdefghijk", vec![]);
    let errors = validate(c);
    assert_eq!(
        vec![Sender(BusinessNameTooLong(10)), Receiver(BusinessNameTooLong(10))],
        errors
    );
    assert_eq!(
        vec![
            "Sender Business Name is too long (should be less than 10 characters)".to_owned(),
            "Receiver Business Name is too long (should be less than 10 characters)".to_owned(),
        ],
        project_friendly_list(&errors)
    );
}

#[test]
fn full_order_of_violations() {
    let c = record(
        "abcdefghijkl",
        "abcdefghijkl",
        "abcdefghijkl",
        "abcdefghijkl",
        vec![
            Email("abcdefghijkl".to_owned()),
            Phone("abcdefghijkl".to_owned()),
        ],
    );
    let errors = validate(c);
    assert_eq!(
        vec![
            CostCentre(TooLong(10)),
            CostCentre(NonAlpha),
            WhoPays(TooLong(10)),
            WhoPays(NonAlpha),
            Sender(BusinessNameTooLong(10)),
            Receiver(BusinessNameTooLong(10)),
            BadEmail(0),
            BadPhone(1),
        ],
        errors
    );
    let tree = project_to_object(&errors);
    assert_eq!(
        vec![
            "too long (should be less than 10 characters)".to_owned(),
            "should be alphanumeric".to_owned()
        ],
        tree.cost_centre
    );
    assert_eq!(Some(&vec!["invalid phone".to_owned()]), tree.contact_methods.get(&1));
    assert_eq!(
        vec![
            "Cost centre is too long (should be less than 10 characters)".to_owned(),
            "Cost centre should be alphanumeric".to_owned(),
            "Who pays is too long (should be less than 10 characters)".to_owned(),
            "Who pays should be alphanumeric".to_owned(),
            "Sender Business Name is too long (should be less than 10 characters)".to_owned(),
            "Receiver Business Name is too long (should be less than 10 characters)".to_owned(),
            "Contact email is invalid".to_owned(),
            "Contact phone is invalid".to_owned(),
        ],
        project_friendly_list(&errors)
    );
}

#[test]
fn validating_twice_gives_same_list() {
    let make = || {
        record(
            "aaaaaa",
            "asd",
            "bbbbb",
            "bbbbb88888888888888888888",
            vec![Phone("foofoofoofoofoo".to_owned())],
        )
    };
    assert_eq!(validate(make()), validate(make()));
}

#[test]
fn lengths_count_characters_not_bytes() {
    let ten = "éééééééééé".to_owned();
    assert_eq!(20, ten.len());
    assert!(!is_too_long(&ten, 10));
    assert!(is_too_long(&ten, 9));
    assert!(is_non_alpha(&ten));
    assert!(!is_non_alpha(&"abc".to_owned()));
    assert!(is_non_alpha(&"abcd".to_owned()));
}

#[test]
fn messages_render_bounds() {
    assert_eq!("0", decimal_string(0));
    assert_eq!("10", decimal_string(10));
    assert_eq!("18446744073709551615", decimal_string(usize::MAX));
    assert_eq!("should be alphanumeric", non_alpha());
    assert_eq!("too long (should be less than 7 characters)", too_long(7));
    assert_eq!(
        "Who pays is too long (should be less than 123 characters)",
        sentence_of(WhoPays(TooLong(123)))
    );
}

#[test]
fn upsert_creates_then_appends() {
    let mut m: HashMap<usize, Vec<String>> = HashMap::new();
    upsert(&mut m, 3, "invalid phone");
    upsert(&mut m, 3, "invalid email");
    upsert(&mut m, 0, "invalid email");
    assert_eq!(2, m.len());
    assert_eq!(
        Some(&vec!["invalid phone".to_owned(), "invalid email".to_owned()]),
        m.get(&3)
    );
    assert_eq!(Some(&vec!["invalid email".to_owned()]), m.get(&0));
}

#[test]
fn tree_groups_two_messages_on_one_position() {
    let errors: Vec<Invalid> = vec![BadPhone(2), BadEmail(2)];
    let tree = project_to_object(&errors);
    assert_eq!(
        Some(&vec!["invalid phone".to_owned(), "invalid email".to_owned()]),
        tree.contact_methods.get(&2)
    );
}

#[test]
fn report_matches_projections() {
    let c = record("abc", "*^%^&%$^%$", "ok", "ok", vec![]);
    let r = validate_and_report(c);
    assert_eq!(vec![CostCentre(NonAlpha)], r.violations);
    assert_eq!(vec!["should be alphanumeric".to_owned()], r.tree.cost_centre);
    assert_eq!(vec!["Cost centre should be alphanumeric".to_owned()], r.messages);
}

#[test]
fn sample_reports() {
    let reports = play();
    assert_eq!(3, reports.len());
    assert!(reports[0].violations.is_empty());
    assert_eq!(vec![CostCentre(NonAlpha)], reports[1].violations);
    assert_eq!(
        vec![
            WhoPays(NonAlpha),
            Receiver(BusinessNameTooLong(10)),
            BadPhone(1),
            BadPhone(3),
            BadEmail(4)
        ],
        reports[2].violations
    );
    assert_eq!(
        vec![
            "Who pays should be alphanumeric".to_owned(),
            "Receiver Business Name is too long (should be less than 10 characters)".to_owned(),
            "Contact phone is invalid".to_owned(),
            "Contact email is invalid".to_owned(),
        ],
        reports[2].messages
    );
}
