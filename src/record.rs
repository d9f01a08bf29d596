//! The records that are validated.

use vstd::prelude::*;

verus! {

/// Direction of a consignment. It is carried, not validated.
#[derive(Debug, Clone, Copy, PartialEq, Eq)]
pub enum ConsignmentType {
    Incoming,
    Outbound,
}

/// Sender or receiver of a consignment.
#[derive(Debug)]
pub struct SenderReceiverDetails {
    pub business_name: String,
}

/// One way to reach the parties of a consignment.
#[derive(Debug)]
pub enum ContactMethod {
    Phone(String),
    Email(String),
}

/// A consignment record, as handed to the validator.
#[derive(Debug)]
pub struct ConsignmentData {
    pub direction: ConsignmentType,
    pub who_pays: String,
    pub cost_centre: String,
    pub sender: SenderReceiverDetails,
    pub receiver: SenderReceiverDetails,
    pub contact_methods: Vec<ContactMethod>,
}

/// What a contact method holds: its kind and its text.
pub enum ContactView {
    Phone(Seq<char>),
    Email(Seq<char>),
}

/// What a record holds, as plain values.
pub struct RecordView {
    pub direction: ConsignmentType,
    pub who_pays: Seq<char>,
    pub cost_centre: Seq<char>,
    pub sender_business_name: Seq<char>,
    pub receiver_business_name: Seq<char>,
    pub contact_methods: Seq<ContactView>,
}

impl View for ContactMethod {
    type V = ContactView;

    open spec fn view(&self) -> ContactView {
        match self {
            ContactMethod::Phone(s) => ContactView::Phone(s@),
            ContactMethod::Email(s) => ContactView::Email(s@),
        }
    }
}

impl View for ConsignmentData {
    type V = RecordView;

    open spec fn view(&self) -> RecordView {
        RecordView {
            direction: self.direction,
            who_pays: self.who_pays@,
            cost_centre: self.cost_centre@,
            sender_business_name: self.sender.business_name@,
            receiver_business_name: self.receiver.business_name@,
            contact_methods: self.contact_methods@.map_values(|c: ContactMethod| c@),
        }
    }
}

} // verus!
