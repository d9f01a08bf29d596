//! Field-level validation of consignment records.
//!
//! A record is checked against a fixed set of rules, which yields an ordered
//! list of typed violations. Two independent projections turn that list into
//! a per-field error tree and into a deduplicated list of sentences.

pub mod rules;
pub mod record;
pub mod violation;
pub mod message;
pub mod tree;
pub mod flat;
pub mod demo;
pub mod laws;

pub use record::{ConsignmentData, ConsignmentType, ContactMethod, SenderReceiverDetails};
pub use violation::{validate, BadParticipant, Invalid, ShortAlphas};
pub use tree::{project_to_object, upsert, ConsignmentFailed, SenderReceiverFailed};
pub use flat::project_friendly_list;
pub use message::{decimal_string, non_alpha, sentence_of, too_long};
pub use rules::{is_non_alpha, is_too_long};
pub use demo::{play, validate_and_report, Report};
