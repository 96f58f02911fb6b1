//! Classifying an incoming event notification.
//!
//! An event arrives with a type string and, for a subscription
//! validation event, a validation code. The surrounding transport
//! parses the notification and hands those fields in as plain values;
//! this module decides what kind of event it is.

use vstd::prelude::*;

verus! {

/// The payload of a blob-created notification: where the uploaded
/// bytes were put.
pub struct EventData {
    pub container: String,
    pub blob: String,
}

/// The kinds of event the pipeline reacts to.
pub enum EventType {
    /// A subscription validation handshake, carrying the code that
    /// must be echoed back.
    Validation(String),
    /// A notification that a blob was created.
    BlobCreated,
    /// Any other event, carried through under its type string.
    Custom(String),
}

/// The type string of a subscription validation event.
pub open spec fn validation_event_chars() -> Seq<char> {
    "Microsoft.EventGrid.SubscriptionValidationEvent"@
}

/// The type string of the pipeline's own blob-created event.
pub open spec fn blob_created_event_chars() -> Seq<char> {
    "DeisLabs.EventGrid.Types.BlobCreated"@
}

/// Decides the kind of an event from its type string. A validation
/// event must carry its validation code, which is passed through;
/// a blob-created event is recognized; anything else is custom and
/// keeps its type string.
pub fn classify_event(event_type: String, validation_code: Option<String>) -> (r: EventType)
    requires
        event_type@ == validation_event_chars() ==> validation_code is Some,
    ensures
        event_type@ == validation_event_chars() ==> (r matches EventType::Validation(c) && c@
            == validation_code->Some_0@),
        (event_type@ != validation_event_chars() && event_type@ == blob_created_event_chars())
            ==> r is BlobCreated,
        (event_type@ != validation_event_chars() && event_type@ != blob_created_event_chars())
            ==> (r matches EventType::Custom(s) && s@ == event_type@),
{
    let validation = String::from_str("Microsoft.EventGrid.SubscriptionValidationEvent");
    let blob_created = String::from_str("DeisLabs.EventGrid.Types.BlobCreated");
    if event_type == validation {
        match validation_code {
            Some(code) => EventType::Validation(code),
            None => {
                proof {
                    assert(false);
                }
                EventType::BlobCreated
            },
        }
    } else if event_type == blob_created {
        EventType::BlobCreated
    } else {
        EventType::Custom(event_type)
    }
}

} // verus!
