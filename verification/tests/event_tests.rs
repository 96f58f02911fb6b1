use inference_cache::events::{classify_event, EventType};

#[test]
fn validation_event_carries_its_code() {
    let r = classify_event(
        "Microsoft.EventGrid.SubscriptionValidationEvent".to_string(),
        Some("code-1234".to_string()),
    );
    match r {
        EventType::Validation(code) => assert_eq!(code, "code-1234"),
        _ => panic!("expected a validation event"),
    }
}

#[test]
fn blob_created_event_is_recognized() {
    let r = classify_event("DeisLabs.EventGrid.Types.BlobCreated".to_string(), None);
    assert!(matches!(r, EventType::BlobCreated));
}

#[test]
fn unknown_event_is_custom_and_keeps_its_type() {
    let r = classify_event("Some.Other.Event".to_string(), None);
    match r {
        EventType::Custom(ty) => assert_eq!(ty, "Some.Other.Event"),
        _ => panic!("expected a custom event"),
    }
}
