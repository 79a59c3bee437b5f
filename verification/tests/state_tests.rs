use nd_secure::error::VaultError;
use nd_secure::ids::command_uuid;
use nd_secure::state::{ClipboardTracker, ProtocolPermits};

#[test]
fn clipboard_tracker_only_clears_the_current_generation() {
    let mut tracker = ClipboardTracker::new();
    let first = tracker.track([1_u8; 32]);
    let second = tracker.track([2_u8; 32]);

    assert!(!tracker.is_current(first));
    assert!(tracker.is_current(second));
    assert_eq!(tracker.current(), Some((second, [2_u8; 32])));

    tracker.clear_if_generation(first);
    assert!(tracker.is_current(second));
    tracker.clear_if_generation(second);
    assert_eq!(tracker.current(), None);
}

#[test]
fn protocol_permits_are_limited_and_returned() {
    let mut permits = ProtocolPermits::new(2);
    let a = permits.try_protocol_permit().unwrap();
    let b = permits.try_protocol_permit().unwrap();
    assert!(permits.try_protocol_permit().is_none());
    permits.release(a);
    assert!(permits.try_protocol_permit().is_some());
    permits.release(b);
}

#[test]
fn command_ids_must_parse_and_be_canonical() {
    let id = "67e55044-10b1-426f-9247-bb680e5fe0c8";
    assert!(command_uuid(id).is_ok());
    assert!(matches!(command_uuid("not-a-uuid"), Err(VaultError::InvalidInput(d)) if d == "invalid UUID"));
    assert!(matches!(
        command_uuid("67E55044-10B1-426F-9247-BB680E5FE0C8"),
        Err(VaultError::InvalidInput(d)) if d == "UUID is not canonical"
    ));
}
