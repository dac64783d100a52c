use reel::identity::{format_identifier, stored_identifier};

#[test]
fn identifier_has_uuid_shape() {
    let id = format_identifier(0xdeadbeef, 0x1, 0xabcd, 0xffff, u64::MAX);
    assert_eq!(id, "reel-deadbeef-0001-abcd-ffff-ffffffffffff");
    assert!(id.starts_with("reel-"));
    assert!(id.len() > 20);
    assert!(id.matches('-').count() >= 4);
}

#[test]
fn identifier_pads_with_zeros() {
    assert_eq!(format_identifier(0, 0, 0, 0, 0), "reel-00000000-0000-0000-0000-000000000000");
    assert_eq!(format_identifier(0x1a, 0x2b, 0x3c, 0x4d, 0x1234_5678_9abc_def0), "reel-0000001a-002b-003c-004d-56789abcdef0");
}

#[test]
fn stored_identifier_is_trimmed_and_reused() {
    assert_eq!(stored_identifier("  reel-abc\n"), Some("reel-abc".to_string()));
    assert_eq!(stored_identifier("\n\t "), None);
    assert_eq!(stored_identifier(""), None);
}
