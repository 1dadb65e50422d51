use rsvp_households::HouseholdId;
use uuid::Uuid;

#[test]
fn identifier_is_written_hyphenated() {
    let id = HouseholdId::from_u128(0xa1a2a3a4b1b2c1c2d1d2d3d4d5d6d7d8u128);
    assert_eq!(id.to_text(), "a1a2a3a4-b1b2-c1c2-d1d2-d3d4d5d6d7d8");
}

#[test]
fn identifier_text_has_leading_zeros() {
    let id = HouseholdId::from_u128(1);
    assert_eq!(id.to_text(), "00000000-0000-0000-0000-000000000001");
}

#[test]
fn identifier_is_read_from_its_text() {
    let id = HouseholdId::parse("a1a2a3a4-b1b2-c1c2-d1d2-d3d4d5d6d7d8");
    assert_eq!(id, Some(HouseholdId::from_u128(0xa1a2a3a4b1b2c1c2d1d2d3d4d5d6d7d8u128)));
    assert_eq!(id.unwrap().as_u128(), 0xa1a2a3a4b1b2c1c2d1d2d3d4d5d6d7d8u128);
}

#[test]
fn identifier_is_read_without_hyphens() {
    let id = HouseholdId::parse("a1a2a3a4b1b2c1c2d1d2d3d4d5d6d7d8");
    assert_eq!(id, Some(HouseholdId::from_u128(0xa1a2a3a4b1b2c1c2d1d2d3d4d5d6d7d8u128)));
}

#[test]
fn text_that_is_no_identifier_is_not_read() {
    assert_eq!(HouseholdId::parse(""), None);
    assert_eq!(HouseholdId::parse("household"), None);
    assert_eq!(HouseholdId::parse("a1a2a3a4-b1b2-c1c2-d1d2-d3d4d5d6d7"), None);
    assert_eq!(HouseholdId::parse("g1a2a3a4-b1b2-c1c2-d1d2-d3d4d5d6d7d8"), None);
}

#[test]
fn identifier_survives_writing_and_reading() {
    for _ in 0..32 {
        let uuid = Uuid::new_v4();
        let id = HouseholdId::from_u128(uuid.as_u128());
        assert_eq!(id.to_text(), uuid.to_string());
        assert_eq!(HouseholdId::parse(&id.to_text()), Some(id));
    }
    let nil = HouseholdId::from_u128(0);
    assert_eq!(HouseholdId::parse(&nil.to_text()), Some(nil));
    let max = HouseholdId::from_u128(u128::MAX);
    assert_eq!(max.to_text(), "ffffffff-ffff-ffff-ffff-ffffffffffff");
    assert_eq!(HouseholdId::parse(&max.to_text()), Some(max));
}
