use necoboard::SwitchIdentifier;

#[test]
fn identifier_round_trips_through_its_wire_form() {
    let id = SwitchIdentifier::from([3, 7]);
    assert_eq!(id, SwitchIdentifier { row: 3, col: 7 });
    assert_eq!(id.into_bytes(), [3, 7]);

    let back = SwitchIdentifier::from(SwitchIdentifier { row: 250, col: 11 }.into_bytes());
    assert_eq!(back, SwitchIdentifier { row: 250, col: 11 });
}
