use yaml_bridge::{get_last_error, set_last_error, ErrorSlot};

#[test]
fn a_new_slot_is_empty() {
    let slot = ErrorSlot::new();
    assert!(slot.message().is_none());
    let mut buffer = [7u8; 4];
    assert_eq!(get_last_error(&slot, Some(&mut buffer)), 0);
    assert_eq!(buffer, [0, 7, 7, 7]);
}

#[test]
fn a_message_written_is_read_back_whole() {
    let mut slot = ErrorSlot::new();
    set_last_error(&mut slot, Some(b"disk full"));
    assert_eq!(slot.message(), Some("disk full"));

    let mut buffer = [0xaau8; 16];
    let written = get_last_error(&slot, Some(&mut buffer));
    assert_eq!(written, 9);
    assert_eq!(&buffer[..9], b"disk full");
    assert_eq!(buffer[9], 0);
    assert_eq!(&buffer[10..], &[0xaau8; 6]);

    let mut exact = [0xaau8; 10];
    assert_eq!(get_last_error(&slot, Some(&mut exact)), 9);
    assert_eq!(&exact, b"disk full\0");
}

#[test]
fn reading_does_not_empty_the_slot() {
    let mut slot = ErrorSlot::new();
    set_last_error(&mut slot, Some(b"once"));
    let mut first = [0u8; 8];
    let mut second = [0u8; 8];
    assert_eq!(get_last_error(&slot, Some(&mut first)), 4);
    assert_eq!(get_last_error(&slot, Some(&mut second)), 4);
    assert_eq!(first, second);
    assert_eq!(&first[..5], b"once\0");
}

#[test]
fn reading_without_room_writes_nothing() {
    let mut slot = ErrorSlot::new();
    set_last_error(&mut slot, Some(b"message"));
    let mut none: [u8; 0] = [];
    assert_eq!(get_last_error(&slot, Some(&mut none)), 0);
    assert_eq!(get_last_error(&slot, None), 0);
}

#[test]
fn a_long_message_is_cut_to_fit_beside_the_terminator() {
    let mut slot = ErrorSlot::new();
    set_last_error(&mut slot, Some(b"a long message"));

    let mut buffer = [0xaau8; 7];
    assert_eq!(get_last_error(&slot, Some(&mut buffer)), 6);
    assert_eq!(&buffer, b"a long\0");

    let mut one = [0xaau8; 1];
    assert_eq!(get_last_error(&slot, Some(&mut one)), 0);
    assert_eq!(one, [0]);

    let mut fitting = [0xaau8; 14];
    assert_eq!(get_last_error(&slot, Some(&mut fitting)), 13);
    assert_eq!(&fitting, b"a long messag\0");
}

#[test]
fn writing_nothing_clears_the_slot() {
    let mut slot = ErrorSlot::new();
    set_last_error(&mut slot, Some(b"first"));
    set_last_error(&mut slot, None);
    assert!(slot.message().is_none());

    let mut buffer = [0xaau8; 8];
    assert_eq!(get_last_error(&slot, Some(&mut buffer)), 0);
    assert_eq!(buffer[0], 0);
    assert_eq!(&buffer[1..], &[0xaau8; 7]);
}

#[test]
fn writing_bytes_that_are_not_text_clears_the_slot() {
    let mut slot = ErrorSlot::new();
    set_last_error(&mut slot, Some(b"first"));
    set_last_error(&mut slot, Some(&[b'b', b'a', b'd', 0xff]));
    assert!(slot.message().is_none());

    let mut buffer = [0xaau8; 8];
    assert_eq!(get_last_error(&slot, Some(&mut buffer)), 0);
    assert_eq!(buffer[0], 0);
}

#[test]
fn a_later_message_replaces_an_earlier_one() {
    let mut slot = ErrorSlot::new();
    set_last_error(&mut slot, Some(b"first"));
    set_last_error(&mut slot, Some("zweite \u{fc}".as_bytes()));
    assert_eq!(slot.message(), Some("zweite \u{fc}"));

    let mut buffer = [0u8; 16];
    assert_eq!(get_last_error(&slot, Some(&mut buffer)), 9);
    assert_eq!(&buffer[..10], "zweite \u{fc}\0".as_bytes());
}

#[test]
fn the_empty_message_is_stored_as_a_message() {
    let mut slot = ErrorSlot::new();
    set_last_error(&mut slot, Some(b""));
    assert_eq!(slot.message(), Some(""));
    let mut buffer = [0xaau8; 2];
    assert_eq!(get_last_error(&slot, Some(&mut buffer)), 0);
    assert_eq!(buffer, [0, 0xaa]);
}

#[test]
fn conversions_leave_the_slot_alone() {
    let mut slot = ErrorSlot::new();
    set_last_error(&mut slot, Some(b"kept"));

    assert!(yaml_bridge::yaml_parse(None).is_none());
    assert!(yaml_bridge::yaml_encode(None, 1).is_none());
    assert!(yaml_bridge::yaml_parse(Some(b"a: [")).is_some());
    assert!(yaml_bridge::yaml_encode(Some(&[0xff]), 0).is_some());

    assert_eq!(slot.message(), Some("kept"));
    let mut buffer = [0u8; 8];
    assert_eq!(get_last_error(&slot, Some(&mut buffer)), 4);
    assert_eq!(&buffer[..5], b"kept\0");
}
