use wschat::clock::{get_timestamp, stamp_from};
use wschat::message::{Action, Message};

#[test]
fn system_at_fills_in_the_system_sender() {
    let notice = Message::system_at(Action::Connect, "id-1".to_string(), 12);
    assert_eq!(notice.sender, "system");
    assert_eq!(notice.action, Action::Connect);
    assert_eq!(notice.contents, "id-1");
    assert_eq!(notice.timestamp, 12);
}

#[test]
fn chat_at_is_a_chat_event_from_the_sender() {
    let event = Message::chat_at("id-1".to_string(), "hello".to_string(), 99);
    assert_eq!(event.sender, "id-1");
    assert_eq!(event.action, Action::Chat);
    assert_eq!(event.contents, "hello");
    assert_eq!(event.timestamp, 99);
}

#[test]
fn new_system_stamps_with_the_clock() {
    let before = get_timestamp();
    let notice = Message::new_system(Action::Error, "bad message".to_string());
    let after = get_timestamp();
    assert_eq!(notice.sender, "system");
    assert_eq!(notice.action, Action::Error);
    assert_eq!(notice.contents, "bad message");
    assert!(before <= notice.timestamp && notice.timestamp <= after);
}

#[test]
fn new_chat_stamps_with_the_clock() {
    let before = get_timestamp();
    let event = Message::new_chat("id-9".to_string(), "hi".to_string());
    let after = get_timestamp();
    assert_eq!(event.sender, "id-9");
    assert_eq!(event.action, Action::Chat);
    assert_eq!(event.contents, "hi");
    assert!(before <= event.timestamp && event.timestamp <= after);
}

#[test]
fn get_timestamp_counts_nanoseconds_since_the_epoch() {
    let stamp = get_timestamp();
    let now = std::time::SystemTime::now()
        .duration_since(std::time::UNIX_EPOCH)
        .unwrap()
        .as_nanos() as u64;
    assert!(stamp <= now);
    assert!(now - stamp < 60_000_000_000);
    // Later than the first of January 2020.
    assert!(stamp > 1_577_836_800_000_000_000);
}

#[test]
fn stamp_from_keeps_the_low_64_bits() {
    assert_eq!(stamp_from(Some(0)), 0);
    assert_eq!(stamp_from(Some(1_700_000_000_000_000_000)), 1_700_000_000_000_000_000);
    assert_eq!(stamp_from(Some(u64::MAX as u128)), u64::MAX);
    assert_eq!(stamp_from(Some(u64::MAX as u128 + 1)), 0);
    assert_eq!(stamp_from(Some((1u128 << 64) + 5)), 5);
    assert_eq!(stamp_from(Some(u128::MAX)), u64::MAX);
}

#[test]
fn stamp_from_reads_a_clock_before_the_epoch_as_zero() {
    assert_eq!(stamp_from(None), 0);
}
