use wschat::message::{Action, Message};
use wschat::registry::{Dispatch, Registry};

fn connect_notice(identity: &str, now: u64) -> String {
    format!(
        "{{\"sender\":\"system\",\"action\":\"connect\",\"contents\":\"{}\",\"timestamp\":{}}}",
        identity, now
    )
}

fn disconnect_notice(identity: &str, now: u64) -> String {
    format!(
        "{{\"sender\":\"system\",\"action\":\"discconnect\",\"contents\":\"{}\",\"timestamp\":{}}}",
        identity, now
    )
}

fn chat(sender: &str, contents: &str, timestamp: u64) -> Message {
    Message::chat_at(sender.to_string(), contents.to_string(), timestamp)
}

fn roster(registry: &Registry<u32>) -> Vec<u32> {
    registry.broadcast(&chat("probe", "", 0)).recipients
}

#[test]
fn a_new_registry_is_empty() {
    let registry: Registry<u32> = Registry::new();
    assert_eq!(registry.len(), 0);
    assert!(!registry.contains("a"));
    assert!(roster(&registry).is_empty());
}

#[test]
fn the_first_to_join_is_welcomed_alone() {
    let mut registry: Registry<u32> = Registry::new();
    let Dispatch { payload, recipients } = registry.join_at("a".to_string(), 1, 10);
    assert_eq!(payload, connect_notice("a", 10));
    assert_eq!(recipients, vec![1]);
    assert_eq!(registry.len(), 1);
    assert!(registry.contains("a"));
}

#[test]
fn a_join_tells_those_present_and_then_the_newcomer() {
    let mut registry: Registry<u32> = Registry::new();
    registry.join_at("a".to_string(), 1, 10);
    registry.join_at("b".to_string(), 2, 11);
    let dispatch = registry.join_at("c".to_string(), 3, 12);
    assert_eq!(dispatch.payload, connect_notice("c", 12));
    assert_eq!(dispatch.recipients, vec![1, 2, 3]);
    assert_eq!(registry.len(), 3);
}

#[test]
fn a_join_under_a_registered_identity_replaces_the_handle() {
    let mut registry: Registry<u32> = Registry::new();
    registry.join_at("a".to_string(), 1, 10);
    registry.join_at("b".to_string(), 2, 11);
    let dispatch = registry.join_at("a".to_string(), 7, 12);
    assert_eq!(dispatch.recipients, vec![1, 2, 7]);
    assert_eq!(registry.len(), 2);
    assert_eq!(roster(&registry), vec![7, 2]);
}

#[test]
fn a_leave_tells_everyone_and_removes_the_entry() {
    let mut registry: Registry<u32> = Registry::new();
    registry.join_at("a".to_string(), 1, 10);
    registry.join_at("b".to_string(), 2, 11);
    registry.join_at("c".to_string(), 3, 12);
    let dispatch = registry.leave_at("b", 13);
    assert_eq!(dispatch.payload, disconnect_notice("b", 13));
    assert_eq!(dispatch.recipients, vec![1, 2, 3]);
    assert_eq!(registry.len(), 2);
    assert!(!registry.contains("b"));
    assert!(registry.contains("a") && registry.contains("c"));
    assert_eq!(roster(&registry), vec![1, 3]);
}

#[test]
fn a_second_leave_changes_nothing() {
    let mut registry: Registry<u32> = Registry::new();
    registry.join_at("a".to_string(), 1, 10);
    registry.join_at("b".to_string(), 2, 11);
    registry.leave_at("b", 12);
    let dispatch = registry.leave_at("b", 13);
    assert_eq!(dispatch.payload, disconnect_notice("b", 13));
    assert_eq!(dispatch.recipients, vec![1]);
    assert_eq!(registry.len(), 1);
    assert!(registry.contains("a"));
}

#[test]
fn a_leave_from_an_empty_registry_reaches_nobody() {
    let mut registry: Registry<u32> = Registry::new();
    let dispatch = registry.leave_at("ghost", 1);
    assert!(dispatch.recipients.is_empty());
    assert_eq!(registry.len(), 0);
}

#[test]
fn a_broadcast_reaches_exactly_those_registered() {
    let mut registry: Registry<u32> = Registry::new();
    let event = chat("a", "hello", 50);
    assert!(registry.broadcast(&event).recipients.is_empty());
    registry.join_at("a".to_string(), 1, 10);
    registry.join_at("b".to_string(), 2, 11);
    let dispatch = registry.broadcast(&event);
    assert_eq!(
        dispatch.payload,
        "{\"sender\":\"a\",\"action\":\"chat\",\"contents\":\"hello\",\"timestamp\":50}"
    );
    assert_eq!(dispatch.recipients, vec![1, 2]);
    registry.leave_at("a", 12);
    assert_eq!(registry.broadcast(&event).recipients, vec![2]);
    assert_eq!(registry.len(), 1);
}

#[test]
fn fan_out_hands_the_payload_on_unchanged() {
    let mut registry: Registry<String> = Registry::new();
    registry.join_at("a".to_string(), "to-a".to_string(), 1);
    registry.join_at("b".to_string(), "to-b".to_string(), 2);
    let dispatch = registry.fan_out("not even json".to_string());
    assert_eq!(dispatch.payload, "not even json");
    assert_eq!(dispatch.recipients, vec!["to-a".to_string(), "to-b".to_string()]);
}

#[test]
fn joins_followed_by_their_leaves_leave_no_trace() {
    let mut registry: Registry<u32> = Registry::new();
    registry.join_at("resident-1".to_string(), 100, 1);
    registry.join_at("resident-2".to_string(), 200, 2);
    let before = roster(&registry);
    let size = registry.len();
    let count = 25u32;
    for i in 0..count {
        registry.join_at(format!("guest-{}", i), i, 10 + i as u64);
    }
    assert_eq!(registry.len(), size + count as usize);
    // They leave in another order than they came, some of them twice.
    for i in (0..count).rev() {
        registry.leave_at(&format!("guest-{}", (i * 7) % count), 100);
        registry.leave_at(&format!("guest-{}", i), 101);
    }
    assert_eq!(registry.len(), size);
    assert_eq!(roster(&registry), before);
    for i in 0..count {
        assert!(!registry.contains(&format!("guest-{}", i)));
    }
    assert!(registry.contains("resident-1") && registry.contains("resident-2"));
}

#[test]
fn two_joins_end_up_registered_in_either_order() {
    let mut one: Registry<u32> = Registry::new();
    one.join_at("a".to_string(), 1, 1);
    one.join_at("b".to_string(), 2, 2);
    let mut other: Registry<u32> = Registry::new();
    other.join_at("b".to_string(), 2, 1);
    other.join_at("a".to_string(), 1, 2);
    for registry in [&one, &other] {
        assert_eq!(registry.len(), 2);
        assert!(registry.contains("a"));
        assert!(registry.contains("b"));
    }
    let mut first = roster(&one);
    let mut second = roster(&other);
    first.sort();
    second.sort();
    assert_eq!(first, vec![1, 2]);
    assert_eq!(first, second);
}

#[test]
fn join_and_leave_stamp_with_the_clock() {
    let mut registry: Registry<u32> = Registry::new();
    let joined = registry.join("a".to_string(), 1);
    assert_eq!(joined.recipients, vec![1]);
    let notice = wschat::codec::decode(&joined.payload).unwrap();
    assert_eq!(notice.sender, "system");
    assert_eq!(notice.action, Action::Connect);
    assert_eq!(notice.contents, "a");
    assert!(notice.timestamp > 1_577_836_800_000_000_000);
    let left = registry.leave("a");
    assert_eq!(left.recipients, vec![1]);
    assert!(left.payload.starts_with(
        "{\"sender\":\"system\",\"action\":\"discconnect\",\"contents\":\"a\",\"timestamp\":"
    ));
    assert_eq!(registry.len(), 0);
}

#[test]
fn identities_are_told_apart_exactly() {
    let mut registry: Registry<u32> = Registry::new();
    registry.join_at("abc".to_string(), 1, 1);
    registry.join_at("ab".to_string(), 2, 2);
    registry.join_at("ABC".to_string(), 3, 3);
    registry.join_at("".to_string(), 4, 4);
    assert_eq!(registry.len(), 4);
    registry.leave_at("ab", 5);
    assert!(registry.contains("abc") && registry.contains("ABC") && registry.contains(""));
    assert!(!registry.contains("ab"));
}
