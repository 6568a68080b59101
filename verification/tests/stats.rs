use tokio_channels_console::channel::{ChannelState, ChannelType};
use tokio_channels_console::stats::{ChannelStats, SerializableChannelStats};

fn record(sent: u64, received: u64, size: u64) -> ChannelStats {
    let mut stats = ChannelStats::new("src/lib.rs:5", None, ChannelType::Bounded(4), "u32", size);
    stats.sent_count = sent;
    stats.received_count = received;
    stats
}

#[test]
fn new_record_starts_at_zero_and_active() {
    let stats = ChannelStats::new("src/lib.rs:5", Some("jobs"), ChannelType::Unbounded, "String", 24);
    assert_eq!(stats.id, "src/lib.rs:5");
    assert_eq!(stats.label, Some("jobs"));
    assert_eq!(stats.channel_type, ChannelType::Unbounded);
    assert_eq!(stats.state, ChannelState::Active);
    assert_eq!(stats.sent_count, 0);
    assert_eq!(stats.received_count, 0);
    assert_eq!(stats.payload_type, "String");
    assert_eq!(stats.type_size, 24);
    assert_eq!(stats.queued(), 0);
    assert_eq!(stats.total_bytes(), 0);
    assert_eq!(stats.queued_bytes(), 0);
}

#[test]
fn queued_is_sent_minus_received() {
    assert_eq!(record(10, 4, 8).queued(), 6);
    assert_eq!(record(4, 4, 8).queued(), 0);
    assert_eq!(record(u64::MAX, 0, 0).queued(), u64::MAX);
}

#[test]
fn queued_is_zero_when_more_was_received_than_sent() {
    assert_eq!(record(3, 5, 8).queued(), 0);
}

#[test]
fn bytes_are_counts_times_size() {
    let stats = record(10, 4, 8);
    assert_eq!(stats.total_bytes(), 80);
    assert_eq!(stats.queued_bytes(), 48);
    let empty = record(10, 4, 0);
    assert_eq!(empty.total_bytes(), 0);
    assert_eq!(empty.queued_bytes(), 0);
}

#[test]
fn fits_tells_whether_the_bytes_can_be_counted() {
    assert!(record(10, 4, 8).fits());
    assert!(record(u64::MAX, 0, 1).fits());
    assert!(record(u64::MAX, 0, 0).fits());
    assert!(!record(u64::MAX, 0, 2).fits());
    assert!(!record(1 << 32, 0, 1 << 32).fits());
}

#[test]
fn update_state_follows_the_counters() {
    let mut stats = record(3, 1, 4);
    stats.update_state();
    assert_eq!(stats.state, ChannelState::Full);
    stats.received_count = 3;
    stats.update_state();
    assert_eq!(stats.state, ChannelState::Active);
    stats.received_count = 4;
    stats.update_state();
    assert_eq!(stats.state, ChannelState::Active);
}

#[test]
fn update_state_leaves_final_states() {
    let mut stats = record(3, 1, 4);
    stats.state = ChannelState::Closed;
    stats.update_state();
    assert_eq!(stats.state, ChannelState::Closed);
    stats.state = ChannelState::Notified;
    stats.update_state();
    assert_eq!(stats.state, ChannelState::Notified);
}

#[test]
fn update_state_changes_nothing_else() {
    let mut stats = record(3, 1, 4);
    stats.update_state();
    assert_eq!(stats.id, "src/lib.rs:5");
    assert_eq!(stats.sent_count, 3);
    assert_eq!(stats.received_count, 1);
    assert_eq!(stats.type_size, 4);
    assert_eq!(stats.channel_type, ChannelType::Bounded(4));
}

#[test]
fn resolved_label_uses_the_given_label_or_the_place() {
    let plain = ChannelStats::new("a/b/c/d.rs:9", None, ChannelType::Oneshot, "u8", 1);
    assert_eq!(plain.resolved_label(), "c/d.rs:9");
    let named = ChannelStats::new("a/b/c/d.rs:9", Some("hello-there"), ChannelType::Oneshot, "u8", 1);
    assert_eq!(named.resolved_label(), "hello-there");
}

#[test]
fn handed_out_form_holds_stored_and_derived_fields() {
    let mut stats = ChannelStats::new(
        "crates/app/examples/basic.rs:14",
        None,
        ChannelType::Bounded(10),
        "i32",
        4,
    );
    stats.sent_count = 7;
    stats.received_count = 5;
    stats.state = ChannelState::Full;
    let out = SerializableChannelStats::from_stats(&stats);
    assert_eq!(out.id, "crates/app/examples/basic.rs:14");
    assert_eq!(out.label, "examples/basic.rs:14");
    assert_eq!(out.channel_type, ChannelType::Bounded(10));
    assert_eq!(out.state, ChannelState::Full);
    assert_eq!(out.sent_count, 7);
    assert_eq!(out.received_count, 5);
    assert_eq!(out.queued, 2);
    assert_eq!(out.payload_type, "i32");
    assert_eq!(out.type_size, 4);
    assert_eq!(out.total_bytes, 28);
    assert_eq!(out.queued_bytes, 8);
}
