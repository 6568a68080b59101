use tokio_channels_console::channel::{ChannelState, ChannelType};
use tokio_channels_console::poll::{diff_polls, order_by_label, Feed, LogLine};
use tokio_channels_console::stats::{ChannelStats, SerializableChannelStats};

fn shown(id: &'static str, sent: u64, received: u64, state: ChannelState) -> SerializableChannelStats {
    let mut stats = ChannelStats::new(id, None, ChannelType::Unbounded, "i32", 4);
    stats.sent_count = sent;
    stats.received_count = received;
    stats.state = state;
    SerializableChannelStats::from_stats(&stats)
}

fn texts(lines: &[LogLine]) -> Vec<(&str, &str)> {
    lines.iter().map(|l| (l.id.as_str(), l.text.as_str())).collect()
}

#[test]
fn no_change_gives_no_lines() {
    let prev = vec![shown("a.rs:1", 3, 2, ChannelState::Full)];
    let next = vec![shown("a.rs:1", 3, 2, ChannelState::Full)];
    assert!(diff_polls(&prev, &next).is_empty());
    assert!(diff_polls(&vec![], &vec![]).is_empty());
}

#[test]
fn gains_and_state_changes_give_lines() {
    let prev = vec![shown("a.rs:1", 3, 2, ChannelState::Full)];
    let next = vec![shown("a.rs:1", 8, 8, ChannelState::Active)];
    assert_eq!(
        texts(&diff_polls(&prev, &next)),
        vec![("a.rs:1", "sent +5"), ("a.rs:1", "received +6"), ("a.rs:1", "state → Active")]
    );
}

#[test]
fn closing_is_logged() {
    let prev = vec![shown("a.rs:1", 3, 3, ChannelState::Active)];
    let next = vec![shown("a.rs:1", 3, 3, ChannelState::Closed)];
    assert_eq!(texts(&diff_polls(&prev, &next)), vec![("a.rs:1", "state → Closed")]);
}

#[test]
fn new_channel_is_compared_with_nothing_seen() {
    let next = vec![
        shown("a.rs:1", 0, 0, ChannelState::Active),
        shown("b.rs:2", 2, 0, ChannelState::Full),
        shown("c.rs:3", 1, 1, ChannelState::Notified),
    ];
    assert_eq!(
        texts(&diff_polls(&vec![], &next)),
        vec![
            ("b.rs:2", "sent +2"),
            ("b.rs:2", "state → Full"),
            ("c.rs:3", "sent +1"),
            ("c.rs:3", "received +1"),
            ("c.rs:3", "state → Notified"),
        ]
    );
}

#[test]
fn counters_that_fell_give_no_gain_line() {
    let prev = vec![shown("a.rs:1", 10, 10, ChannelState::Active)];
    let next = vec![shown("a.rs:1", 2, 1, ChannelState::Full)];
    assert_eq!(texts(&diff_polls(&prev, &next)), vec![("a.rs:1", "state → Full")]);
}

#[test]
fn lines_follow_the_order_of_the_new_poll() {
    let prev = vec![
        shown("a.rs:1", 1, 0, ChannelState::Full),
        shown("b.rs:2", 1, 0, ChannelState::Full),
    ];
    let next = vec![
        shown("b.rs:2", 2, 0, ChannelState::Full),
        shown("a.rs:1", 4, 0, ChannelState::Full),
    ];
    assert_eq!(
        texts(&diff_polls(&prev, &next)),
        vec![("b.rs:2", "sent +1"), ("a.rs:1", "sent +3")]
    );
}

#[test]
fn large_gains_are_written_in_full() {
    let next = vec![shown("a.rs:1", u64::MAX, 0, ChannelState::Full)];
    let mut stats = next;
    stats[0].type_size = 0;
    assert_eq!(
        texts(&diff_polls(&vec![], &stats))[0],
        ("a.rs:1", "sent +18446744073709551615")
    );
}

#[test]
fn feed_starts_empty() {
    let feed = Feed::new();
    assert!(feed.channels.is_empty());
    assert!(feed.logs.is_empty());
    assert!(feed.warning.is_none());
}

#[test]
fn feed_takes_a_poll_and_logs_its_changes() {
    let mut feed = Feed::new();
    feed.on_poll(Ok(vec![shown("a.rs:1", 1, 0, ChannelState::Full)]));
    assert_eq!(feed.channels.len(), 1);
    assert_eq!(texts(&feed.logs), vec![("a.rs:1", "sent +1"), ("a.rs:1", "state → Full")]);
    feed.on_poll(Ok(vec![shown("a.rs:1", 1, 1, ChannelState::Active)]));
    assert_eq!(
        texts(&feed.logs),
        vec![
            ("a.rs:1", "sent +1"),
            ("a.rs:1", "state → Full"),
            ("a.rs:1", "received +1"),
            ("a.rs:1", "state → Active"),
        ]
    );
    assert_eq!(feed.channels[0].received_count, 1);
    assert!(feed.warning.is_none());
}

#[test]
fn feed_keeps_the_last_snapshot_when_a_poll_fails() {
    let mut feed = Feed::new();
    feed.on_poll(Ok(vec![shown("a.rs:1", 1, 0, ChannelState::Full)]));
    feed.on_poll(Err("connection refused".to_string()));
    assert_eq!(feed.channels.len(), 1);
    assert_eq!(feed.channels[0].sent_count, 1);
    assert_eq!(feed.logs.len(), 2);
    assert_eq!(feed.warning.as_deref(), Some("connection refused"));
    feed.on_poll(Ok(vec![shown("a.rs:1", 1, 0, ChannelState::Full)]));
    assert!(feed.warning.is_none());
    assert_eq!(feed.logs.len(), 2);
}

fn labeled(id: &'static str, label: &'static str) -> SerializableChannelStats {
    let stats = ChannelStats::new(id, Some(label), ChannelType::Unbounded, "i32", 4);
    SerializableChannelStats::from_stats(&stats)
}

#[test]
fn list_is_ordered_by_label() {
    let channels = vec![
        labeled("a.rs:1", "zebra"),
        labeled("b.rs:2", "apple"),
        labeled("c.rs:3", "mango"),
        labeled("d.rs:4", "Apple"),
    ];
    assert_eq!(order_by_label(&channels), vec![3, 1, 2, 0]);
}

#[test]
fn channels_of_one_label_stay_in_the_order_of_the_poll() {
    let channels = vec![
        labeled("a.rs:1", "same"),
        labeled("b.rs:2", "other"),
        labeled("c.rs:3", "same"),
        labeled("d.rs:4", "same"),
        labeled("e.rs:5", "a"),
    ];
    assert_eq!(order_by_label(&channels), vec![4, 1, 0, 2, 3]);
}

#[test]
fn order_of_no_channels_is_empty() {
    assert!(order_by_label(&vec![]).is_empty());
    assert_eq!(order_by_label(&vec![labeled("a.rs:1", "x")]), vec![0]);
}

#[test]
fn order_names_every_channel_once() {
    let labels = ["q", "c", "x", "c", "a", "zz", "z", "", "m", "c"];
    let channels: Vec<SerializableChannelStats> =
        labels.iter().map(|l| labeled("a.rs:1", l)).collect();
    let order = order_by_label(&channels);
    let mut seen = order.clone();
    seen.sort();
    assert_eq!(seen, (0..labels.len()).collect::<Vec<usize>>());
    for pair in order.windows(2) {
        let (a, b) = (pair[0], pair[1]);
        assert!(labels[a] < labels[b] || (labels[a] == labels[b] && a < b));
    }
}
