use tokio_channels_console::channel::ChannelType;
use tokio_channels_console::emit::{Emitter, Outcome};
use tokio_channels_console::format::Format;
use tokio_channels_console::guard::{build_report, Elapsed, Report};
use tokio_channels_console::registry::Registry;
use tokio_channels_console::server::{metrics_reply, not_found_reply, route, Route};
use tokio_channels_console::snapshot::get_serializable_stats;
use tokio_channels_console::stats::SerializableChannelStats;

/// One instrumented channel of a run: its emitter, feeding a registry.
struct Channel {
    emitter: Emitter,
}

impl Channel {
    fn new(
        registry: &mut Registry,
        id: &'static str,
        label: Option<&'static str>,
        kind: ChannelType,
        payload: &'static str,
        size: u64,
    ) -> Channel {
        let (emitter, created) = Emitter::created(id, label, kind, payload, size);
        registry.apply(created);
        Channel { emitter }
    }

    fn see(&mut self, registry: &mut Registry, outcome: Outcome) {
        for event in self.emitter.observe(outcome) {
            assert!(registry.can_apply(&event));
            registry.apply(event);
        }
    }
}

/// Three channels: an unbounded one and a bounded one that each carry three
/// messages, and a labeled oneshot that delivers its message.
fn basic_run(file: &'static [&'static str; 3]) -> Registry {
    let mut registry = Registry::new();
    let mut a = Channel::new(&mut registry, file[0], None, ChannelType::Unbounded, "i32", 4);
    let mut b = Channel::new(&mut registry, file[1], None, ChannelType::Bounded(10), "i32", 4);
    let mut c = Channel::new(
        &mut registry,
        file[2],
        Some("hello-there"),
        ChannelType::Oneshot,
        "alloc::string::String",
        24,
    );
    c.see(&mut registry, Outcome::Sent);
    c.see(&mut registry, Outcome::Received);
    for _ in 0..3 {
        a.see(&mut registry, Outcome::Sent);
        a.see(&mut registry, Outcome::Received);
    }
    for _ in 0..3 {
        b.see(&mut registry, Outcome::Sent);
        b.see(&mut registry, Outcome::Received);
    }
    registry
}

const BASIC: [&str; 3] = [
    "crates/tokio-channels-console-test/examples/basic.rs:12",
    "crates/tokio-channels-console-test/examples/basic.rs:16",
    "crates/tokio-channels-console-test/examples/basic.rs:20",
];

const BASIC_JSON: [&str; 3] = [
    "crates/tokio-channels-console-test/examples/basic_json.rs:14",
    "crates/tokio-channels-console-test/examples/basic_json.rs:18",
    "crates/tokio-channels-console-test/examples/basic_json.rs:22",
];

fn table_of(registry: &Registry) -> String {
    match build_report(Format::Table, registry, &Elapsed { secs: 1, nanos: 60_000_000 }) {
        Report::Table { heading, table } => format!("{}\n{}", heading, table),
        other => panic!("not a table: {:?}", other),
    }
}

fn json_value(stats: &SerializableChannelStats) -> serde_json::Value {
    let mut object = serde_json::Map::new();
    object.insert("id".to_string(), serde_json::Value::from(stats.id.clone()));
    object.insert("label".to_string(), serde_json::Value::from(stats.label.clone()));
    object.insert(
        "channel_type".to_string(),
        serde_json::Value::from(stats.channel_type.to_string()),
    );
    object.insert("state".to_string(), serde_json::Value::from(stats.state.as_str()));
    object.insert("sent_count".to_string(), serde_json::Value::from(stats.sent_count));
    object.insert("received_count".to_string(), serde_json::Value::from(stats.received_count));
    object.insert("queued".to_string(), serde_json::Value::from(stats.queued));
    object.insert("type_name".to_string(), serde_json::Value::from(stats.payload_type.clone()));
    object.insert("type_size".to_string(), serde_json::Value::from(stats.type_size));
    object.insert("total_bytes".to_string(), serde_json::Value::from(stats.total_bytes));
    object.insert("queued_bytes".to_string(), serde_json::Value::from(stats.queued_bytes));
    serde_json::Value::Object(object)
}

fn json_of(stats: &[SerializableChannelStats]) -> serde_json::Value {
    serde_json::Value::Array(stats.iter().map(json_value).collect())
}

#[test]
fn test_basic_output() {
    let stdout = table_of(&basic_run(&BASIC));
    let all_expected = [
        "examples/basic.rs",
        "hello-there",
        "unbounded",
        "bounded[10]",
        "oneshot",
        "notified",
    ];
    for expected in all_expected {
        assert!(stdout.contains(expected), "Expected:\n{expected}\n\nGot:\n{stdout}");
    }
    assert!(stdout.starts_with("\n=== Channel Statistics (runtime: 1.06s) ===\n+"));
}

#[test]
fn test_metrics_endpoint() {
    let registry = basic_run(&BASIC);
    assert_eq!(route("GET", "/metrics"), Route::Metrics);
    let stats = get_serializable_stats(&registry);
    let reply = metrics_reply(serde_json::to_string(&json_of(&stats)).map_err(|e| e.to_string()));
    assert_eq!(reply.status, 200);
    assert!(reply.json);
    let json_text = reply.body;
    let all_expected = ["basic.rs", "hello-there"];
    for expected in all_expected {
        assert!(json_text.contains(expected), "Expected:\n{expected}\n\nGot:\n{json_text}");
    }
    let decoded: serde_json::Value = serde_json::from_str(&json_text).unwrap();
    let array = decoded.as_array().unwrap();
    assert!(array.iter().any(|o| o["label"] == "hello-there" && o["channel_type"] == "oneshot"));
    let ids: Vec<&str> = array.iter().map(|o| o["id"].as_str().unwrap()).collect();
    let mut sorted = ids.clone();
    sorted.sort();
    assert_eq!(ids, sorted);
    assert_eq!(route("GET", "/other"), Route::NotFound);
    assert_eq!(not_found_reply().status, 404);
}

#[test]
fn test_basic_json_output() {
    let registry = basic_run(&BASIC_JSON);
    let stats = match build_report(Format::JsonPretty, &registry, &Elapsed { secs: 1, nanos: 0 }) {
        Report::JsonPretty(stats) => stats,
        other => panic!("not pretty JSON: {:?}", other),
    };
    let stdout = serde_json::to_string_pretty(&json_of(&stats)).unwrap();
    let all_expected = ["\"label\": \"examples/basic_json.rs:", "\"label\": \"hello-there\""];
    for expected in all_expected {
        assert!(stdout.contains(expected), "Expected:\n{expected}\n\nGot:\n{stdout}");
    }
}

#[test]
fn test_closed_channels_output() {
    let mut registry = Registry::new();
    let mut a = Channel::new(
        &mut registry,
        "crates/tokio-channels-console-test/examples/closed.rs:10",
        None,
        ChannelType::Unbounded,
        "i32",
        4,
    );
    let mut b = Channel::new(
        &mut registry,
        "crates/tokio-channels-console-test/examples/closed.rs:14",
        None,
        ChannelType::Bounded(10),
        "i32",
        4,
    );
    let mut c = Channel::new(
        &mut registry,
        "crates/tokio-channels-console-test/examples/closed.rs:18",
        None,
        ChannelType::Oneshot,
        "alloc::string::String",
        24,
    );
    for channel in [&mut a, &mut b] {
        for _ in 0..3 {
            channel.see(&mut registry, Outcome::Sent);
            channel.see(&mut registry, Outcome::Received);
        }
        channel.see(&mut registry, Outcome::ReceiverGone);
        channel.see(&mut registry, Outcome::SendFailed);
        channel.see(&mut registry, Outcome::Ended);
    }
    c.see(&mut registry, Outcome::Sent);
    c.see(&mut registry, Outcome::Received);
    c.see(&mut registry, Outcome::ReceiverGone);

    let stdout = table_of(&registry);
    let closed_count = stdout.matches("| closed").count();
    assert_eq!(
        closed_count, 2,
        "Expected 'closed' state to appear 2 times in table (bounded and unbounded), found {}.\nOutput:\n{}",
        closed_count, stdout
    );
    let notified_count = stdout.matches("| notified").count();
    assert_eq!(
        notified_count, 1,
        "Expected 'notified' state to appear 1 time in table (oneshot), found {}.\nOutput:\n{}",
        notified_count, stdout
    );
}

#[test]
fn test_oneshot_closed_output() {
    let mut registry = Registry::new();
    let mut c = Channel::new(
        &mut registry,
        "crates/tokio-channels-console-test/examples/oneshot_closed.rs:9",
        None,
        ChannelType::Oneshot,
        "alloc::string::String",
        24,
    );
    c.see(&mut registry, Outcome::ReceiverGone);
    c.see(&mut registry, Outcome::SendFailed);

    let stdout = table_of(&registry);
    let all_expected = ["| closed |", "oneshot_closed.rs:"];
    for expected in all_expected {
        assert!(stdout.contains(expected), "Expected:\n{expected}\n\nGot:\n{stdout}");
    }
}

#[test]
fn oneshot_that_delivers_ends_notified_not_closed() {
    let mut registry = Registry::new();
    let mut c = Channel::new(&mut registry, "src/main.rs:4", None, ChannelType::Oneshot, "u8", 1);
    c.see(&mut registry, Outcome::Sent);
    c.see(&mut registry, Outcome::Received);
    c.see(&mut registry, Outcome::Ended);
    let stats = get_serializable_stats(&registry);
    assert_eq!(stats[0].state.as_str(), "notified");
    assert_eq!(stats[0].channel_type.to_string(), "oneshot");
    assert_eq!((stats[0].sent_count, stats[0].received_count, stats[0].queued), (1, 1, 0));
}

#[test]
fn json_fields_read_back_as_they_were_written() {
    let registry = basic_run(&BASIC);
    let stats = get_serializable_stats(&registry);
    let text = serde_json::to_string(&json_of(&stats)).unwrap();
    let decoded: serde_json::Value = serde_json::from_str(&text).unwrap();
    for (object, want) in decoded.as_array().unwrap().iter().zip(stats.iter()) {
        let kind = tokio_channels_console::ChannelType::parse(object["channel_type"].as_str().unwrap());
        let state = tokio_channels_console::ChannelState::parse(object["state"].as_str().unwrap());
        assert_eq!(kind, Ok(want.channel_type));
        assert_eq!(state, Ok(want.state));
        assert_eq!(object["id"], want.id.as_str());
        assert_eq!(object["label"], want.label.as_str());
        assert_eq!(object["sent_count"], want.sent_count);
        assert_eq!(object["received_count"], want.received_count);
        assert_eq!(object["queued"], want.queued);
        assert_eq!(object["type_name"], want.payload_type.as_str());
        assert_eq!(object["type_size"], want.type_size);
        assert_eq!(object["total_bytes"], want.total_bytes);
        assert_eq!(object["queued_bytes"], want.queued_bytes);
    }
}
