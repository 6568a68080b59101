use tokio_channels_console::channel::ChannelType;
use tokio_channels_console::event::StatsEvent;
use tokio_channels_console::format::Format;
use tokio_channels_console::guard::{
    build_report, heading, no_channels_message, ChannelsGuard, ChannelsGuardBuilder, Elapsed,
    Report,
};
use tokio_channels_console::registry::Registry;

fn sample() -> Registry {
    let mut registry = Registry::new();
    registry.apply(StatsEvent::Created {
        id: "src/zeta.rs:10",
        display_label: Some("beta"),
        channel_type: ChannelType::Unbounded,
        payload_type: "i32",
        type_size: 4,
    });
    registry.apply(StatsEvent::Created {
        id: "src/alpha.rs:20",
        display_label: Some("gamma"),
        channel_type: ChannelType::Bounded(10),
        payload_type: "i32",
        type_size: 4,
    });
    registry.apply(StatsEvent::MessageSent { id: "src/zeta.rs:10" });
    registry
}

fn time(secs: u64, nanos: u32) -> Elapsed {
    Elapsed { secs, nanos }
}

#[test]
fn default_format_is_table() {
    assert_eq!(Format::default(), Format::Table);
    assert_eq!(ChannelsGuard::new().output_format(), Format::Table);
    assert_eq!(ChannelsGuard::default().output_format(), Format::Table);
    assert_eq!(ChannelsGuardBuilder::new().build().output_format(), Format::Table);
    assert_eq!(ChannelsGuardBuilder::default().build().output_format(), Format::Table);
}

#[test]
fn format_can_be_chosen() {
    assert_eq!(ChannelsGuard::new().format(Format::Json).output_format(), Format::Json);
    assert_eq!(
        ChannelsGuardBuilder::new().format(Format::JsonPretty).build().output_format(),
        Format::JsonPretty
    );
    assert_eq!(
        ChannelsGuardBuilder::new().format(Format::Json).format(Format::Table).build().output_format(),
        Format::Table
    );
}

#[test]
fn elapsed_has_two_digits_after_the_point() {
    assert_eq!(time(0, 0).to_string(), "0.00");
    assert_eq!(time(1, 230_000_000).to_string(), "1.23");
    assert_eq!(time(12, 5_000_001).to_string(), "12.01");
    assert_eq!(time(3, 50_000_000).to_string(), "3.05");
    assert_eq!(time(0, 4_999_999).to_string(), "0.00");
    assert_eq!(time(59, 999_999_999).to_string(), "60.00");
    assert_eq!(time(u64::MAX, 999_999_999).to_string(), "18446744073709551616.00");
}

#[test]
fn elapsed_rounds_halves_to_the_even_hundredth() {
    assert_eq!(time(0, 125_000_000).to_string(), "0.12");
    assert_eq!(time(0, 135_000_000).to_string(), "0.14");
    assert_eq!(time(0, 5_000_000).to_string(), "0.00");
    assert_eq!(time(0, 15_000_000).to_string(), "0.02");
}

#[test]
fn heading_names_the_runtime() {
    assert_eq!(heading(&time(2, 500_000_000)), "\n=== Channel Statistics (runtime: 2.50s) ===");
}

#[test]
fn empty_registry_gives_the_empty_report_in_every_format() {
    let registry = Registry::new();
    for format in [Format::Table, Format::Json, Format::JsonPretty] {
        assert!(matches!(build_report(format, &registry, &time(1, 0)), Report::Empty));
    }
    assert_eq!(no_channels_message(), "\nNo instrumented channels found.");
}

#[test]
fn table_report_is_sorted_by_label() {
    match build_report(Format::Table, &sample(), &time(0, 250_000_000)) {
        Report::Table { heading, table } => {
            assert_eq!(heading, "\n=== Channel Statistics (runtime: 0.25s) ===");
            let want = "\
+---------+-------------+--------+------+-----+----------+--------+-----+
| Channel | Type        | State  | Sent | Mem | Received | Queued | Mem |
+---------+-------------+--------+------+-----+----------+--------+-----+
| beta    | unbounded   | full   | 1    | 4 B | 0        | 1      | 4 B |
+---------+-------------+--------+------+-----+----------+--------+-----+
| gamma   | bounded[10] | active | 0    | 0 B | 0        | 0      | 0 B |
+---------+-------------+--------+------+-----+----------+--------+-----+
";
            assert_eq!(table, want);
        }
        other => panic!("not a table: {:?}", other),
    }
}

#[test]
fn table_report_falls_back_to_cells() {
    let mut registry = sample();
    registry.apply(StatsEvent::Created {
        id: "src/odd.rs:1",
        display_label: Some("\u{1b}[1m"),
        channel_type: ChannelType::Oneshot,
        payload_type: "u8",
        type_size: 1,
    });
    match build_report(Format::Table, &registry, &time(1, 0)) {
        Report::Cells { heading, rows } => {
            assert_eq!(heading, "\n=== Channel Statistics (runtime: 1.00s) ===");
            assert_eq!(rows.len(), 4);
            assert_eq!(rows[0][0], "Channel");
            assert_eq!(rows[1][0], "\u{1b}[1m");
            assert_eq!(rows[2][0], "beta");
            assert_eq!(rows[3][0], "gamma");
        }
        other => panic!("not cells: {:?}", other),
    }
}

#[test]
fn json_reports_are_sorted_by_id() {
    match build_report(Format::Json, &sample(), &time(1, 0)) {
        Report::Json(stats) => {
            let ids: Vec<&str> = stats.iter().map(|s| s.id.as_str()).collect();
            assert_eq!(ids, vec!["src/alpha.rs:20", "src/zeta.rs:10"]);
        }
        other => panic!("not JSON: {:?}", other),
    }
    match build_report(Format::JsonPretty, &sample(), &time(1, 0)) {
        Report::JsonPretty(stats) => {
            let labels: Vec<&str> = stats.iter().map(|s| s.label.as_str()).collect();
            assert_eq!(labels, vec!["gamma", "beta"]);
        }
        other => panic!("not pretty JSON: {:?}", other),
    }
}

#[test]
fn guard_reports_in_its_format() {
    let guard = ChannelsGuard::new();
    match guard.report(&sample()) {
        Report::Table { heading, table } => {
            assert!(heading.starts_with("\n=== Channel Statistics (runtime: "));
            assert!(heading.ends_with("s) ==="));
            assert!(table.contains("| beta    | unbounded   | full   |"));
        }
        other => panic!("not a table: {:?}", other),
    }
    assert!(matches!(guard.report(&Registry::new()), Report::Empty));
    let guard = ChannelsGuard::new().format(Format::Json);
    assert!(matches!(guard.report(&sample()), Report::Json(_)));
    let guard = ChannelsGuardBuilder::new().format(Format::JsonPretty).build();
    assert!(matches!(guard.report(&sample()), Report::JsonPretty(_)));
}

#[test]
fn guard_measures_time_that_is_well_formed() {
    let guard = ChannelsGuard::new();
    let first = guard.elapsed();
    let second = guard.elapsed();
    assert!(first.nanos < 1_000_000_000);
    assert!(second.nanos < 1_000_000_000);
    assert!((second.secs, second.nanos) >= (first.secs, first.nanos));
}
