use tokio_channels_console::channel::{ChannelState, ChannelType};
use tokio_channels_console::stats::ChannelStats;
use tokio_channels_console::table::{cells_plain, render_table, table_cells};

fn jobs() -> ChannelStats {
    let mut stats = ChannelStats::new("src/jobs.rs:3", Some("jobs"), ChannelType::Bounded(10), "u32", 4);
    stats.sent_count = 3;
    stats.received_count = 1;
    stats.state = ChannelState::Full;
    stats
}

#[test]
fn cells_start_with_the_headings() {
    let rows = table_cells(&vec![]);
    assert_eq!(
        rows,
        vec![vec!["Channel", "Type", "State", "Sent", "Mem", "Received", "Queued", "Mem"]]
    );
}

#[test]
fn cells_hold_one_row_per_channel() {
    let mut other = ChannelStats::new("a/b/c/d.rs:77", None, ChannelType::Oneshot, "String", 24);
    other.sent_count = 1;
    other.received_count = 1;
    other.state = ChannelState::Notified;
    let mut big = ChannelStats::new("big.rs:1", None, ChannelType::Unbounded, "Frame", 1536);
    big.sent_count = 1024;
    let rows = table_cells(&vec![jobs(), other, big]);
    assert_eq!(rows.len(), 4);
    assert_eq!(rows[1], vec!["jobs", "bounded[10]", "full", "3", "12 B", "1", "2", "8 B"]);
    assert_eq!(rows[2], vec!["c/d.rs:77", "oneshot", "notified", "1", "24 B", "1", "0", "0 B"]);
    assert_eq!(rows[3], vec!["big.rs:1", "unbounded", "active", "1024", "1.5 MB", "0", "1024", "1.5 MB"]);
}

#[test]
fn table_is_laid_out_in_a_grid() {
    let text = render_table(&vec![jobs()]).unwrap();
    let want = "\
+---------+-------------+-------+------+------+----------+--------+-----+
| Channel | Type        | State | Sent | Mem  | Received | Queued | Mem |
+---------+-------------+-------+------+------+----------+--------+-----+
| jobs    | bounded[10] | full  | 3    | 12 B | 1        | 2      | 8 B |
+---------+-------------+-------+------+------+----------+--------+-----+
";
    assert_eq!(text, want);
}

#[test]
fn table_without_channels_has_only_the_headings() {
    let text = render_table(&vec![]).unwrap();
    let want = "\
+---------+------+-------+------+-----+----------+--------+-----+
| Channel | Type | State | Sent | Mem | Received | Queued | Mem |
+---------+------+-------+------+-----+----------+--------+-----+
";
    assert_eq!(text, want);
}

#[test]
fn table_is_not_laid_out_with_an_escape_character_in_a_label() {
    let odd = ChannelStats::new("src/jobs.rs:3", Some("\u{1b}[31mred"), ChannelType::Unbounded, "u32", 4);
    assert!(render_table(&vec![jobs(), odd]).is_none());
    assert!(!cells_plain(&table_cells(&vec![odd])));
    assert!(cells_plain(&table_cells(&vec![jobs()])));
}

#[test]
fn table_columns_grow_with_wide_labels() {
    let wide = ChannelStats::new("x.rs:1", Some("a-rather-long-label"), ChannelType::Unbounded, "u32", 4);
    let text = render_table(&vec![wide]).unwrap();
    assert!(text.contains("| a-rather-long-label | unbounded | active | 0    | 0 B | 0        | 0      | 0 B |\n"));
    assert!(text.contains("| Channel             | Type      | State  | Sent | Mem | Received | Queued | Mem |\n"));
}
