//! The guard of a run: made at the start, it reports on all channels when the
//! run is over, in the format chosen for it.

use vstd::prelude::*;
use std::time::{Duration, Instant};
use crate::bytes::round_half_even;
use crate::format::Format;
use crate::registry::Registry;
use crate::snapshot::{
    describes_all, get_serializable_stats, id_key, is_sorted_form, label_key,
};
use crate::stats::{ChannelStats, SerializableChannelStats};
use crate::table::{labels_plain, render_table, table_cells, table_rows, table_text};
use crate::text::{decimal, digit_char, digit_of, push_decimal, push_str, string_of};

verus! {

/// A point in time of std's monotonic clock.
#[verifier::external_type_specification]
#[verifier::external_body]
pub struct ExInstant(Instant);

/// `Instant::now` of std reads the clock; nothing is stated of what it reads.
pub assume_specification[ Instant::now ]() -> (now: Instant)
;

/// `Instant::elapsed` of std gives the time since the instant; nothing is stated
/// of how long that is.
pub assume_specification[ Instant::elapsed ](start: &Instant) -> (d: Duration)
;

/// `Duration::as_secs` of std gives the whole seconds of the duration; nothing is
/// stated of their number.
pub assume_specification[ Duration::as_secs ](d: &Duration) -> (secs: u64)
;

/// `Duration::subsec_nanos` of std gives what the duration has beyond its whole
/// seconds, in nanoseconds: always less than one second.
pub assume_specification[ Duration::subsec_nanos ](d: &Duration) -> (nanos: u32)
    ensures
        nanos < 1_000_000_000,
;

/// A length of time: whole seconds, and the rest in nanoseconds.
#[derive(Debug, Clone, Copy, PartialEq, Eq, Structural)]
pub struct Elapsed {
    pub secs: u64,
    pub nanos: u32,
}

impl Elapsed {
    /// The rest is less than a second.
    pub open spec fn wf(self) -> bool {
        self.nanos < 1_000_000_000
    }

    /// The length in hundredths of a second, rounded to the nearest, a value
    /// halfway between two going to the even one.
    pub open spec fn hundredths(self) -> nat {
        self.secs as nat * 100 + round_half_even(self.nanos as nat, 10_000_000)
    }

    /// The length in seconds with two digits after the point.
    pub open spec fn text(self) -> Seq<char> {
        let h = self.hundredths();
        decimal(h / 100) + "."@ + seq![digit_char(h % 100 / 10), digit_char(h % 10)]
    }

    /// The length in seconds with two digits after the point.
    pub fn to_string(&self) -> (s: String)
        requires
            self.wf(),
        ensures
            s@ == self.text(),
    {
        let q: u32 = self.nanos / 10_000_000;
        let r: u32 = self.nanos % 10_000_000;
        let part: u32 = if 2 * r > 10_000_000 || (2 * r == 10_000_000 && q % 2 == 1) {
            q + 1
        } else {
            q
        };
        let h: u128 = (self.secs as u128) * 100 + (part as u128);
        assert(h == self.hundredths());
        let mut out: Vec<char> = Vec::new();
        push_decimal(&mut out, h / 100);
        push_str(&mut out, ".");
        out.push(digit_of(h % 100 / 10));
        out.push(digit_of(h % 10));
        assert(out@ =~= self.text());
        string_of(&out)
    }
}

/// The heading over the summary table, with the length of the run.
pub open spec fn heading_text(elapsed: Elapsed) -> Seq<char> {
    "\n=== Channel Statistics (runtime: "@ + elapsed.text() + "s) ==="@
}

/// What is said when no channel is on record.
pub open spec fn no_channels_text() -> Seq<char> {
    "\nNo instrumented channels found."@
}

/// The heading over the summary table, with the length of the run.
pub fn heading(elapsed: &Elapsed) -> (s: String)
    requires
        elapsed.wf(),
    ensures
        s@ == heading_text(*elapsed),
{
    let mut out: Vec<char> = Vec::new();
    push_str(&mut out, "\n=== Channel Statistics (runtime: ");
    push_str(&mut out, elapsed.to_string().as_str());
    push_str(&mut out, "s) ===");
    assert(out@ =~= heading_text(*elapsed));
    string_of(&out)
}

/// What is said when no channel is on record.
pub fn no_channels_message() -> (s: &'static str)
    ensures
        s@ == no_channels_text(),
{
    "\nNo instrumented channels found."
}

/// The summary of a run, ready to be written out.
#[derive(Debug)]
pub enum Report {
    /// No channel is on record.
    Empty,
    /// The heading and the table laid out.
    Table { heading: String, table: String },
    /// The heading and the cells of the table, where a label holds an escape
    /// character and the table cannot be laid out.
    Cells { heading: String, rows: Vec<Vec<String>> },
    /// The records, to be written as one line of JSON.
    Json(Vec<SerializableChannelStats>),
    /// The records, to be written as indented JSON.
    JsonPretty(Vec<SerializableChannelStats>),
}

impl Report {
    /// Whether this is the table report on the records `sorted` after a run of
    /// length `elapsed`: the table laid out, or its cells where it cannot be.
    pub open spec fn is_table_of(self, sorted: Seq<ChannelStats>, elapsed: Elapsed) -> bool {
        if labels_plain(sorted) {
            &&& self is Table
            &&& self->Table_heading@ == heading_text(elapsed)
            &&& self->table@ == table_text(table_rows(sorted))
        } else {
            &&& self is Cells
            &&& self->Cells_heading@ == heading_text(elapsed)
            &&& self->rows.deep_view() == table_rows(sorted)
        }
    }

    /// Whether this is the report in `format` on the records `recs` after a run
    /// of length `elapsed`. Without records the report is empty, whatever the
    /// format. The table shows the records sorted by label, the JSON forms hold
    /// them sorted by identifier.
    pub open spec fn is_report_of(
        self,
        format: Format,
        recs: Seq<ChannelStats>,
        elapsed: Elapsed,
    ) -> bool {
        if recs.len() == 0 {
            self is Empty
        } else {
            match format {
                Format::Table => exists|sorted: Seq<ChannelStats>| #[trigger]
                    is_sorted_form(sorted, recs, label_key()) && self.is_table_of(sorted, elapsed),
                Format::Json => self is Json && exists|sorted: Seq<ChannelStats>| #[trigger]
                    is_sorted_form(sorted, recs, id_key()) && describes_all(self->Json_0@, sorted),
                Format::JsonPretty => self is JsonPretty && exists|sorted: Seq<ChannelStats>|
                 #[trigger]
                    is_sorted_form(sorted, recs, id_key()) && describes_all(
                        self->JsonPretty_0@,
                        sorted,
                    ),
            }
        }
    }
}

/// The report in `format` on the channels of `registry` after a run of length
/// `elapsed`.
pub fn build_report(format: Format, registry: &Registry, elapsed: &Elapsed) -> (r: Report)
    requires
        registry.wf(),
        elapsed.wf(),
    ensures
        r.is_report_of(format, registry@, *elapsed),
{
    if registry.is_empty() {
        return Report::Empty;
    }
    match format {
        Format::Table => {
            let sorted = registry.snapshot();
            proof {
                assert forall|i: int| 0 <= i < sorted@.len() implies (#[trigger] sorted@[i]).wf() by {
                    crate::snapshot::lemma_member_of_original(sorted@, registry@, i);
                }
            }
            let r = match render_table(&sorted) {
                Some(table) => Report::Table { heading: heading(elapsed), table },
                None => Report::Cells { heading: heading(elapsed), rows: table_cells(&sorted) },
            };
            assert(is_sorted_form(sorted@, registry@, label_key()) && r.is_table_of(
                sorted@,
                *elapsed,
            ));
            r
        },
        Format::Json => Report::Json(get_serializable_stats(registry)),
        Format::JsonPretty => Report::JsonPretty(get_serializable_stats(registry)),
    }
}

/// Guard of a run. It remembers when the run began and in which format the
/// summary is wanted.
pub struct ChannelsGuard {
    start_time: Instant,
    format: Format,
}

/// Builder of a [`ChannelsGuard`] with a format of one's choice.
pub struct ChannelsGuardBuilder {
    format: Format,
}

impl ChannelsGuardBuilder {
    /// The format that the guard will have.
    pub closed spec fn chosen(self) -> Format {
        self.format
    }

    /// A builder for a guard that reports as a table.
    pub fn new() -> (b: ChannelsGuardBuilder)
        ensures
            b.chosen() == Format::Table,
    {
        ChannelsGuardBuilder { format: Format::Table }
    }

    /// Chooses the format of the summary.
    pub fn format(self, format: Format) -> (b: ChannelsGuardBuilder)
        ensures
            b.chosen() == format,
    {
        ChannelsGuardBuilder { format }
    }

    /// The guard, its run beginning now.
    pub fn build(self) -> (g: ChannelsGuard)
        ensures
            g.chosen() == self.chosen(),
    {
        ChannelsGuard { start_time: Instant::now(), format: self.format }
    }
}

impl Default for ChannelsGuardBuilder {
    fn default() -> (b: ChannelsGuardBuilder)
        ensures
            b.chosen() == Format::Table,
    {
        ChannelsGuardBuilder::new()
    }
}

impl ChannelsGuard {
    /// The format in which the guard reports.
    pub closed spec fn chosen(self) -> Format {
        self.format
    }

    /// The instant at which the run began.
    pub closed spec fn started(self) -> Instant {
        self.start_time
    }

    /// A guard that reports as a table, its run beginning now.
    pub fn new() -> (g: ChannelsGuard)
        ensures
            g.chosen() == Format::Table,
    {
        ChannelsGuard { start_time: Instant::now(), format: Format::Table }
    }

    /// Chooses the format of the summary; the beginning of the run stays.
    pub fn format(self, format: Format) -> (g: ChannelsGuard)
        ensures
            g.chosen() == format,
            g.started() == self.started(),
    {
        ChannelsGuard { start_time: self.start_time, format }
    }

    /// The format in which the guard reports.
    pub fn output_format(&self) -> (f: Format)
        ensures
            f == self.chosen(),
    {
        self.format
    }

    /// How long the run has lasted.
    pub fn elapsed(&self) -> (e: Elapsed)
        ensures
            e.wf(),
    {
        let d = self.start_time.elapsed();
        Elapsed { secs: d.as_secs(), nanos: d.subsec_nanos() }
    }

    /// The summary of the run so far: the report, in the guard's format, on the
    /// channels of `registry` and the time that the clock gives.
    pub fn report(&self, registry: &Registry) -> (r: Report)
        requires
            registry.wf(),
        ensures
            exists|elapsed: Elapsed|
                elapsed.wf() && #[trigger] r.is_report_of(self.chosen(), registry@, elapsed),
    {
        let elapsed = self.elapsed();
        build_report(self.format, registry, &elapsed)
    }
}

impl Default for ChannelsGuard {
    fn default() -> (g: ChannelsGuard)
        ensures
            g.chosen() == Format::Table,
    {
        ChannelsGuard::new()
    }
}

} // verus!
