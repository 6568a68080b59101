//! The summary table: one row per channel under a row of headings, laid out by
//! the `prettytable` crate.

use vstd::prelude::*;
use crate::bytes::{bytes_text, format_bytes};
use crate::stats::ChannelStats;
use crate::text::{chars_of, decimal, decimal_of, string_of};

verus! {

/// The text in which `prettytable` lays out a table in its default format, given
/// the cells row by row.
pub uninterp spec fn table_text(rows: Seq<Seq<Seq<char>>>) -> Seq<char>;

/// The character that starts a terminal escape sequence.
pub open spec fn escape_char() -> char {
    '\u{1b}'
}

/// Whether no cell holds an escape character.
pub open spec fn rows_plain(rows: Seq<Seq<Seq<char>>>) -> bool {
    forall|i: int, j: int, k: int|
        0 <= i < rows.len() && 0 <= j < rows[i].len() && 0 <= k < rows[i][j].len()
            ==> #[trigger] rows[i][j][k] != escape_char()
}

/// Whether a text holds no escape character.
pub open spec fn plain(text: Seq<char>) -> bool {
    forall|k: int| 0 <= k < text.len() ==> #[trigger] text[k] != escape_char()
}

/// Whether no channel has a label with an escape character in it.
pub open spec fn labels_plain(recs: Seq<ChannelStats>) -> bool {
    forall|i: int| 0 <= i < recs.len() ==> plain(#[trigger] recs[i].display_label())
}

/// The headings of the eight columns.
pub open spec fn heading_row() -> Seq<Seq<char>> {
    seq![
        "Channel"@,
        "Type"@,
        "State"@,
        "Sent"@,
        "Mem"@,
        "Received"@,
        "Queued"@,
        "Mem"@,
    ]
}

/// The row of one channel: label, flavor, state, messages sent and their bytes,
/// messages received, messages waiting and their bytes.
pub open spec fn record_row(rec: ChannelStats) -> Seq<Seq<char>> {
    seq![
        rec.display_label(),
        rec.channel_type.text(),
        rec.state.text(),
        decimal(rec.sent_count as nat),
        bytes_text(rec.total_bytes_spec()),
        decimal(rec.received_count as nat),
        decimal(rec.queued_spec()),
        bytes_text(rec.queued_bytes_spec()),
    ]
}

/// The rows of the table for `recs`: the headings, then the channels in order.
pub open spec fn table_rows(recs: Seq<ChannelStats>) -> Seq<Seq<Seq<char>>> {
    seq![heading_row()] + recs.map_values(|rec: ChannelStats| record_row(rec))
}

/// Lays a table out with `prettytable`: `Table::new`, one `add_row` of a `Row` of
/// `Cell::new` cells per row, then `to_string`. The result is the text that the
/// crate's default format gives for these cells; it is not stated further. Cells with
/// an escape character are left out: the crate measures such cells in a way that
/// can make it panic.
#[verifier::external_body]
fn lay_out(rows: &Vec<Vec<String>>) -> (text: String)
    requires
        rows_plain(rows.deep_view()),
    ensures
        text@ == table_text(rows.deep_view()),
{
    let mut table = prettytable::Table::new();
    for row in rows.iter() {
        table.add_row(prettytable::Row::new(row.iter().map(|c| prettytable::Cell::new(c)).collect()));
    }
    table.to_string()
}

/// The decimal numeral of `n` as a string.
fn number_cell(n: u64) -> (s: String)
    ensures
        s@ == decimal(n as nat),
{
    string_of(&decimal_of(n as u128))
}

/// The string that holds the text of `s`.
fn word_cell(s: &str) -> (r: String)
    ensures
        r@ == s@,
{
    string_of(&chars_of(s))
}

/// The cells of the headings.
fn heading_cells() -> (row: Vec<String>)
    ensures
        row.deep_view() == heading_row(),
{
    let mut row: Vec<String> = Vec::new();
    row.push(word_cell("Channel"));
    row.push(word_cell("Type"));
    row.push(word_cell("State"));
    row.push(word_cell("Sent"));
    row.push(word_cell("Mem"));
    row.push(word_cell("Received"));
    row.push(word_cell("Queued"));
    row.push(word_cell("Mem"));
    assert(row.deep_view() =~= heading_row());
    row
}

/// The cells of one channel's row.
fn record_cells(rec: &ChannelStats) -> (row: Vec<String>)
    requires
        rec.wf(),
    ensures
        row.deep_view() == record_row(*rec),
{
    let mut row: Vec<String> = Vec::new();
    row.push(rec.resolved_label());
    row.push(rec.channel_type.to_string());
    row.push(rec.state.to_string());
    row.push(number_cell(rec.sent_count));
    row.push(format_bytes(rec.total_bytes()));
    row.push(number_cell(rec.received_count));
    row.push(number_cell(rec.queued()));
    row.push(format_bytes(rec.queued_bytes()));
    assert(row.deep_view() =~= record_row(*rec));
    row
}

/// The cells of the table for `recs`, row by row.
pub fn table_cells(recs: &Vec<ChannelStats>) -> (rows: Vec<Vec<String>>)
    requires
        forall|i: int| 0 <= i < recs.len() ==> (#[trigger] recs[i]).wf(),
    ensures
        rows.deep_view() == table_rows(recs@),
{
    let mut rows: Vec<Vec<String>> = Vec::new();
    rows.push(heading_cells());
    let mut i: usize = 0;
    assert(rows.deep_view() =~= table_rows(recs@.take(0)));
    while i < recs.len()
        invariant
            i <= recs.len(),
            forall|j: int| 0 <= j < recs.len() ==> (#[trigger] recs[j]).wf(),
            rows.deep_view() == table_rows(recs@.take(i as int)),
        decreases recs.len() - i,
    {
        let ghost before = rows.deep_view();
        let row = record_cells(&recs[i]);
        let ghost cells = row.deep_view();
        rows.push(row);
        assert(rows.deep_view() =~= before.push(cells));
        assert(recs@.take(i + 1) =~= recs@.take(i as int).push(recs@[i as int]));
        assert(rows.deep_view() =~= table_rows(recs@.take(i + 1)));
        i += 1;
    }
    assert(recs@.take(i as int) =~= recs@);
    rows
}

/// Whether no cell holds an escape character.
pub fn cells_plain(rows: &Vec<Vec<String>>) -> (r: bool)
    ensures
        r == rows_plain(rows.deep_view()),
{
    let mut i: usize = 0;
    while i < rows.len()
        invariant
            i <= rows.len(),
            rows_plain(rows.deep_view().take(i as int)),
        decreases rows.len() - i,
    {
        let mut j: usize = 0;
        while j < rows[i].len()
            invariant
                i < rows.len(),
                j <= rows[i as int].len(),
                forall|b: int, k: int|
                    0 <= b < j && 0 <= k < rows.deep_view()[i as int][b].len()
                        ==> #[trigger] rows.deep_view()[i as int][b][k] != escape_char(),
            decreases rows[i as int].len() - j,
        {
            let cell = chars_of(rows[i][j].as_str());
            assert(cell@ == rows.deep_view()[i as int][j as int]);
            let mut k: usize = 0;
            while k < cell.len()
                invariant
                    k <= cell.len(),
                    i < rows.len(),
                    j < rows[i as int].len(),
                    cell@ == rows.deep_view()[i as int][j as int],
                    forall|c: int| 0 <= c < k ==> cell@[c] != escape_char(),
                decreases cell.len() - k,
            {
                if cell[k] == '\u{1b}' {
                    assert(rows.deep_view()[i as int][j as int][k as int] == escape_char());
                    return false;
                }
                k += 1;
            }
            j += 1;
        }
        i += 1;
    }
    assert(rows.deep_view().take(i as int) =~= rows.deep_view());
    true
}

/// The table for `recs`, laid out; nothing where a label holds an escape
/// character, which the layout cannot take.
pub fn render_table(recs: &Vec<ChannelStats>) -> (r: Option<String>)
    requires
        forall|i: int| 0 <= i < recs.len() ==> (#[trigger] recs[i]).wf(),
    ensures
        r is Some <==> labels_plain(recs@),
        r matches Some(text) ==> text@ == table_text(table_rows(recs@)),
{
    proof {
        lemma_plain_labels_make_plain_rows(recs@);
    }
    let rows = table_cells(recs);
    if cells_plain(&rows) {
        Some(lay_out(&rows))
    } else {
        None
    }
}


/// A text of at most twelve characters is plain if each of them is.
proof fn lemma_short_text_is_plain(text: Seq<char>)
    requires
        text.len() <= 12,
        text.len() > 0 ==> text[0] != escape_char(),
        text.len() > 1 ==> text[1] != escape_char(),
        text.len() > 2 ==> text[2] != escape_char(),
        text.len() > 3 ==> text[3] != escape_char(),
        text.len() > 4 ==> text[4] != escape_char(),
        text.len() > 5 ==> text[5] != escape_char(),
        text.len() > 6 ==> text[6] != escape_char(),
        text.len() > 7 ==> text[7] != escape_char(),
        text.len() > 8 ==> text[8] != escape_char(),
        text.len() > 9 ==> text[9] != escape_char(),
        text.len() > 10 ==> text[10] != escape_char(),
        text.len() > 11 ==> text[11] != escape_char(),
    ensures
        plain(text),
{
    assert forall|k: int| 0 <= k < text.len() implies #[trigger] text[k] != escape_char() by {
        if k == 0 {
        } else if k == 1 {
        } else if k == 2 {
        } else if k == 3 {
        } else if k == 4 {
        } else if k == 5 {
        } else if k == 6 {
        } else if k == 7 {
        } else if k == 8 {
        } else if k == 9 {
        } else if k == 10 {
        } else {
        }
    }
}

/// Two plain texts put together are plain.
proof fn lemma_plain_add(a: Seq<char>, b: Seq<char>)
    requires
        plain(a),
        plain(b),
    ensures
        plain(a + b),
{
    assert forall|k: int| 0 <= k < (a + b).len() implies #[trigger] (a + b)[k]
        != escape_char() by {
        if k < a.len() {
            assert((a + b)[k] == a[k]);
        } else {
            assert((a + b)[k] == b[k - a.len()]);
        }
    }
}

/// Decimal numerals are plain.
proof fn lemma_decimal_is_plain(n: nat)
    ensures
        plain(decimal(n)),
{
    crate::text::lemma_decimal_denotes(n);
    assert forall|k: int| 0 <= k < decimal(n).len() implies #[trigger] decimal(n)[k]
        != escape_char() by {
        assert(crate::text::is_digit(decimal(n)[k]));
    }
}

/// The text of a byte count is plain.
proof fn lemma_bytes_text_is_plain(bytes: nat)
    ensures
        plain(bytes_text(bytes)),
{
    reveal_strlit(" ");
    reveal_strlit(".");
    reveal_strlit("B");
    reveal_strlit("KB");
    reveal_strlit("MB");
    reveal_strlit("GB");
    reveal_strlit("TB");
    let k = crate::bytes::unit_index(bytes);
    let unit = crate::bytes::unit_name(k);
    lemma_short_text_is_plain(" "@);
    lemma_short_text_is_plain("."@);
    lemma_short_text_is_plain(unit);
    if k == 0 {
        lemma_decimal_is_plain(bytes);
        lemma_plain_add(decimal(bytes), " "@);
        lemma_plain_add(decimal(bytes) + " "@, unit);
    } else {
        let t = crate::bytes::tenths(bytes);
        let whole = decimal(t / 10);
        let digit = seq![crate::text::digit_char(t % 10)];
        lemma_decimal_is_plain(t / 10);
        lemma_short_text_is_plain(digit);
        lemma_plain_add(whole, "."@);
        lemma_plain_add(whole + "."@, digit);
        lemma_plain_add(whole + "."@ + digit, " "@);
        lemma_plain_add(whole + "."@ + digit + " "@, unit);
    }
}

/// The headings are plain.
proof fn lemma_headings_are_plain()
    ensures
        forall|j: int| 0 <= j < heading_row().len() ==> plain(#[trigger] heading_row()[j]),
{
    reveal_strlit("Channel");
    reveal_strlit("Type");
    reveal_strlit("State");
    reveal_strlit("Sent");
    reveal_strlit("Mem");
    reveal_strlit("Received");
    reveal_strlit("Queued");
    lemma_short_text_is_plain("Channel"@);
    lemma_short_text_is_plain("Type"@);
    lemma_short_text_is_plain("State"@);
    lemma_short_text_is_plain("Sent"@);
    lemma_short_text_is_plain("Mem"@);
    lemma_short_text_is_plain("Received"@);
    lemma_short_text_is_plain("Queued"@);
}

/// In the row of a channel every cell but the label is plain.
proof fn lemma_counts_are_plain(rec: ChannelStats)
    ensures
        record_row(rec).len() == 8,
        record_row(rec)[0] == rec.display_label(),
        forall|j: int| 1 <= j < 8 ==> plain(#[trigger] record_row(rec)[j]),
{
    reveal_strlit("active");
    reveal_strlit("closed");
    reveal_strlit("full");
    reveal_strlit("notified");
    reveal_strlit("bounded[");
    reveal_strlit("]");
    reveal_strlit("unbounded");
    reveal_strlit("oneshot");
    lemma_short_text_is_plain(rec.state.text());
    match rec.channel_type {
        crate::channel::ChannelType::Bounded(n) => {
            lemma_short_text_is_plain("bounded["@);
            lemma_short_text_is_plain("]"@);
            lemma_decimal_is_plain(n as nat);
            lemma_plain_add("bounded["@, decimal(n as nat));
            lemma_plain_add("bounded["@ + decimal(n as nat), "]"@);
        },
        _ => {
            lemma_short_text_is_plain(rec.channel_type.text());
        },
    }
    lemma_decimal_is_plain(rec.sent_count as nat);
    lemma_decimal_is_plain(rec.received_count as nat);
    lemma_decimal_is_plain(rec.queued_spec());
    lemma_bytes_text_is_plain(rec.total_bytes_spec());
    lemma_bytes_text_is_plain(rec.queued_bytes_spec());
}

/// Only a label can stand in the way of the layout: the cells of a table are
/// free of escape characters exactly when the labels of its channels are.
pub proof fn lemma_plain_labels_make_plain_rows(recs: Seq<ChannelStats>)
    ensures
        rows_plain(table_rows(recs)) <==> labels_plain(recs),
{
    let rows = table_rows(recs);
    lemma_headings_are_plain();
    assert(rows[0] == heading_row());
    assert forall|i: int| 0 <= i < recs.len() implies rows[i + 1] == record_row(recs[i]) by {}
    if forall|i: int| 0 <= i < recs.len() ==> plain(#[trigger] recs[i].display_label()) {
        assert forall|i: int, j: int, k: int|
            0 <= i < rows.len() && 0 <= j < rows[i].len() && 0 <= k < rows[i][j].len() implies
            #[trigger] rows[i][j][k] != escape_char() by {
            if i == 0 {
                assert(plain(heading_row()[j]));
            } else {
                let rec = recs[i - 1];
                assert(rows[i] == record_row(rec));
                lemma_counts_are_plain(rec);
                if j == 0 {
                    assert(plain(rec.display_label()));
                } else {
                    assert(plain(record_row(rec)[j]));
                }
            }
        }
    }
    if rows_plain(rows) {
        assert forall|i: int| 0 <= i < recs.len() implies plain(
            #[trigger] recs[i].display_label(),
        ) by {
            let label = recs[i].display_label();
            lemma_counts_are_plain(recs[i]);
            assert(rows[i + 1][0] == label);
            assert forall|k: int| 0 <= k < label.len() implies #[trigger] label[k]
                != escape_char() by {
                assert(rows[i + 1][0][k] != escape_char());
            }
        }
    }
}

} // verus!
