//! The value of a signal at one point in time.

use crate::text::{append_quoted, append_text, bracketed, debug_text, join_rows, rows_view, text};
use crate::time_table::TimeTable;
use crate::transitions::{in_range, resolve_times, timestamps, EncodeError, SignalChanges, Transition};
use vstd::prelude::*;
use vstd::string::StringExecFns;

verus! {

/// A path of the query that was resolved to a signal.
pub struct PathRequest {
    pub path: String,
    pub signal_id: u32,
}

/// The values of the transitions as text.
pub open spec fn value_texts(changes: Seq<Transition>) -> Seq<Seq<char>> {
    Seq::new(changes.len(), |i: int| changes[i].value@)
}

/// The value before transition `i`, if there is one.
pub open spec fn prior(values: Seq<Seq<char>>, i: int) -> Seq<Seq<char>> {
    if i > 0 {
        seq![values[i - 1]]
    } else {
        Seq::empty()
    }
}

/// The walk over the transitions from number `i` on: it ends at the first
/// one that is not before the query time, or behind the last. The prior value
/// is reported, and after it the value of a transition that falls on the query
/// time itself.
pub open spec fn report_from(times: Seq<u64>, values: Seq<Seq<char>>, query: u64, i: int) -> Seq<
    Seq<char>,
>
    decreases times.len() - i,
{
    if i < 0 || i >= times.len() || times[i] > query {
        prior(values, i)
    } else if times[i] == query {
        prior(values, i).push(values[i])
    } else {
        report_from(times, values, query, i + 1)
    }
}

/// The values that a signal with these transitions reports for the query
/// time: none, one or two.
pub open spec fn value_report(times: Seq<u64>, values: Seq<Seq<char>>, query: u64) -> Seq<
    Seq<char>,
> {
    report_from(times, values, query, 0)
}

/// The reported values as an array of quoted texts.
pub open spec fn report_text(values: Seq<Seq<char>>) -> Seq<char> {
    if values.len() == 0 {
        "[]"@
    } else if values.len() == 1 {
        "[\""@ + values[0] + "\"]"@
    } else {
        "[\""@ + values[0] + "\",\""@ + values[1] + "\"]"@
    }
}

/// The entry of the result for one path.
pub open spec fn entry_text(path: Seq<char>, report: Seq<char>) -> Seq<u8> {
    text("{\"instancePath\":") + debug_text(path) + text(",\"value\":") + debug_text(report)
        + text("}")
}

/// The entries for the first `n` requests that name the signal.
pub open spec fn rows_of_signal(
    requests: Seq<PathRequest>,
    n: nat,
    signal_id: u32,
    report: Seq<char>,
) -> Seq<Seq<u8>>
    decreases n,
{
    if n == 0 {
        Seq::empty()
    } else {
        let head = rows_of_signal(requests, (n - 1) as nat, signal_id, report);
        if requests[n - 1].signal_id == signal_id {
            head.push(entry_text(requests[n - 1].path@, report))
        } else {
            head
        }
    }
}

/// What one signal reports for the query time, as text.
pub open spec fn signal_report(signal: SignalChanges, table: Seq<u64>, query: u64) -> Seq<char> {
    report_text(
        value_report(timestamps(signal.changes@, table), value_texts(signal.changes@), query),
    )
}

/// The entries for the first `m` signals: signal by signal, and for each the
/// requests that name it, in their order.
pub open spec fn rows_of_signals(
    signals: Seq<SignalChanges>,
    m: nat,
    requests: Seq<PathRequest>,
    table: Seq<u64>,
    query: u64,
) -> Seq<Seq<u8>>
    decreases m,
{
    if m == 0 {
        Seq::empty()
    } else {
        rows_of_signals(signals, (m - 1) as nat, requests, table, query) + rows_of_signal(
            requests,
            requests.len(),
            signals[m - 1].signal_id,
            signal_report(signals[m - 1], table, query),
        )
    }
}

/// Every transition of every signal names a time index of the table.
pub open spec fn all_in_range(signals: Seq<SignalChanges>, table: Seq<u64>) -> bool {
    forall|a: int| 0 <= a < signals.len() ==> in_range((#[trigger] signals[a]).changes@, table)
}

/// The values that a signal with these transitions reports for the query
/// time, as an array of quoted texts; nothing where a transition names a time
/// index that the table does not have.
pub fn value_at_time(changes: &Vec<Transition>, table: &TimeTable, query: u64) -> (r: Option<
    String,
>)
    ensures
        r is Some <==> in_range(changes@, table@),
        r matches Some(s) ==> s@ == report_text(
            value_report(timestamps(changes@, table@), value_texts(changes@), query),
        ),
{
    match resolve_times(changes, table) {
        Some(times) => Some(report_at(&times, changes, query)),
        None => None,
    }
}

fn report_at(times: &Vec<u64>, changes: &Vec<Transition>, query: u64) -> (r: String)
    requires
        times@.len() == changes@.len(),
    ensures
        r@ == report_text(value_report(times@, value_texts(changes@), query)),
{
    let ghost values = value_texts(changes@);
    let mut i: usize = 0;
    while i < changes.len() && times[i] < query
        invariant
            i <= changes.len(),
            times@.len() == changes@.len(),
            values == value_texts(changes@),
            value_report(times@, values, query) == report_from(times@, values, query, i as int),
        decreases changes.len() - i,
    {
        i += 1;
    }
    let mut out = String::from_str("[");
    proof {
        reveal_strlit("[");
        reveal_strlit("[]");
        reveal_strlit("[\"");
        reveal_strlit("\"]");
        reveal_strlit("\",\"");
        reveal_strlit("]");
        reveal_strlit("\"");
    }
    let ghost reported = report_from(times@, values, query, i as int);
    if i > 0 {
        out.append("\"");
        out.append(changes[i - 1].value.as_str());
        out.append("\"");
    }
    if i < changes.len() && times[i] == query {
        if i > 0 {
            out.append(",");
            proof {
                reveal_strlit(",");
            }
        }
        out.append("\"");
        out.append(changes[i].value.as_str());
        out.append("\"");
        assert(reported == prior(values, i as int).push(values[i as int]));
    } else {
        assert(reported == prior(values, i as int));
    }
    out.append("]");
    assert(out@ =~= report_text(reported));
    out
}

/// The result of a query for the values at one time: an array with one entry
/// per resolved path, keyed by the path, signal by signal in the order in
/// which the signals were loaded. It fails where a transition names a time
/// index that the table does not have.
pub fn values_at_time(
    time: u64,
    requests: &Vec<PathRequest>,
    signals: &Vec<SignalChanges>,
    table: &TimeTable,
) -> (r: Result<Vec<u8>, EncodeError>)
    ensures
        r is Ok <==> all_in_range(signals@, table@),
        r matches Ok(t) ==> t@ == bracketed(
            rows_of_signals(signals@, signals@.len(), requests@, table@, time),
        ),
        r matches Err(e) ==> e == EncodeError::TimeIndexOutOfRange,
{
    let mut rows: Vec<Vec<u8>> = Vec::new();
    let mut a: usize = 0;
    while a < signals.len()
        invariant
            a <= signals.len(),
            forall|k: int| 0 <= k < a ==> in_range((#[trigger] signals@[k]).changes@, table@),
            rows_view(rows@) == rows_of_signals(signals@, a as nat, requests@, table@, time),
        decreases signals.len() - a,
    {
        let signal = &signals[a];
        let report = match value_at_time(&signal.changes, table, time) {
            Some(report) => report,
            None => {
                return Err(EncodeError::TimeIndexOutOfRange);
            },
        };
        let ghost before = rows_view(rows@);
        let mut b: usize = 0;
        while b < requests.len()
            invariant
                b <= requests.len(),
                report@ == signal_report(*signal, table@, time),
                rows_view(rows@) == before + rows_of_signal(
                    requests@,
                    b as nat,
                    signal.signal_id,
                    report@,
                ),
            decreases requests.len() - b,
        {
            if requests[b].signal_id == signal.signal_id {
                let mut row: Vec<u8> = Vec::new();
                append_text(&mut row, "{\"instancePath\":");
                append_quoted(&mut row, requests[b].path.as_str());
                append_text(&mut row, ",\"value\":");
                append_quoted(&mut row, report.as_str());
                append_text(&mut row, "}");
                let ghost old_rows = rows_view(rows@);
                rows.push(row);
                assert(rows_view(rows@) =~= old_rows.push(row@));
            }
            b += 1;
        }
        a += 1;
    }
    Ok(join_rows(&rows))
}

/// The pieces that the delimiter cuts the data into, from position `i` on,
/// where the piece under way began at `start`: each piece from its first byte
/// to behind its last. Two delimiters in a row have an empty piece between
/// them, and so has a delimiter at either end of the data.
pub open spec fn pieces_from(data: Seq<u8>, delimiter: u8, start: int, i: int) -> Seq<(int, int)>
    decreases data.len() - i,
{
    if i >= data.len() {
        seq![(start, data.len() as int)]
    } else if data[i] == delimiter {
        seq![(start, i)] + pieces_from(data, delimiter, i + 1, i + 1)
    } else {
        pieces_from(data, delimiter, start, i + 1)
    }
}

/// The pieces that the delimiter cuts the data into.
pub open spec fn pieces(data: Seq<u8>, delimiter: u8) -> Seq<(int, int)> {
    pieces_from(data, delimiter, 0, 0)
}

/// The ranges as pairs of integers.
pub open spec fn piece_views(ranges: Seq<(usize, usize)>) -> Seq<(int, int)> {
    Seq::new(ranges.len(), |i: int| (ranges[i].0 as int, ranges[i].1 as int))
}

/// Cuts the data at every delimiter: the list of paths of a query at its
/// blanks, a path at its dots. The last piece of a path is the name of the
/// variable, and the pieces before it name the scopes that enclose it.
pub fn split_ranges(data: &[u8], delimiter: u8) -> (r: Vec<(usize, usize)>)
    ensures
        piece_views(r@) == pieces(data@, delimiter),
        r@.len() >= 1,
        forall|k: int| 0 <= k < r@.len() ==> (#[trigger] r@[k]).0 <= r@[k].1 <= data@.len(),
{
    let mut ranges: Vec<(usize, usize)> = Vec::new();
    let mut start: usize = 0;
    let mut i: usize = 0;
    while i < data.len()
        invariant
            start <= i <= data.len(),
            pieces(data@, delimiter) == piece_views(ranges@) + pieces_from(
                data@,
                delimiter,
                start as int,
                i as int,
            ),
            forall|k: int|
                0 <= k < ranges@.len() ==> (#[trigger] ranges@[k]).0 <= ranges@[k].1 <= data@.len(),
        decreases data.len() - i,
    {
        if data[i] == delimiter {
            let ghost done = piece_views(ranges@);
            let ghost rest = pieces_from(data@, delimiter, i + 1, i + 1);
            ranges.push((start, i));
            assert(piece_views(ranges@) =~= done + seq![(start as int, i as int)]);
            assert(done + (seq![(start as int, i as int)] + rest) =~= (done + seq![
                (start as int, i as int),
            ]) + rest);
            start = i + 1;
        }
        i += 1;
    }
    let ghost done = piece_views(ranges@);
    ranges.push((start, data.len()));
    assert(piece_views(ranges@) =~= done + seq![(start as int, data@.len() as int)]);
    ranges
}

} // verus!
