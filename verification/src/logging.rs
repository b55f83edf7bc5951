//! Structured send/receive logging: timestamped entries, their text form,
//! and the generated file names. Writing to disk is left to the caller.

use vstd::prelude::*;
use vstd::string::StringExecFns;
use crate::clock::Timestamp;
use crate::clock::spec_datetime_millis;
use crate::clock::spec_compact;
use crate::clock::format_datetime_millis;
use crate::clock::format_compact;
use crate::codec::lossy_decode;
use crate::codec::lossy_utf8;

verus! {

/// Whether bytes came from the device or were sent to it.
#[derive(Debug, Clone, Copy, PartialEq, Eq, Structural)]
pub enum Direction {
    Received,
    Sent,
}

/// One recorded transfer: when, which way, and the raw bytes.
#[derive(Debug, Clone)]
pub struct DataLogEntry {
    pub timestamp: String,
    pub direction: Direction,
    pub data: Vec<u8>,
}

/// Build one entry, timestamped with millisecond precision.
pub fn create_log_entry(direction: Direction, data: &[u8], now: &Timestamp) -> (e: DataLogEntry)
    requires
        now.wf(),
    ensures
        e.timestamp@ == spec_datetime_millis(*now),
        e.direction == direction,
        e.data@ == data@,
{
    DataLogEntry {
        timestamp: format_datetime_millis(now),
        direction,
        data: vstd::slice::slice_to_vec(data),
    }
}

/// `RX` or `TX`.
pub open spec fn spec_dir_chars(d: Direction) -> Seq<char> {
    match d {
        Direction::Received => seq!['R', 'X'],
        Direction::Sent => seq!['T', 'X'],
    }
}

/// One log line: `[timestamp] RX|TX: <lossy text>` and a newline.
pub open spec fn spec_log_line(e: DataLogEntry) -> Seq<char> {
    seq!['['] + e.timestamp@ + seq![']', ' '] + spec_dir_chars(e.direction) + seq![':', ' ']
        + lossy_decode(e.data@) + seq!['\n']
}

/// The first `k` log lines, concatenated.
pub open spec fn spec_log_lines_upto(entries: Seq<DataLogEntry>, k: int) -> Seq<char>
    decreases k,
{
    if k <= 0 {
        Seq::empty()
    } else {
        spec_log_lines_upto(entries, k - 1) + spec_log_line(entries[k - 1])
    }
}

/// The whole log as text, one line per entry.
pub open spec fn spec_log_lines(entries: Seq<DataLogEntry>) -> Seq<char> {
    spec_log_lines_upto(entries, entries.len() as int)
}

fn dir_str(d: Direction) -> (s: &'static str)
    ensures
        s@ == spec_dir_chars(d),
{
    proof {
        reveal_strlit("RX");
        reveal_strlit("TX");
    }
    match d {
        Direction::Received => "RX",
        Direction::Sent => "TX",
    }
}

/// The log as text: one `[timestamp] RX|TX: <lossy text>` line per entry.
/// The caller persists this text; a write failure is the caller's to report.
pub fn format_log_lines(entries: &Vec<DataLogEntry>) -> (s: String)
    ensures
        s@ == spec_log_lines(entries@),
{
    let mut out = String::new();
    let n = entries.len();
    let mut i: usize = 0;
    while i < n
        invariant
            n == entries@.len(),
            i <= n,
            out@ == spec_log_lines_upto(entries@, i as int),
        decreases n - i,
    {
        let e = &entries[i];
        proof {
            reveal_strlit("[");
            reveal_strlit("] ");
            reveal_strlit(": ");
            reveal_strlit("\n");
        }
        out.append("[");
        out.append(e.timestamp.as_str());
        out.append("] ");
        out.append(dir_str(e.direction));
        out.append(": ");
        let text = lossy_utf8(e.data.as_slice());
        out.append(text.as_str());
        out.append("\n");
        i = i + 1;
        assert(out@ =~= spec_log_lines_upto(entries@, i as int));
    }
    out
}

/// `rustcom_<YYYYMMDD_HHMMSS>.log`, the default log file name.
pub open spec fn spec_log_file_name(ts: Timestamp) -> Seq<char> {
    seq!['r', 'u', 's', 't', 'c', 'o', 'm', '_'] + spec_compact(ts) + seq!['.', 'l', 'o', 'g']
}

/// `capture_<YYYYMMDD_HHMMSS>.txt`, the display snapshot file name.
pub open spec fn spec_snapshot_file_name(ts: Timestamp) -> Seq<char> {
    seq!['c', 'a', 'p', 't', 'u', 'r', 'e', '_'] + spec_compact(ts) + seq!['.', 't', 'x', 't']
}

/// The default log file name for a session started at `now`.
pub fn default_log_file_name(now: &Timestamp) -> (s: String)
    requires
        now.wf(),
    ensures
        s@ == spec_log_file_name(*now),
{
    proof {
        reveal_strlit("rustcom_");
        reveal_strlit(".log");
    }
    let mut out = String::from_str("rustcom_");
    let compact = format_compact(now);
    out.append(compact.as_str());
    out.append(".log");
    assert(out@ =~= spec_log_file_name(*now));
    out
}

/// The file name for a display snapshot taken at `now`.
pub fn snapshot_file_name(now: &Timestamp) -> (s: String)
    requires
        now.wf(),
    ensures
        s@ == spec_snapshot_file_name(*now),
{
    proof {
        reveal_strlit("capture_");
        reveal_strlit(".txt");
    }
    let mut out = String::from_str("capture_");
    let compact = format_compact(now);
    out.append(compact.as_str());
    out.append(".txt");
    assert(out@ =~= spec_snapshot_file_name(*now));
    out
}

} // verus!
