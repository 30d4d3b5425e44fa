//! The decisions of the reconnecting stream reader: what one read of the
//! transport means for the connection and for the records that come out.

use vstd::prelude::*;
use crate::types::{ParseError, SMDRRecord, parse_line};

verus! {

/// Seconds the ingestion loop waits after a transport failure before it
/// reads, and so reconnects, again.
pub const RECONNECT_DELAY_SECS: u64 = 10;

/// A line with the leading and trailing white space that `str::trim` removes
/// taken off.
pub uninterp spec fn trimmed(s: Seq<char>) -> Seq<char>;

/// Relies on `str::trim`: the result depends on the characters alone.
#[verifier::external_body]
fn trim_line(s: &str) -> (r: &str)
    ensures
        r@ == trimmed(s@),
{
    s.trim()
}

/// What one read of the transport produced.
pub enum ReadEvent {
    /// The peer closed the stream: zero bytes were read.
    Closed,
    /// One line, as read, line ending included.
    Line(String),
    /// Connecting or reading failed.
    Failed,
}

/// What a read yields to the ingestion loop.
#[derive(Debug)]
pub enum ReadOutcome {
    /// Nothing this cycle.
    NoRecord,
    /// One parsed record.
    Record(SMDRRecord),
    /// A line that is not a record, while parsing a record from the stream.
    Invalid(ParseError),
    /// The transport failed; the loop waits, then reconnects.
    TransportFailed,
}

/// What a read does: whether the connection is kept, and what it yields.
#[derive(Debug)]
pub struct ReadStep {
    pub keep_connection: bool,
    pub outcome: ReadOutcome,
}

/// What an already trimmed line yields: nothing when it is blank, else its
/// parsed record or the reason it is not one.
pub open spec fn line_outcome_matches(t: Seq<char>, o: ReadOutcome) -> bool {
    if t.len() == 0 {
        o is NoRecord
    } else {
        match parse_line(t) {
            Ok(rv) => o matches ReadOutcome::Record(rec) && rec@ == rv,
            Err(e) => o == ReadOutcome::Invalid(e),
        }
    }
}

/// Handles a line whose surrounding white space is already removed.
pub fn handle_trimmed_line(trimmed_line: &str) -> (r: ReadOutcome)
    ensures
        line_outcome_matches(trimmed_line@, r),
{
    if trimmed_line.unicode_len() == 0 {
        return ReadOutcome::NoRecord;
    }
    match SMDRRecord::from_line(trimmed_line) {
        Ok(rec) => ReadOutcome::Record(rec),
        Err(e) => ReadOutcome::Invalid(e),
    }
}

/// Decides what one read means. A clean close drops the connection and yields
/// nothing, so the next read reconnects; a failure drops it too; a line keeps
/// it, whether or not it parses.
pub fn read_step(event: ReadEvent) -> (r: ReadStep)
    ensures
        match event {
            ReadEvent::Closed => !r.keep_connection && r.outcome is NoRecord,
            ReadEvent::Failed => !r.keep_connection && r.outcome is TransportFailed,
            ReadEvent::Line(line) => r.keep_connection && line_outcome_matches(
                trimmed(line@),
                r.outcome,
            ),
        },
{
    match event {
        ReadEvent::Closed => ReadStep { keep_connection: false, outcome: ReadOutcome::NoRecord },
        ReadEvent::Failed => ReadStep {
            keep_connection: false,
            outcome: ReadOutcome::TransportFailed,
        },
        ReadEvent::Line(line) => {
            let t = trim_line(line.as_str());
            ReadStep { keep_connection: true, outcome: handle_trimmed_line(t) }
        },
    }
}

} // verus!
