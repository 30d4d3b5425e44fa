//! Call-detail records as the switch emits them, their reduced forms, and the
//! aggregate of all segments of one call.

use vstd::prelude::*;
use vstd::string::*;
use crate::fields::{split_fields, split_on, views_of};
use crate::numbers::{parse_unsigned, parse_unsigned_exec};

verus! {

/// Number of comma-separated fields a record line must have.
pub const RECORD_FIELDS: usize = 17;

/// A numeric field of a record line.
#[derive(Clone, Copy, Debug, PartialEq, Eq, Structural)]
pub enum NumericField {
    Ring,
    HoldTime,
    ParkTime,
}

/// Why a line is not a record.
#[derive(Clone, Copy, Debug, PartialEq, Eq, Structural)]
pub enum ParseError {
    /// The line has fewer fields than a record needs.
    MalformedRecord { expected: usize, actual: usize },
    /// The duration field is not `H:M:S` with three unsigned integers.
    MalformedDuration,
    /// A numeric field is not an unsigned integer of its width.
    InvalidNumericField(NumericField),
}

/// The caller-identifying fields of a record: the far party of the call.
#[derive(Clone, Debug, PartialEq, Eq)]
pub struct SMDRCaller {
    pub dialled: String,
    pub caller: String,
    pub party_2_device: String,
    pub party_2_name: String,
}

pub struct CallerView {
    pub dialled: Seq<char>,
    pub caller: Seq<char>,
    pub party_2_device: Seq<char>,
    pub party_2_name: Seq<char>,
}

impl View for SMDRCaller {
    type V = CallerView;

    open spec fn view(&self) -> CallerView {
        CallerView {
            dialled: self.dialled@,
            caller: self.caller@,
            party_2_device: self.party_2_device@,
            party_2_name: self.party_2_name@,
        }
    }
}

/// One segment of a call without the caller-identifying fields.
#[derive(Clone, Debug, PartialEq, Eq)]
pub struct ReducedSMDRRecord {
    pub duration: u64,
    pub ring: u8,
    pub direction: String,
    pub called: String,
    pub account: String,
    pub is_internal: bool,
    pub continued: bool,
    pub party_1_device: String,
    pub party_1_name: String,
    pub hold_time: u64,
    pub park_time: u64,
}

pub struct ReducedView {
    pub duration: u64,
    pub ring: u8,
    pub direction: Seq<char>,
    pub called: Seq<char>,
    pub account: Seq<char>,
    pub is_internal: bool,
    pub continued: bool,
    pub party_1_device: Seq<char>,
    pub party_1_name: Seq<char>,
    pub hold_time: u64,
    pub park_time: u64,
}

impl View for ReducedSMDRRecord {
    type V = ReducedView;

    open spec fn view(&self) -> ReducedView {
        ReducedView {
            duration: self.duration,
            ring: self.ring,
            direction: self.direction@,
            called: self.called@,
            account: self.account@,
            is_internal: self.is_internal,
            continued: self.continued,
            party_1_device: self.party_1_device@,
            party_1_name: self.party_1_name@,
            hold_time: self.hold_time,
            park_time: self.park_time,
        }
    }
}

/// One parsed line of switch output.
#[derive(Clone, Debug, PartialEq, Eq)]
pub struct SMDRRecord {
    pub start: String,
    pub duration: u64,
    pub ring: u8,
    pub caller: String,
    pub direction: String,
    pub called: String,
    pub dialled: String,
    pub account: String,
    pub is_internal: bool,
    pub call_id: String,
    pub continued: bool,
    pub party_1_device: String,
    pub party_1_name: String,
    pub party_2_device: String,
    pub party_2_name: String,
    pub hold_time: u64,
    pub park_time: u64,
}

pub struct RecordView {
    pub start: Seq<char>,
    pub duration: u64,
    pub ring: u8,
    pub caller: Seq<char>,
    pub direction: Seq<char>,
    pub called: Seq<char>,
    pub dialled: Seq<char>,
    pub account: Seq<char>,
    pub is_internal: bool,
    pub call_id: Seq<char>,
    pub continued: bool,
    pub party_1_device: Seq<char>,
    pub party_1_name: Seq<char>,
    pub party_2_device: Seq<char>,
    pub party_2_name: Seq<char>,
    pub hold_time: u64,
    pub park_time: u64,
}

impl View for SMDRRecord {
    type V = RecordView;

    open spec fn view(&self) -> RecordView {
        RecordView {
            start: self.start@,
            duration: self.duration,
            ring: self.ring,
            caller: self.caller@,
            direction: self.direction@,
            called: self.called@,
            dialled: self.dialled@,
            account: self.account@,
            is_internal: self.is_internal,
            call_id: self.call_id@,
            continued: self.continued,
            party_1_device: self.party_1_device@,
            party_1_name: self.party_1_name@,
            party_2_device: self.party_2_device@,
            party_2_name: self.party_2_name@,
            hold_time: self.hold_time,
            park_time: self.park_time,
        }
    }
}

/// A record without its caller-identifying fields.
pub open spec fn reduce_view(r: RecordView) -> ReducedView {
    ReducedView {
        duration: r.duration,
        ring: r.ring,
        direction: r.direction,
        called: r.called,
        account: r.account,
        is_internal: r.is_internal,
        continued: r.continued,
        party_1_device: r.party_1_device,
        party_1_name: r.party_1_name,
        hold_time: r.hold_time,
        park_time: r.park_time,
    }
}

/// The caller-identifying fields of a record.
pub open spec fn caller_view(r: RecordView) -> CallerView {
    CallerView {
        dialled: r.dialled,
        caller: r.caller,
        party_2_device: r.party_2_device,
        party_2_name: r.party_2_name,
    }
}

/// A flag field is true exactly when it is the single digit `1`.
pub open spec fn flag_of(s: Seq<char>) -> bool {
    s == seq!['1']
}

/// The seconds that an `H:M:S` duration denotes, if it is one and fits in `u64`.
pub open spec fn duration_of(s: Seq<char>) -> Option<nat> {
    let p = split_on(s, ':');
    if p.len() != 3 {
        None
    } else {
        match (
            parse_unsigned(p[0], u64::MAX as nat),
            parse_unsigned(p[1], u64::MAX as nat),
            parse_unsigned(p[2], u64::MAX as nat),
        ) {
            (Some(h), Some(m), Some(sec)) => if h * 3600 + m * 60 + sec <= u64::MAX {
                Some(h * 3600 + m * 60 + sec)
            } else {
                None
            },
            _ => None,
        }
    }
}

/// The record that fields `f` describe, given its parsed numeric fields.
pub open spec fn record_of(f: Seq<Seq<char>>, duration: u64, ring: u8, hold: u64, park: u64) -> RecordView {
    RecordView {
        start: f[0],
        duration: duration,
        ring: ring,
        caller: f[3],
        direction: f[4],
        called: f[5],
        dialled: f[6],
        account: f[7],
        is_internal: flag_of(f[8]),
        call_id: f[9],
        continued: flag_of(f[10]),
        party_1_device: f[11],
        party_1_name: f[12],
        party_2_device: f[13],
        party_2_name: f[14],
        hold_time: hold,
        park_time: park,
    }
}

/// What a line of switch output parses to. Fields past the seventeenth are ignored.
pub open spec fn parse_line(line: Seq<char>) -> Result<RecordView, ParseError> {
    let f = split_on(line, ',');
    if f.len() < 17 {
        Err(ParseError::MalformedRecord { expected: 17, actual: f.len() as usize })
    } else {
        match duration_of(f[1]) {
            None => Err(ParseError::MalformedDuration),
            Some(d) => match parse_unsigned(f[2], u8::MAX as nat) {
                None => Err(ParseError::InvalidNumericField(NumericField::Ring)),
                Some(ring) => match parse_unsigned(f[15], u64::MAX as nat) {
                    None => Err(ParseError::InvalidNumericField(NumericField::HoldTime)),
                    Some(hold) => match parse_unsigned(f[16], u64::MAX as nat) {
                        None => Err(ParseError::InvalidNumericField(NumericField::ParkTime)),
                        Some(park) => Ok(
                            record_of(f, d as u64, ring as u8, hold as u64, park as u64),
                        ),
                    },
                },
            },
        }
    }
}

/// Parsing depends on the line alone, so parsing a line twice gives the same
/// record field for field, or the same error; and a line with at least the
/// seventeen fields of a record is never refused for its field count.
pub proof fn lemma_parse_deterministic(a: Seq<char>, b: Seq<char>)
    requires
        a == b,
    ensures
        parse_line(a) == parse_line(b),
        split_on(a, ',').len() >= 17 ==> !(parse_line(a) matches Err(
            ParseError::MalformedRecord { .. },
        )),
{
}

/// Parses an `H:M:S` duration into seconds.
pub fn parse_duration(duration_str: &str) -> (r: Result<u64, ParseError>)
    ensures
        match r {
            Ok(secs) => duration_of(duration_str@) == Some(secs as nat),
            Err(e) => duration_of(duration_str@) is None && e == ParseError::MalformedDuration,
        },
{
    let parts = split_fields(duration_str, ':');
    let ghost p = split_on(duration_str@, ':');
    if parts.len() != 3 {
        return Err(ParseError::MalformedDuration);
    }
    assert(parts@[0]@ == p[0] && parts@[1]@ == p[1] && parts@[2]@ == p[2]);
    let hours = match parse_unsigned_exec(parts[0].as_str(), u64::MAX) {
        Some(v) => v,
        None => return Err(ParseError::MalformedDuration),
    };
    let minutes = match parse_unsigned_exec(parts[1].as_str(), u64::MAX) {
        Some(v) => v,
        None => return Err(ParseError::MalformedDuration),
    };
    let seconds = match parse_unsigned_exec(parts[2].as_str(), u64::MAX) {
        Some(v) => v,
        None => return Err(ParseError::MalformedDuration),
    };
    if hours > (u64::MAX - seconds) / 3600 {
        return Err(ParseError::MalformedDuration);
    }
    let h = hours * 3600;
    if minutes > (u64::MAX - seconds - h) / 60 {
        return Err(ParseError::MalformedDuration);
    }
    Ok(h + minutes * 60 + seconds)
}

fn is_one(s: &String) -> (r: bool)
    ensures
        r == flag_of(s@),
{
    let t = s.as_str();
    if t.unicode_len() == 1 {
        let c = t.get_char(0);
        assert(c == '1' ==> t@ == seq!['1']);
        c == '1'
    } else {
        false
    }
}

impl SMDRRecord {
    /// Parses one line of switch output.
    pub fn from_line(line: &str) -> (r: Result<SMDRRecord, ParseError>)
        ensures
            match r {
                Ok(rec) => parse_line(line@) == Ok::<RecordView, ParseError>(rec@),
                Err(e) => parse_line(line@) == Err::<RecordView, ParseError>(e),
            },
    {
        let parts = split_fields(line, ',');
        let ghost f = split_on(line@, ',');
        assert(views_of(parts@).len() == parts@.len());
        if parts.len() < RECORD_FIELDS {
            return Err(ParseError::MalformedRecord { expected: RECORD_FIELDS, actual: parts.len() });
        }
        assert(forall|i: int| 0 <= i < 17 ==> parts@[i]@ == #[trigger] f[i]);
        let duration = match parse_duration(parts[1].as_str()) {
            Ok(d) => d,
            Err(e) => return Err(e),
        };
        let ring = match parse_unsigned_exec(parts[2].as_str(), 255) {
            Some(v) => v as u8,
            None => return Err(ParseError::InvalidNumericField(NumericField::Ring)),
        };
        let hold_time = match parse_unsigned_exec(parts[15].as_str(), u64::MAX) {
            Some(v) => v,
            None => return Err(ParseError::InvalidNumericField(NumericField::HoldTime)),
        };
        let park_time = match parse_unsigned_exec(parts[16].as_str(), u64::MAX) {
            Some(v) => v,
            None => return Err(ParseError::InvalidNumericField(NumericField::ParkTime)),
        };
        let rec = SMDRRecord {
            start: parts[0].clone(),
            duration,
            ring,
            caller: parts[3].clone(),
            direction: parts[4].clone(),
            called: parts[5].clone(),
            dialled: parts[6].clone(),
            account: parts[7].clone(),
            is_internal: is_one(&parts[8]),
            call_id: parts[9].clone(),
            continued: is_one(&parts[10]),
            party_1_device: parts[11].clone(),
            party_1_name: parts[12].clone(),
            party_2_device: parts[13].clone(),
            party_2_name: parts[14].clone(),
            hold_time,
            park_time,
        };
        assert(rec@ == record_of(f, duration, ring, hold_time, park_time));
        Ok(rec)
    }
}

impl<'a> From<&'a SMDRRecord> for ReducedSMDRRecord {
    fn from(record: &'a SMDRRecord) -> (r: ReducedSMDRRecord)
        ensures
            r@ == reduce_view(record@),
    {
        ReducedSMDRRecord {
            duration: record.duration,
            ring: record.ring,
            direction: record.direction.clone(),
            called: record.called.clone(),
            account: record.account.clone(),
            is_internal: record.is_internal,
            continued: record.continued,
            party_1_device: record.party_1_device.clone(),
            party_1_name: record.party_1_name.clone(),
            hold_time: record.hold_time,
            park_time: record.park_time,
        }
    }
}

impl<'a> vstd::std_specs::convert::FromSpecImpl<&'a SMDRRecord> for ReducedSMDRRecord {
    open spec fn obeys_from_spec() -> bool {
        true
    }

    open spec fn from_spec(record: &'a SMDRRecord) -> ReducedSMDRRecord {
        ReducedSMDRRecord {
            duration: record.duration,
            ring: record.ring,
            direction: record.direction,
            called: record.called,
            account: record.account,
            is_internal: record.is_internal,
            continued: record.continued,
            party_1_device: record.party_1_device,
            party_1_name: record.party_1_name,
            hold_time: record.hold_time,
            park_time: record.park_time,
        }
    }
}

impl ReducedSMDRRecord {
    /// Parts a record into its reduced form and its caller-identifying fields.
    pub fn split(record: SMDRRecord) -> (r: (ReducedSMDRRecord, SMDRCaller))
        ensures
            r.0@ == reduce_view(record@),
            r.1@ == caller_view(record@),
    {
        let simplified = ReducedSMDRRecord::from(&record);
        let caller = SMDRCaller {
            dialled: record.dialled,
            caller: record.caller,
            party_2_device: record.party_2_device,
            party_2_name: record.party_2_name,
        };
        (simplified, caller)
    }

    /// The record without its caller-identifying fields.
    pub fn reduce(record: SMDRRecord) -> (r: ReducedSMDRRecord)
        ensures
            r@ == reduce_view(record@),
    {
        ReducedSMDRRecord::from(&record)
    }
}

/// The aggregate of one call: its identity, its start, the caller taken from
/// its first segment, and every segment in arrival order.
pub struct CallView {
    pub call_id: Seq<char>,
    pub start: Seq<char>,
    pub caller: Option<CallerView>,
    pub records: Seq<ReducedView>,
}

impl CallView {
    /// A call with no segment yet.
    pub open spec fn fresh(call_id: Seq<char>, start: Seq<char>) -> CallView {
        CallView { call_id, start, caller: None, records: Seq::empty() }
    }

    /// The call once segment `r` is appended: the caller is set by the first
    /// segment and kept afterwards.
    pub open spec fn add(self, r: RecordView) -> CallView {
        CallView {
            call_id: self.call_id,
            start: self.start,
            caller: if self.caller is None {
                Some(caller_view(r))
            } else {
                self.caller
            },
            records: self.records.push(reduce_view(r)),
        }
    }

    /// The caller is known exactly when some segment has been added.
    pub open spec fn wf(self) -> bool {
        self.caller is None <==> self.records.len() == 0
    }
}

#[derive(Clone, Debug, PartialEq, Eq)]
pub struct ActivePhoneCall {
    pub call_id: String,
    pub start: String,
    pub caller: Option<SMDRCaller>,
    pub records: Vec<ReducedSMDRRecord>,
}

impl View for ActivePhoneCall {
    type V = CallView;

    open spec fn view(&self) -> CallView {
        CallView {
            call_id: self.call_id@,
            start: self.start@,
            caller: match self.caller {
                Some(c) => Some(c@),
                None => None,
            },
            records: self.records@.map_values(|r: ReducedSMDRRecord| r@),
        }
    }
}

impl ActivePhoneCall {
    /// A call with no segment yet.
    pub fn new(call_id: String, start: String) -> (r: ActivePhoneCall)
        ensures
            r@ == CallView::fresh(call_id@, start@),
    {
        let r = ActivePhoneCall { call_id, start, caller: None, records: Vec::new() };
        assert(r@.records == Seq::<ReducedView>::empty());
        r
    }

    /// Appends one segment; the first segment also fixes the caller.
    pub fn add_record(&mut self, record: SMDRRecord)
        ensures
            final(self)@ == old(self)@.add(record@),
            final(self)@.caller is Some,
            old(self)@.caller is Some ==> final(self)@.caller == old(self)@.caller,
    {
        let ghost rv = record@;
        if self.caller.is_none() {
            let (simplified, shared) = ReducedSMDRRecord::split(record);
            self.caller = Some(shared);
            self.records.push(simplified);
        } else {
            self.records.push(ReducedSMDRRecord::reduce(record));
        }
        assert(self@.records == old(self)@.records.push(reduce_view(rv)));
    }

    pub fn id(&self) -> (r: &String)
        ensures
            r@ == self@.call_id,
    {
        &self.call_id
    }

    pub fn start(&self) -> (r: &String)
        ensures
            r@ == self@.start,
    {
        &self.start
    }

    pub fn caller(&self) -> (r: &Option<SMDRCaller>)
        ensures
            r == self.caller,
            self@.caller == match *r {
                Some(c) => Some(c@),
                None => None::<CallerView>,
            },
    {
        &self.caller
    }

    pub fn records(&self) -> (r: &Vec<ReducedSMDRRecord>)
        ensures
            r@.map_values(|x: ReducedSMDRRecord| x@) == self@.records,
    {
        &self.records
    }
}

} // verus!
