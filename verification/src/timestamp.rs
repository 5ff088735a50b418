//! Calendar timestamps as plain fields. The pipeline never trusts an
//! outside date type: whatever source a timestamp comes from (embedded
//! metadata, a filename pattern, a file's modification time), it is handed
//! around as a `Timestamp` and validated against the real calendar here.

use vstd::prelude::*;
use crate::decimal::{digit_val, is_digit_char, pad2, pad4};
use crate::decimal::{push_pad2, push_pad4};

verus! {

#[derive(Clone, Copy, Debug, PartialEq, Eq, Structural)]
pub struct Timestamp {
    pub year: u32,
    pub month: u32,
    pub day: u32,
    pub hour: u32,
    pub minute: u32,
    pub second: u32,
}

pub open spec fn is_leap_year(y: int) -> bool {
    (y % 4 == 0 && y % 100 != 0) || y % 400 == 0
}

/// Number of days of month `m` in year `y` (0 outside 1..=12).
pub open spec fn days_in_month(y: int, m: int) -> int {
    if m == 1 || m == 3 || m == 5 || m == 7 || m == 8 || m == 10 || m == 12 {
        31
    } else if m == 4 || m == 6 || m == 9 || m == 11 {
        30
    } else if m == 2 {
        if is_leap_year(y) {
            29
        } else {
            28
        }
    } else {
        0
    }
}

impl Timestamp {
    /// Field ranges that every timestamp flowing through the pipeline
    /// keeps: four-digit year and in-range time-of-day fields. This is
    /// what the fixed-width `YYYYMMDD_HHMMSS` naming needs.
    pub open spec fn bounded(self) -> bool {
        &&& self.year <= 9999
        &&& 1 <= self.month <= 12
        &&& 1 <= self.day <= 31
        &&& self.hour <= 23
        &&& self.minute <= 59
        &&& self.second <= 59
    }

    /// Full calendar validity: bounded fields and a day that exists in
    /// the given month and year (leap years included).
    pub open spec fn wf(self) -> bool {
        self.bounded() && self.day <= days_in_month(self.year as int, self.month as int)
    }

    /// Runtime check of `bounded`.
    pub fn is_bounded(&self) -> (r: bool)
        ensures
            r == self.bounded(),
    {
        self.year <= 9999 && 1 <= self.month && self.month <= 12 && 1 <= self.day && self.day
            <= 31 && self.hour <= 23 && self.minute <= 59 && self.second <= 59
    }

    /// Runtime check of `wf`.
    pub fn is_valid(&self) -> (r: bool)
        ensures
            r == self.wf(),
    {
        let leap: bool = (self.year % 4 == 0 && self.year % 100 != 0) || self.year % 400 == 0;
        let dim: u32 = if self.month == 1 || self.month == 3 || self.month == 5 || self.month == 7
            || self.month == 8 || self.month == 10 || self.month == 12 {
            31
        } else if self.month == 4 || self.month == 6 || self.month == 9 || self.month == 11 {
            30
        } else if self.month == 2 {
            if leap {
                29
            } else {
                28
            }
        } else {
            0
        };
        self.year <= 9999 && 1 <= self.month && self.month <= 12 && 1 <= self.day && self.day
            <= dim && self.hour <= 23 && self.minute <= 59 && self.second <= 59
    }
}

/// The `YYYYMMDD_HHMMSS` form of a timestamp.
pub open spec fn spec_compact(ts: Timestamp) -> Seq<char> {
    pad4(ts.year as int) + pad2(ts.month as int) + pad2(ts.day as int) + seq!['_'] + pad2(
        ts.hour as int,
    ) + pad2(ts.minute as int) + pad2(ts.second as int)
}

/// Append the `YYYYMMDD_HHMMSS` form of `ts`.
pub fn push_compact(s: &mut String, ts: &Timestamp)
    requires
        ts.bounded(),
    ensures
        final(s)@ == old(s)@ + spec_compact(*ts),
{
    push_pad4(s, ts.year as u64);
    push_pad2(s, ts.month as u64);
    push_pad2(s, ts.day as u64);
    crate::strutil::push_char(s, '_');
    push_pad2(s, ts.hour as u64);
    push_pad2(s, ts.minute as u64);
    push_pad2(s, ts.second as u64);
    assert(final(s)@ =~= old(s)@ + spec_compact(*ts));
}

/// Value of the two digit characters of `d` at `i`, `i + 1`.
pub open spec fn two_digit_val(d: Seq<char>, i: int) -> int {
    digit_val(d[i]) * 10 + digit_val(d[i + 1])
}

/// The timestamp spelled by the first 14 digit characters of `d`
/// (`YYYYMMDDHHMMSS`).
pub open spec fn ts_from_digits14(d: Seq<char>) -> Timestamp {
    Timestamp {
        year: (digit_val(d[0]) * 1000 + digit_val(d[1]) * 100 + digit_val(d[2]) * 10 + digit_val(
            d[3],
        )) as u32,
        month: two_digit_val(d, 4) as u32,
        day: two_digit_val(d, 6) as u32,
        hour: two_digit_val(d, 8) as u32,
        minute: two_digit_val(d, 10) as u32,
        second: two_digit_val(d, 12) as u32,
    }
}

/// The midnight timestamp spelled by the first 8 digit characters of `d`
/// (`YYYYMMDD`).
pub open spec fn ts_from_digits8(d: Seq<char>) -> Timestamp {
    Timestamp {
        year: (digit_val(d[0]) * 1000 + digit_val(d[1]) * 100 + digit_val(d[2]) * 10 + digit_val(
            d[3],
        )) as u32,
        month: two_digit_val(d, 4) as u32,
        day: two_digit_val(d, 6) as u32,
        hour: 0,
        minute: 0,
        second: 0,
    }
}

/// What a run of digit characters yields: with at least 14 digits the
/// first 14 are read as a full timestamp, with at least 8 the first 8 are
/// read as a date at midnight, otherwise nothing; a spelled-out date that
/// does not exist in the calendar yields nothing.
pub open spec fn spec_timestamp_from_digits(d: Seq<char>) -> Option<Timestamp> {
    if d.len() >= 14 {
        if ts_from_digits14(d).wf() {
            Some(ts_from_digits14(d))
        } else {
            None
        }
    } else if d.len() >= 8 {
        if ts_from_digits8(d).wf() {
            Some(ts_from_digits8(d))
        } else {
            None
        }
    } else {
        None
    }
}

fn read_digit(d: &str, i: usize) -> (r: u32)
    requires
        i < d@.len(),
        is_digit_char(d@[i as int]),
    ensures
        r == digit_val(d@[i as int]),
        r <= 9,
{
    let c = d.get_char(i);
    (c as u32) - 48
}

fn read_two_digits(d: &str, i: usize) -> (r: u32)
    requires
        i + 1 < d@.len(),
        d@.len() <= usize::MAX,
        is_digit_char(d@[i as int]),
        is_digit_char(d@[i + 1]),
    ensures
        r == two_digit_val(d@, i as int),
        r <= 99,
{
    read_digit(d, i) * 10 + read_digit(d, i + 1)
}

/// Read a timestamp out of a run of digit characters, as
/// `spec_timestamp_from_digits` describes.
pub fn timestamp_from_digits(d: &str) -> (r: Option<Timestamp>)
    requires
        forall|i: int| 0 <= i < d@.len() ==> is_digit_char(#[trigger] d@[i]),
    ensures
        r == spec_timestamp_from_digits(d@),
{
    let n: usize = d.unicode_len();
    if n < 8 {
        return None;
    }
    let year: u32 = read_digit(d, 0) * 1000 + read_digit(d, 1) * 100 + read_digit(d, 2) * 10
        + read_digit(d, 3);
    let month: u32 = read_two_digits(d, 4);
    let day: u32 = read_two_digits(d, 6);
    let ts = if n >= 14 {
        Timestamp {
            year,
            month,
            day,
            hour: read_two_digits(d, 8),
            minute: read_two_digits(d, 10),
            second: read_two_digits(d, 12),
        }
    } else {
        Timestamp { year, month, day, hour: 0, minute: 0, second: 0 }
    };
    if ts.is_valid() {
        Some(ts)
    } else {
        None
    }
}

} // verus!
