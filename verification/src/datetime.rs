//! Canonical datetime handling.
//!
//! The vector store's range filter parses the `datetime` attribute as a
//! timestamp, so the wire format is an exact, byte-level contract:
//! `date` + `T` + `time` + `Z`, with no reformatting.

use vstd::prelude::*;
use vstd::string::StrSliceExecFns;
use vstd::string::StringExecFns;

verus! {

/// A civil datetime, split into its components.
///
/// The canonical wire form is `YYYY-MM-DDTHH:MM:SSZ`; [`DateTimeParts::wf`]
/// bounds each component so that the form is unambiguous.
#[derive(Clone, Copy, PartialEq, Eq, Structural, Debug)]
pub struct DateTimeParts {
    pub year: u32,
    pub month: u8,
    pub day: u8,
    pub hour: u8,
    pub minute: u8,
    pub second: u8,
}

/// Leap years of the proleptic Gregorian calendar.
pub open spec fn spec_is_leap_year(y: int) -> bool {
    (y % 4 == 0 && y % 100 != 0) || y % 400 == 0
}

/// Days in a month of the proleptic Gregorian calendar.
pub open spec fn spec_days_in_month(y: int, m: int) -> int
    recommends
        1 <= m <= 12,
{
    if m == 2 {
        if spec_is_leap_year(y) {
            29
        } else {
            28
        }
    } else if m == 4 || m == 6 || m == 9 || m == 11 {
        30
    } else {
        31
    }
}

impl DateTimeParts {
    /// A representable civil datetime: four-digit year, real calendar date,
    /// and a time of day.
    pub open spec fn wf(self) -> bool {
        &&& 1 <= self.year <= 9999
        &&& 1 <= self.month <= 12
        &&& 1 <= self.day <= spec_days_in_month(self.year as int, self.month as int)
        &&& self.hour < 24
        &&& self.minute < 60
        &&& self.second < 60
    }
}

pub fn is_leap_year(y: u32) -> (r: bool)
    ensures
        r == spec_is_leap_year(y as int),
{
    (y % 4 == 0 && y % 100 != 0) || y % 400 == 0
}

pub fn days_in_month(y: u32, m: u8) -> (r: u8)
    ensures
        r == spec_days_in_month(y as int, m as int),
{
    if m == 2 {
        if is_leap_year(y) {
            29
        } else {
            28
        }
    } else if m == 4 || m == 6 || m == 9 || m == 11 {
        30
    } else {
        31
    }
}

/// The decimal digit character for `d`.
pub open spec fn spec_digit_char(d: int) -> char
    recommends
        0 <= d <= 9,
{
    if d == 0 {
        '0'
    } else if d == 1 {
        '1'
    } else if d == 2 {
        '2'
    } else if d == 3 {
        '3'
    } else if d == 4 {
        '4'
    } else if d == 5 {
        '5'
    } else if d == 6 {
        '6'
    } else if d == 7 {
        '7'
    } else if d == 8 {
        '8'
    } else {
        '9'
    }
}

/// Whether `c` is a decimal digit character.
pub open spec fn spec_is_digit(c: char) -> bool {
    c == '0' || c == '1' || c == '2' || c == '3' || c == '4' || c == '5' || c == '6' || c == '7'
        || c == '8' || c == '9'
}

/// The value of a decimal digit character.
pub open spec fn spec_digit_val(c: char) -> int
    recommends
        spec_is_digit(c),
{
    if c == '0' {
        0
    } else if c == '1' {
        1
    } else if c == '2' {
        2
    } else if c == '3' {
        3
    } else if c == '4' {
        4
    } else if c == '5' {
        5
    } else if c == '6' {
        6
    } else if c == '7' {
        7
    } else if c == '8' {
        8
    } else {
        9
    }
}

/// A value below 100 as two digit characters.
pub open spec fn spec_pad2(v: int) -> Seq<char>
    recommends
        0 <= v < 100,
{
    seq![spec_digit_char(v / 10), spec_digit_char(v % 10)]
}

/// A value below 10000 as four digit characters.
pub open spec fn spec_pad4(v: int) -> Seq<char>
    recommends
        0 <= v < 10000,
{
    seq![
        spec_digit_char(v / 1000),
        spec_digit_char(v / 100 % 10),
        spec_digit_char(v / 10 % 10),
        spec_digit_char(v % 10),
    ]
}

/// The one-character string for a digit.
fn digit_str(d: u8) -> (r: &'static str)
    requires
        d < 10,
    ensures
        r@ == seq![spec_digit_char(d as int)],
{
    proof {
        reveal_strlit("0");
        reveal_strlit("1");
        reveal_strlit("2");
        reveal_strlit("3");
        reveal_strlit("4");
        reveal_strlit("5");
        reveal_strlit("6");
        reveal_strlit("7");
        reveal_strlit("8");
        reveal_strlit("9");
        assert("0"@ =~= seq!['0']);
        assert("1"@ =~= seq!['1']);
        assert("2"@ =~= seq!['2']);
        assert("3"@ =~= seq!['3']);
        assert("4"@ =~= seq!['4']);
        assert("5"@ =~= seq!['5']);
        assert("6"@ =~= seq!['6']);
        assert("7"@ =~= seq!['7']);
        assert("8"@ =~= seq!['8']);
        assert("9"@ =~= seq!['9']);
    }
    match d {
        0 => "0",
        1 => "1",
        2 => "2",
        3 => "3",
        4 => "4",
        5 => "5",
        6 => "6",
        7 => "7",
        8 => "8",
        _ => "9",
    }
}

/// Appends `v` to `out` as exactly two digits.
fn append_pad2(out: &mut String, v: u8)
    requires
        v < 100,
    ensures
        final(out)@ == old(out)@ + spec_pad2(v as int),
{
    out.append(digit_str(v / 10));
    out.append(digit_str(v % 10));
    proof {
        assert(final(out)@ =~= old(out)@ + spec_pad2(v as int));
    }
}

/// Appends `v` to `out` as exactly four digits.
fn append_pad4(out: &mut String, v: u32)
    requires
        v < 10000,
    ensures
        final(out)@ == old(out)@ + spec_pad4(v as int),
{
    out.append(digit_str((v / 1000) as u8));
    out.append(digit_str((v / 100 % 10) as u8));
    out.append(digit_str((v / 10 % 10) as u8));
    out.append(digit_str((v % 10) as u8));
    proof {
        assert(final(out)@ =~= old(out)@ + spec_pad4(v as int));
    }
}

/// The canonical wire form of a civil datetime: `YYYY-MM-DDTHH:MM:SSZ`.
pub open spec fn spec_rfc3339(p: DateTimeParts) -> Seq<char> {
    spec_pad4(p.year as int) + seq!['-'] + spec_pad2(p.month as int) + seq!['-'] + spec_pad2(
        p.day as int,
    ) + seq!['T'] + spec_pad2(p.hour as int) + seq![':'] + spec_pad2(p.minute as int) + seq![':']
        + spec_pad2(p.second as int) + seq!['Z']
}

/// Serializes a civil datetime in the canonical wire form.
pub fn datetime_parts_to_rfc3339(p: &DateTimeParts) -> (r: String)
    requires
        p.wf(),
    ensures
        r@ == spec_rfc3339(*p),
{
    proof {
        reveal_strlit("-");
        reveal_strlit("T");
        reveal_strlit(":");
        reveal_strlit("Z");
    }
    let mut out = String::new();
    append_pad4(&mut out, p.year);
    out.append("-");
    append_pad2(&mut out, p.month);
    out.append("-");
    append_pad2(&mut out, p.day);
    out.append("T");
    append_pad2(&mut out, p.hour);
    out.append(":");
    append_pad2(&mut out, p.minute);
    out.append(":");
    append_pad2(&mut out, p.second);
    out.append("Z");
    proof {
        assert(out@ =~= spec_rfc3339(*p));
    }
    out
}

/// Parsing the canonical wire form back into components: exactly twenty
/// characters, digits and the fixed separators in their fixed places, and
/// components that make up a well-formed civil datetime.
pub open spec fn spec_parse_rfc3339(s: Seq<char>) -> Option<DateTimeParts> {
    if s.len() == 20 && s[4] == '-' && s[7] == '-' && s[10] == 'T' && s[13] == ':' && s[16] == ':'
        && s[19] == 'Z' && spec_is_digit(s[0]) && spec_is_digit(s[1]) && spec_is_digit(s[2])
        && spec_is_digit(s[3]) && spec_is_digit(s[5]) && spec_is_digit(s[6]) && spec_is_digit(s[8])
        && spec_is_digit(s[9]) && spec_is_digit(s[11]) && spec_is_digit(s[12]) && spec_is_digit(
        s[14],
    ) && spec_is_digit(s[15]) && spec_is_digit(s[17]) && spec_is_digit(s[18]) {
        let p = DateTimeParts {
            year: (spec_digit_val(s[0]) * 1000 + spec_digit_val(s[1]) * 100 + spec_digit_val(s[2])
                * 10 + spec_digit_val(s[3])) as u32,
            month: (spec_digit_val(s[5]) * 10 + spec_digit_val(s[6])) as u8,
            day: (spec_digit_val(s[8]) * 10 + spec_digit_val(s[9])) as u8,
            hour: (spec_digit_val(s[11]) * 10 + spec_digit_val(s[12])) as u8,
            minute: (spec_digit_val(s[14]) * 10 + spec_digit_val(s[15])) as u8,
            second: (spec_digit_val(s[17]) * 10 + spec_digit_val(s[18])) as u8,
        };
        if p.wf() {
            Some(p)
        } else {
            None
        }
    } else {
        None
    }
}

proof fn lemma_digit_round(d: int)
    requires
        0 <= d <= 9,
    ensures
        spec_digit_val(spec_digit_char(d)) == d,
        spec_is_digit(spec_digit_char(d)),
{
}

proof fn lemma_char_round(c: char)
    requires
        spec_is_digit(c),
    ensures
        spec_digit_char(spec_digit_val(c)) == c,
        0 <= spec_digit_val(c) <= 9,
{
}

/// The canonical form written out as its twenty characters.
proof fn lemma_rfc3339_chars(p: DateTimeParts)
    requires
        p.wf(),
    ensures
        spec_rfc3339(p) =~= seq![
            spec_digit_char(p.year as int / 1000),
            spec_digit_char(p.year as int / 100 % 10),
            spec_digit_char(p.year as int / 10 % 10),
            spec_digit_char(p.year as int % 10),
            '-',
            spec_digit_char(p.month as int / 10),
            spec_digit_char(p.month as int % 10),
            '-',
            spec_digit_char(p.day as int / 10),
            spec_digit_char(p.day as int % 10),
            'T',
            spec_digit_char(p.hour as int / 10),
            spec_digit_char(p.hour as int % 10),
            ':',
            spec_digit_char(p.minute as int / 10),
            spec_digit_char(p.minute as int % 10),
            ':',
            spec_digit_char(p.second as int / 10),
            spec_digit_char(p.second as int % 10),
            'Z',
        ],
{
}

/// Serializing a well-formed civil datetime and parsing the result gives
/// back exactly the same components.
#[verifier::rlimit(100)]
pub proof fn lemma_rfc3339_round_trip_parts(p: DateTimeParts)
    requires
        p.wf(),
    ensures
        spec_parse_rfc3339(spec_rfc3339(p)) == Some(p),
{
    lemma_rfc3339_chars(p);
    let s = spec_rfc3339(p);
    let y = p.year as int;
    let mo = p.month as int;
    let d = p.day as int;
    let h = p.hour as int;
    let mi = p.minute as int;
    let sec = p.second as int;
    lemma_digit_round(y / 1000);
    lemma_digit_round(y / 100 % 10);
    lemma_digit_round(y / 10 % 10);
    lemma_digit_round(y % 10);
    lemma_digit_round(mo / 10);
    lemma_digit_round(mo % 10);
    lemma_digit_round(d / 10);
    lemma_digit_round(d % 10);
    lemma_digit_round(h / 10);
    lemma_digit_round(h % 10);
    lemma_digit_round(mi / 10);
    lemma_digit_round(mi % 10);
    lemma_digit_round(sec / 10);
    lemma_digit_round(sec % 10);
    assert(y / 1000 * 1000 + y / 100 % 10 * 100 + y / 10 % 10 * 10 + y % 10 == y);
    assert(mo / 10 * 10 + mo % 10 == mo);
    assert(d / 10 * 10 + d % 10 == d);
    assert(h / 10 * 10 + h % 10 == h);
    assert(mi / 10 * 10 + mi % 10 == mi);
    assert(sec / 10 * 10 + sec % 10 == sec);
    assert(spec_parse_rfc3339(s) == Some(p));
}

/// Parsing a canonical wire datetime and re-serializing the components
/// gives back exactly the original string.
#[verifier::rlimit(100)]
pub proof fn lemma_rfc3339_round_trip_string(s: Seq<char>)
    requires
        spec_parse_rfc3339(s) is Some,
    ensures
        spec_parse_rfc3339(s).unwrap().wf(),
        spec_rfc3339(spec_parse_rfc3339(s).unwrap()) == s,
{
    let p = spec_parse_rfc3339(s).unwrap();
    lemma_char_round(s[0]);
    lemma_char_round(s[1]);
    lemma_char_round(s[2]);
    lemma_char_round(s[3]);
    lemma_char_round(s[5]);
    lemma_char_round(s[6]);
    lemma_char_round(s[8]);
    lemma_char_round(s[9]);
    lemma_char_round(s[11]);
    lemma_char_round(s[12]);
    lemma_char_round(s[14]);
    lemma_char_round(s[15]);
    lemma_char_round(s[17]);
    lemma_char_round(s[18]);
    let v0 = spec_digit_val(s[0]);
    let v1 = spec_digit_val(s[1]);
    let v2 = spec_digit_val(s[2]);
    let v3 = spec_digit_val(s[3]);
    let y = v0 * 1000 + v1 * 100 + v2 * 10 + v3;
    assert(y / 1000 == v0 && y / 100 % 10 == v1 && y / 10 % 10 == v2 && y % 10 == v3);
    let v5 = spec_digit_val(s[5]);
    let v6 = spec_digit_val(s[6]);
    assert((v5 * 10 + v6) / 10 == v5 && (v5 * 10 + v6) % 10 == v6);
    let v8 = spec_digit_val(s[8]);
    let v9 = spec_digit_val(s[9]);
    assert((v8 * 10 + v9) / 10 == v8 && (v8 * 10 + v9) % 10 == v9);
    let v11 = spec_digit_val(s[11]);
    let v12 = spec_digit_val(s[12]);
    assert((v11 * 10 + v12) / 10 == v11 && (v11 * 10 + v12) % 10 == v12);
    let v14 = spec_digit_val(s[14]);
    let v15 = spec_digit_val(s[15]);
    assert((v14 * 10 + v15) / 10 == v14 && (v14 * 10 + v15) % 10 == v15);
    let v17 = spec_digit_val(s[17]);
    let v18 = spec_digit_val(s[18]);
    assert((v17 * 10 + v18) / 10 == v17 && (v17 * 10 + v18) % 10 == v18);
    lemma_rfc3339_chars(p);
    assert(spec_rfc3339(p) =~= s);
}

/// The value of a digit character, if it is one.
fn digit_val(c: char) -> (r: Option<u8>)
    ensures
        match r {
            Some(d) => spec_is_digit(c) && d == spec_digit_val(c),
            None => !spec_is_digit(c),
        },
{
    match c {
        '0' => Some(0),
        '1' => Some(1),
        '2' => Some(2),
        '3' => Some(3),
        '4' => Some(4),
        '5' => Some(5),
        '6' => Some(6),
        '7' => Some(7),
        '8' => Some(8),
        '9' => Some(9),
        _ => None,
    }
}

/// Parses a canonical wire datetime into its components. Succeeds exactly
/// when [`spec_parse_rfc3339`] does, with the same components.
pub fn parse_rfc3339(s: &str) -> (r: Result<DateTimeParts, String>)
    ensures
        match r {
            Ok(p) => spec_parse_rfc3339(s@) == Some(p),
            Err(e) => spec_parse_rfc3339(s@) is None && e@ == "Failed to parse RFC 3339 datetime"@,
        },
{
    let n = s.unicode_len();
    if n != 20 {
        return Err("Failed to parse RFC 3339 datetime".to_owned());
    }
    if !(s.get_char(4) == '-' && s.get_char(7) == '-' && s.get_char(10) == 'T' && s.get_char(13)
        == ':' && s.get_char(16) == ':' && s.get_char(19) == 'Z') {
        return Err("Failed to parse RFC 3339 datetime".to_owned());
    }
    let d0 = digit_val(s.get_char(0));
    let d1 = digit_val(s.get_char(1));
    let d2 = digit_val(s.get_char(2));
    let d3 = digit_val(s.get_char(3));
    let d5 = digit_val(s.get_char(5));
    let d6 = digit_val(s.get_char(6));
    let d8 = digit_val(s.get_char(8));
    let d9 = digit_val(s.get_char(9));
    let d11 = digit_val(s.get_char(11));
    let d12 = digit_val(s.get_char(12));
    let d14 = digit_val(s.get_char(14));
    let d15 = digit_val(s.get_char(15));
    let d17 = digit_val(s.get_char(17));
    let d18 = digit_val(s.get_char(18));
    match (d0, d1, d2, d3, d5, d6, d8, d9, d11, d12, d14, d15, d17, d18) {
        (
            Some(d0),
            Some(d1),
            Some(d2),
            Some(d3),
            Some(d5),
            Some(d6),
            Some(d8),
            Some(d9),
            Some(d11),
            Some(d12),
            Some(d14),
            Some(d15),
            Some(d17),
            Some(d18),
        ) => {
            let p = DateTimeParts {
                year: d0 as u32 * 1000 + d1 as u32 * 100 + d2 as u32 * 10 + d3 as u32,
                month: d5 * 10 + d6,
                day: d8 * 10 + d9,
                hour: d11 * 10 + d12,
                minute: d14 * 10 + d15,
                second: d17 * 10 + d18,
            };
            let ok = 1 <= p.year && 1 <= p.month && p.month <= 12 && 1 <= p.day && p.day
                <= days_in_month(p.year, p.month) && p.hour < 24 && p.minute < 60 && p.second < 60;
            if ok {
                Ok(p)
            } else {
                Err("Failed to parse RFC 3339 datetime".to_owned())
            }
        },
        _ => Err("Failed to parse RFC 3339 datetime".to_owned()),
    }
}

/// The canonical wire datetime for a metadata-supplied date and time:
/// the two fields concatenated around a literal `T`, closed by a literal `Z`.
pub open spec fn spec_api_datetime(date: Seq<char>, time: Seq<char>) -> Seq<char> {
    date + seq!['T'] + time + seq!['Z']
}

/// Builds the canonical wire datetime by exact concatenation:
/// `date` + `"T"` + `time` + `"Z"`.
pub fn api_datetime_to_rfc3339(date: &str, time: &str) -> (r: String)
    ensures
        r@ == spec_api_datetime(date@, time@),
{
    proof {
        reveal_strlit("T");
        reveal_strlit("Z");
    }
    let mut s = String::from_str(date);
    s.append("T");
    s.append(time);
    s.append("Z");
    proof {
        assert(s@ =~= spec_api_datetime(date@, time@));
    }
    s
}

/// The civil datetime one day earlier, keeping the time of day. Saturates
/// at the first representable day, `0001-01-01`.
pub open spec fn spec_prev_day(p: DateTimeParts) -> DateTimeParts {
    if p.day > 1 {
        DateTimeParts { day: (p.day - 1) as u8, ..p }
    } else if p.month > 1 {
        DateTimeParts {
            month: (p.month - 1) as u8,
            day: spec_days_in_month(p.year as int, p.month as int - 1) as u8,
            ..p
        }
    } else if p.year > 1 {
        DateTimeParts { year: (p.year - 1) as u32, month: 12, day: 31, ..p }
    } else {
        p
    }
}

/// The civil datetime `n` days earlier, keeping the time of day; saturating
/// at `0001-01-01` as [`spec_prev_day`] does.
pub open spec fn spec_sub_days(p: DateTimeParts, n: nat) -> DateTimeParts
    decreases n,
{
    if n == 0 {
        p
    } else {
        spec_sub_days(spec_prev_day(p), (n - 1) as nat)
    }
}

pub fn prev_day(p: &DateTimeParts) -> (r: DateTimeParts)
    requires
        p.wf(),
    ensures
        r == spec_prev_day(*p),
        r.wf(),
{
    if p.day > 1 {
        DateTimeParts { day: p.day - 1, ..*p }
    } else if p.month > 1 {
        DateTimeParts { month: p.month - 1, day: days_in_month(p.year, p.month - 1), ..*p }
    } else if p.year > 1 {
        DateTimeParts { year: p.year - 1, month: 12, day: 31, ..*p }
    } else {
        *p
    }
}

pub fn sub_days(p: &DateTimeParts, n: u64) -> (r: DateTimeParts)
    requires
        p.wf(),
    ensures
        r == spec_sub_days(*p, n as nat),
        r.wf(),
{
    let mut cur = *p;
    let mut i: u64 = 0;
    while i < n
        invariant
            0 <= i <= n,
            cur.wf(),
            spec_sub_days(*p, n as nat) == spec_sub_days(cur, (n - i) as nat),
        decreases n - i,
    {
        cur = prev_day(&cur);
        i += 1;
    }
    cur
}

/// The datetime form the metadata service takes in its fetch window:
/// `YYYY-MM-DD HH:MM:SS`.
pub open spec fn spec_metadata_datetime(p: DateTimeParts) -> Seq<char> {
    spec_pad4(p.year as int) + seq!['-'] + spec_pad2(p.month as int) + seq!['-'] + spec_pad2(
        p.day as int,
    ) + seq![' '] + spec_pad2(p.hour as int) + seq![':'] + spec_pad2(p.minute as int) + seq![':']
        + spec_pad2(p.second as int)
}

/// Serializes a civil datetime in the metadata service's window form.
pub fn format_metadata_datetime(p: &DateTimeParts) -> (r: String)
    requires
        p.wf(),
    ensures
        r@ == spec_metadata_datetime(*p),
{
    proof {
        reveal_strlit("-");
        reveal_strlit(" ");
        reveal_strlit(":");
    }
    let mut out = String::new();
    append_pad4(&mut out, p.year);
    out.append("-");
    append_pad2(&mut out, p.month);
    out.append("-");
    append_pad2(&mut out, p.day);
    out.append(" ");
    append_pad2(&mut out, p.hour);
    out.append(":");
    append_pad2(&mut out, p.minute);
    out.append(":");
    append_pad2(&mut out, p.second);
    proof {
        assert(out@ =~= spec_metadata_datetime(*p));
    }
    out
}

/// The fetch window of one scheduled run: both bounds in the metadata
/// service's datetime form.
pub struct ScheduleWindow {
    pub date_start: String,
    pub date_stop: String,
}

/// Computes the fetch window for a run: the stop bound is `now`, the start
/// bound lies `lookback_days` civil days earlier, at the same time of day.
pub fn compute_window(now: &DateTimeParts, lookback_days: u64) -> (w: ScheduleWindow)
    requires
        now.wf(),
    ensures
        w.date_stop@ == spec_metadata_datetime(*now),
        w.date_start@ == spec_metadata_datetime(spec_sub_days(*now, lookback_days as nat)),
{
    let start = sub_days(now, lookback_days);
    ScheduleWindow {
        date_start: format_metadata_datetime(&start),
        date_stop: format_metadata_datetime(now),
    }
}

/// Computes this run's fetch window from the wall clock: whatever instant
/// the clock reports, the window is exactly the one [`compute_window`]
/// derives from it.
pub fn prepare_window(lookback_days: u64) -> (w: ScheduleWindow)
    ensures
        exists|now: DateTimeParts|
            #[trigger] now.wf() && w.date_stop@ == spec_metadata_datetime(now) && w.date_start@
                == spec_metadata_datetime(spec_sub_days(now, lookback_days as nat)),
{
    let now = crate::clock::now_bangkok();
    compute_window(&now, lookback_days)
}

#[verifier::external_type_specification]
pub struct ExTimestamp(qdrant_client::qdrant::Timestamp);

/// Days from the Unix epoch to the given civil date in the proleptic
/// Gregorian calendar (negative for dates before 1970): the standard
/// days-from-civil computation over 400-year eras.
pub open spec fn spec_days_from_epoch(y: int, m: int, d: int) -> int
    recommends
        1 <= y,
        1 <= m <= 12,
{
    let ys = if m <= 2 {
        y - 1
    } else {
        y
    };
    let era = ys / 400;
    let yoe = ys - era * 400;
    let mp = if m > 2 {
        m - 3
    } else {
        m + 9
    };
    let doy = (153 * mp + 2) / 5 + d - 1;
    let doe = yoe * 365 + yoe / 4 - yoe / 100 + doy;
    era * 146097 + doe - 719468
}

/// Seconds from the Unix epoch to the given civil datetime, taken as UTC.
pub open spec fn spec_civil_to_epoch_seconds(p: DateTimeParts) -> int
    recommends
        p.wf(),
{
    spec_days_from_epoch(p.year as int, p.month as int, p.day as int) * 86400 + p.hour as int
        * 3600 + p.minute as int * 60 + p.second as int
}

/// Relies on `Timestamp::date_time` of the vector-store client (prost's
/// well-known `Timestamp`): for a four-digit year it returns `Ok` exactly
/// when the civil datetime is valid in the proleptic Gregorian calendar —
/// month and day within the real calendar, hour, minute and second in
/// range. The timestamp it builds is a function of the civil components
/// alone: its seconds are the epoch seconds of the datetime taken as UTC
/// (prost's `date_time_to_seconds`, the same days-from-civil computation
/// as [`spec_civil_to_epoch_seconds`]), and its nanoseconds are zero.
#[verifier::external_body]
fn timestamp_from_civil(p: &DateTimeParts) -> (r: Result<qdrant_client::qdrant::Timestamp, String>)
    requires
        1 <= p.year <= 9999,
    ensures
        r is Ok <==> p.wf(),
        r is Ok ==> r.unwrap().nanos == 0 && r.unwrap().seconds as int
            == spec_civil_to_epoch_seconds(*p),
{
    qdrant_client::qdrant::Timestamp::date_time(
        p.year as i64,
        p.month,
        p.day,
        p.hour,
        p.minute,
        p.second,
    ).map_err(|e| format!("Failed to create timestamp: {}", e))
}

/// Parses a canonical wire datetime and converts it to the vector-store
/// client's timestamp: succeeds exactly when [`spec_parse_rfc3339`] does,
/// and the timestamp is built from precisely the parsed components — its
/// seconds are their epoch seconds, its nanoseconds zero.
pub fn rfc3339_to_timestamp(rfc3339_str: &str) -> (r: Result<
    qdrant_client::qdrant::Timestamp,
    String,
>)
    ensures
        spec_parse_rfc3339(rfc3339_str@) is Some ==> (r is Ok && r.unwrap().nanos == 0
            && r.unwrap().seconds as int == spec_civil_to_epoch_seconds(
            spec_parse_rfc3339(rfc3339_str@).unwrap(),
        )),
        spec_parse_rfc3339(rfc3339_str@) is None ==> (r matches Err(e) && e@
            == "Failed to parse RFC 3339 datetime"@),
{
    match parse_rfc3339(rfc3339_str) {
        Ok(p) => timestamp_from_civil(&p),
        Err(e) => Err(e),
    }
}

} // verus!
