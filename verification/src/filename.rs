//! Filename normalization.
//!
//! Two encodings of camera + timestamp inside an identifier are supported:
//! the underscore form `camera_date_time_sequence.ext` and the dash form
//! `camera-YYYY-MM-DD-HH-MM-sequence.ext`. A URL-style prefix is stripped
//! first (only the last path segment counts). The dash form is selected
//! when the identifier contains no underscore and contains the substring
//! `cctv`; otherwise the underscore form is used.

use crate::models::ParsedFilename;
use crate::strutil::dash_to_colon;
use crate::strutil::find_char;
use crate::strutil::contains_char;
use crate::strutil::prefix_before;
use crate::strutil::rfind_char;
use crate::strutil::spec_find;
use crate::strutil::spec_replace;
use crate::strutil::spec_rfind;
use crate::strutil::spec_split;
use crate::strutil::split_str;
use crate::strutil::views_of;
use vstd::prelude::*;
use vstd::string::StrSliceExecFns;
use vstd::string::StringExecFns;

verus! {

/// The fields of a successful filename parse, at the specification level.
pub struct SpecParsedFilename {
    pub camera_id: Seq<char>,
    pub date: Seq<char>,
    pub time: Seq<char>,
    pub sequence: Seq<char>,
}

/// Why a filename failed to parse.
pub enum FilenameError {
    /// Dash form with no dash at all: no camera id can be cut off.
    DashMissingCamera,
    /// Dash form with fewer than six dash-separated segments after the camera id.
    DashTooFewSegments,
    /// Underscore form with fewer than four underscore-separated segments.
    UnderscoreTooFewSegments,
}

/// The error message reported for each failure, verbatim.
pub open spec fn spec_error_message(k: FilenameError) -> Seq<char> {
    match k {
        FilenameError::DashMissingCamera => "Invalid dash format filename - missing camera ID"@,
        FilenameError::DashTooFewSegments => "Invalid dash format filename"@,
        FilenameError::UnderscoreTooFewSegments => "Invalid filename format"@,
    }
}

/// Whether the literal substring `cctv` occurs in `s`.
pub open spec fn spec_contains_cctv(s: Seq<char>) -> bool {
    exists|i: int|
        0 <= i && i + 4 <= s.len() && #[trigger] s[i] == 'c' && s[i + 1] == 'c' && s[i + 2] == 't'
            && s[i + 3] == 'v'
}

/// The last path segment of `s`: everything after the last `/`, or all of
/// `s` when it contains no `/`.
pub open spec fn spec_strip_path(s: Seq<char>) -> Seq<char> {
    let i = spec_rfind(s, '/');
    if i < 0 {
        s
    } else {
        s.subrange(i + 1, s.len() as int)
    }
}

/// Underscore form: at least four `_`-separated segments; the fourth is cut
/// at its first `.` to yield the sequence number.
pub open spec fn spec_parse_underscore(s: Seq<char>) -> Result<
    SpecParsedFilename,
    FilenameError,
> {
    let parts = spec_split(s, '_');
    if parts.len() < 4 {
        Err(FilenameError::UnderscoreTooFewSegments)
    } else {
        Ok(
            SpecParsedFilename {
                camera_id: parts[0],
                date: parts[1],
                time: parts[2],
                sequence: spec_split(parts[3], '.')[0],
            },
        )
    }
}

/// Dash form: the camera id is everything before the first dash; the
/// remainder must split into at least six dash-separated segments, of which
/// the first three are the date, the next two the time, and the sixth (cut
/// at its first `.`) the sequence number.
pub open spec fn spec_parse_dash(s: Seq<char>) -> Result<SpecParsedFilename, FilenameError> {
    let i = spec_find(s, '-');
    if i < 0 {
        Err(FilenameError::DashMissingCamera)
    } else {
        let rem = s.subrange(i + 1, s.len() as int);
        let parts = spec_split(rem, '-');
        if parts.len() < 6 {
            Err(FilenameError::DashTooFewSegments)
        } else {
            Ok(
                SpecParsedFilename {
                    camera_id: s.subrange(0, i),
                    date: parts[0] + seq!['-'] + parts[1] + seq!['-'] + parts[2],
                    time: parts[3] + seq!['-'] + parts[4],
                    sequence: spec_split(parts[5], '.')[0],
                },
            )
        }
    }
}

/// Filename normalization as a total function: strip any path prefix, then
/// parse by the selected encoding.
pub open spec fn spec_parse_cctv_filename(s: Seq<char>) -> Result<
    SpecParsedFilename,
    FilenameError,
> {
    let t = spec_strip_path(s);
    if !t.contains('_') && spec_contains_cctv(t) {
        spec_parse_dash(t)
    } else {
        spec_parse_underscore(t)
    }
}

/// Whether the executable outcome `r` is exactly the specified outcome `m`:
/// the same case, field for field on success, and the documented message on
/// failure.
pub open spec fn parse_outcome_matches(
    r: Result<ParsedFilename, String>,
    m: Result<SpecParsedFilename, FilenameError>,
) -> bool {
    match (r, m) {
        (Ok(p), Ok(f)) => p.camera_id@ == f.camera_id && p.date@ == f.date && p.time@ == f.time
            && p.sequence@ == f.sequence,
        (Err(e), Err(k)) => e@ == spec_error_message(k),
        _ => false,
    }
}

/// Whether the literal substring `cctv` occurs in `s`.
pub fn contains_cctv(s: &str) -> (r: bool)
    ensures
        r == spec_contains_cctv(s@),
{
    let n = s.unicode_len();
    if n < 4 {
        return false;
    }
    let mut i: usize = 0;
    while i < n - 3
        invariant
            4 <= n == s@.len(),
            0 <= i <= n - 3,
            forall|k: int|
                0 <= k < i ==> !(#[trigger] s@[k] == 'c' && s@[k + 1] == 'c' && s@[k + 2] == 't'
                    && s@[k + 3] == 'v'),
        decreases n - i,
    {
        if s.get_char(i) == 'c' && s.get_char(i + 1) == 'c' && s.get_char(i + 2) == 't'
            && s.get_char(i + 3) == 'v' {
            return true;
        }
        i += 1;
    }
    false
}

/// Parses the underscore form.
pub fn parse_underscore_format(filename: &str) -> (r: Result<ParsedFilename, String>)
    ensures
        parse_outcome_matches(r, spec_parse_underscore(filename@)),
{
    let parts = split_str(filename, '_');
    if parts.len() < 4 {
        return Err("Invalid filename format".to_owned());
    }
    let camera_id = parts[0].clone();
    let date = parts[1].clone();
    let time = parts[2].clone();
    let sequence = prefix_before(parts[3].as_str(), '.');
    Ok(ParsedFilename { camera_id, date, time, sequence })
}

/// Parses the dash form.
pub fn parse_dash_format(filename: &str) -> (r: Result<ParsedFilename, String>)
    ensures
        parse_outcome_matches(r, spec_parse_dash(filename@)),
{
    proof {
        reveal_strlit("-");
    }
    let dash = find_char(filename, '-');
    let i = match dash {
        Some(i) => i,
        None => {
            return Err("Invalid dash format filename - missing camera ID".to_owned());
        },
    };
    let n = filename.unicode_len();
    let camera_id = filename.substring_char(0, i).to_owned();
    let rem = filename.substring_char(i + 1, n);
    let parts = split_str(rem, '-');
    if parts.len() < 6 {
        return Err("Invalid dash format filename".to_owned());
    }
    let mut date = parts[0].clone();
    date.append("-");
    date.append(parts[1].as_str());
    date.append("-");
    date.append(parts[2].as_str());
    let mut time = parts[3].clone();
    time.append("-");
    time.append(parts[4].as_str());
    let sequence = prefix_before(parts[5].as_str(), '.');
    proof {
        let sparts = spec_split(filename@.subrange(i + 1, n as int), '-');
        assert(views_of(parts@)[0] == parts@[0]@);
        assert(views_of(parts@)[1] == parts@[1]@);
        assert(views_of(parts@)[2] == parts@[2]@);
        assert(views_of(parts@)[3] == parts@[3]@);
        assert(views_of(parts@)[4] == parts@[4]@);
        assert(views_of(parts@)[5] == parts@[5]@);
        assert("-"@ =~= seq!['-']);
        assert(date@ =~= sparts[0] + seq!['-'] + sparts[1] + seq!['-'] + sparts[2]);
        assert(time@ =~= sparts[3] + seq!['-'] + sparts[4]);
    }
    Ok(ParsedFilename { camera_id, date, time, sequence })
}

/// Parses a filename in either supported encoding, stripping any URL-style
/// path prefix first. Returns exactly the fields of [`spec_parse_cctv_filename`],
/// or its documented error.
pub fn parse_cctv_filename(filename: &str) -> (r: Result<ParsedFilename, String>)
    ensures
        parse_outcome_matches(r, spec_parse_cctv_filename(filename@)),
{
    let n = filename.unicode_len();
    let stripped: String = match rfind_char(filename, '/') {
        Some(i) => filename.substring_char(i + 1, n).to_owned(),
        None => filename.to_owned(),
    };
    let has_underscore = contains_char(stripped.as_str(), '_');
    if !has_underscore && contains_cctv(stripped.as_str()) {
        parse_dash_format(stripped.as_str())
    } else {
        parse_underscore_format(stripped.as_str())
    }
}

/// Canonical wire datetime for a parsed filename: the date, a literal `T`,
/// the time with each `-` replaced by `:`, then `:00Z`.
pub open spec fn spec_filename_rfc3339(p: SpecParsedFilename) -> Seq<char> {
    p.date + seq!['T'] + spec_replace(p.time, '-', ':') + seq![':', '0', '0', 'Z']
}

/// Converts a parsed filename's date and time to the canonical wire datetime.
pub fn filename_to_rfc3339(parsed: &ParsedFilename) -> (r: String)
    ensures
        r@ == spec_filename_rfc3339(
            SpecParsedFilename {
                camera_id: parsed.camera_id@,
                date: parsed.date@,
                time: parsed.time@,
                sequence: parsed.sequence@,
            },
        ),
{
    proof {
        reveal_strlit("T");
        reveal_strlit(":00Z");
    }
    let time_with_minutes = dash_to_colon(parsed.time.as_str());
    let mut out = parsed.date.clone();
    out.append("T");
    out.append(time_with_minutes.as_str());
    out.append(":00Z");
    proof {
        assert(out@ =~= spec_filename_rfc3339(
            SpecParsedFilename {
                camera_id: parsed.camera_id@,
                date: parsed.date@,
                time: parsed.time@,
                sequence: parsed.sequence@,
            },
        ));
    }
    out
}

} // verus!
