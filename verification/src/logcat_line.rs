//! The line parser: one text line of `logcat -v epoch,uid` output is either
//! a fully populated [`LogcatLine`] record or a [`ParseError`].
//!
//! The grammar, anchored at the start of the line, is
//!
//! ```text
//! <spaces> <sec:digits> . <millis:3 digits> <spaces> <uid:non-space-run> <spaces>
//! <pid:digits> <spaces> <tid:digits> <spaces> <level:one of EWIDV> <spaces>
//! <tag:non-space-run> <optional spaces> : <space> <msg:rest of line>
//! ```
//!
//! with `timestamp = sec * 1000 + millis`. Overflow of the timestamp or an
//! out-of-range `pid`/`tid` is a parse error, never silent wraparound. A line
//! that fails any field yields no record at all.

use vstd::prelude::*;

use crate::scan::digit_value;
use crate::scan::digits_end;
use crate::scan::digits_seq_value;
use crate::scan::is_digit;
use crate::scan::nonspace_end;
use crate::scan::skip_digits;
use crate::scan::skip_nonspace;
use crate::scan::skip_spaces;
use crate::scan::spaces_end;

verus! {

/// One structured log record, only ever built from a line that matched the
/// whole grammar.
#[derive(Debug, Eq, PartialEq)]
pub struct LogcatLine {
    /// Milliseconds since the epoch: `sec * 1000 + millis`.
    pub timestamp: u128,
    /// Originating identity, kept verbatim as text (may be a daemon name or
    /// a numeric id; never interpreted as a number).
    pub uid: String,
    pub pid: u32,
    pub tid: u32,
    /// Single-character severity code, one of `E`, `W`, `I`, `D`, `V`.
    pub level: String,
    /// Source-component label.
    pub tag: String,
    /// The unparsed remainder of the line.
    pub msg: String,
}

/// Rejection of a whole line: some field did not match the grammar, or a
/// numeric field was out of range.
#[derive(Clone, Copy, Debug, Eq, PartialEq)]
pub struct ParseError;

/// Mathematical image of a [`LogcatLine`].
pub ghost struct LogcatLineModel {
    pub timestamp: nat,
    pub uid: Seq<char>,
    pub pid: nat,
    pub tid: nat,
    pub level: Seq<char>,
    pub tag: Seq<char>,
    pub msg: Seq<char>,
}

impl View for LogcatLine {
    type V = LogcatLineModel;

    open spec fn view(&self) -> LogcatLineModel {
        LogcatLineModel {
            timestamp: self.timestamp as nat,
            uid: self.uid@,
            pid: self.pid as nat,
            tid: self.tid as nat,
            level: self.level@,
            tag: self.tag@,
            msg: self.msg@,
        }
    }
}

/// A severity code admitted by the grammar.
pub open spec fn is_level(c: char) -> bool {
    c == 'E' || c == 'W' || c == 'I' || c == 'D' || c == 'V'
}

/// The tag and message of the line, given the index where the tag run
/// starts. The tag is a non-empty run of non-space characters, followed by
/// optional padding spaces, a colon and exactly one space; the message is
/// the verbatim rest of the line. When the padded separator is absent but
/// the run itself ends in a colon directly followed by a space, that final
/// colon serves as the separator instead.
pub open spec fn spec_tag_msg(s: Seq<char>, tag_start: int) -> Option<(Seq<char>, Seq<char>)> {
    let tag_end = nonspace_end(s, tag_start);
    let colon = spaces_end(s, tag_end);
    if tag_end <= tag_start {
        None
    } else if colon < s.len() && s[colon] == ':' && colon + 1 < s.len() && s[colon + 1] == ' ' {
        Some((s.subrange(tag_start, tag_end), s.subrange(colon + 2, s.len() as int)))
    } else if tag_start < tag_end - 1 && s[tag_end - 1] == ':' && tag_end < s.len() {
        Some((s.subrange(tag_start, tag_end - 1), s.subrange(tag_end + 1, s.len() as int)))
    } else {
        None
    }
}

/// The whole grammar: `spec_parse(s)` is the record described by the line
/// `s`, or `None` when `s` does not match. The match is anchored at the
/// start of the line, so leading garbage never lets a later field match.
pub open spec fn spec_parse(s: Seq<char>) -> Option<LogcatLineModel> {
    let sec_start = spaces_end(s, 0);
    let sec_end = digits_end(s, sec_start);
    let millis_start = sec_end + 1;
    let millis_end = millis_start + 3;
    if sec_start <= 0 || sec_end <= sec_start || !(sec_end < s.len() && s[sec_end] == '.') {
        None
    } else if digits_end(s, millis_start) != millis_end {
        None
    } else {
        let uid_start = spaces_end(s, millis_end);
        let uid_end = nonspace_end(s, uid_start);
        let pid_start = spaces_end(s, uid_end);
        let pid_end = digits_end(s, pid_start);
        let tid_start = spaces_end(s, pid_end);
        let tid_end = digits_end(s, tid_start);
        let level_pos = spaces_end(s, tid_end);
        if uid_start <= millis_end || uid_end <= uid_start || pid_start <= uid_end || pid_end
            <= pid_start || tid_start <= pid_end || tid_end <= tid_start || level_pos <= tid_end {
            None
        } else if !(level_pos < s.len() && is_level(s[level_pos])) {
            None
        } else {
            let tag_start = spaces_end(s, level_pos + 1);
            if tag_start <= level_pos + 1 {
                None
            } else {
                match spec_tag_msg(s, tag_start) {
                    None => None,
                    Some(tag_msg) => {
                        let sec_val = digits_seq_value(s.subrange(sec_start, sec_end));
                        let millis_val = digits_seq_value(s.subrange(millis_start, millis_end));
                        let pid_val = digits_seq_value(s.subrange(pid_start, pid_end));
                        let tid_val = digits_seq_value(s.subrange(tid_start, tid_end));
                        if sec_val * 1000 + millis_val > u128::MAX as nat || pid_val > u32::MAX
                            as nat || tid_val > u32::MAX as nat {
                            None
                        } else {
                            Some(
                                LogcatLineModel {
                                    timestamp: sec_val * 1000 + millis_val,
                                    uid: s.subrange(uid_start, uid_end),
                                    pid: pid_val,
                                    tid: tid_val,
                                    level: s.subrange(level_pos, level_pos + 1),
                                    tag: tag_msg.0,
                                    msg: tag_msg.1,
                                },
                            )
                        }
                    },
                }
            }
        }
    }
}

/// Every character strictly before the end of a digit run is a digit.
proof fn lemma_digits_end_all_digits(s: Seq<char>, i: int, k: int)
    requires
        0 <= i <= k < digits_end(s, i),
    ensures
        is_digit(s[k]),
    decreases k - i,
{
    if i < k {
        lemma_digits_end_all_digits(s, i + 1, k);
    }
}

/// Extending a digit run on the right never decreases its value.
proof fn lemma_digits_value_prefix(s: Seq<char>, a: int, k: int, b: int)
    requires
        0 <= a <= k <= b <= s.len(),
    ensures
        digits_seq_value(s.subrange(a, k)) <= digits_seq_value(s.subrange(a, b)),
    decreases b - k,
{
    if k < b {
        assert(s.subrange(a, k + 1).drop_last() =~= s.subrange(a, k));
        assert(s.subrange(a, k + 1).last() == s[k]);
        lemma_digits_value_prefix(s, a, k + 1, b);
    }
}

fn is_level_exec(c: char) -> (r: bool)
    ensures
        r == is_level(c),
{
    c == 'E' || c == 'W' || c == 'I' || c == 'D' || c == 'V'
}

/// Value of the digit run `s[a..b]`, or `None` when it exceeds `u128::MAX`.
fn parse_u128_digits(s: &str, a: usize, b: usize, n: usize) -> (r: Option<u128>)
    requires
        a <= b <= n,
        n == s@.len(),
        forall|k: int| a <= k < b ==> is_digit(s@[k]),
    ensures
        match r {
            Some(v) => v as nat == digits_seq_value(s@.subrange(a as int, b as int)),
            None => digits_seq_value(s@.subrange(a as int, b as int)) > u128::MAX,
        },
{
    let mut acc: u128 = 0;
    let mut k: usize = a;
    proof {
        assert(s@.subrange(a as int, a as int) =~= Seq::<char>::empty());
    }
    while k < b
        invariant
            a <= k <= b <= n,
            n == s@.len(),
            forall|j: int| a <= j < b ==> is_digit(s@[j]),
            acc as nat == digits_seq_value(s@.subrange(a as int, k as int)),
        decreases b - k,
    {
        let c = s.get_char(k);
        let d: u128 = (c as u32 - 48) as u128;
        proof {
            assert(s@.subrange(a as int, k + 1).drop_last() =~= s@.subrange(a as int, k as int));
            assert(s@.subrange(a as int, k + 1).last() == s@[k as int]);
            assert(d as nat == digit_value(s@[k as int]));
        }
        let acc10 = match acc.checked_mul(10) {
            Some(x) => x,
            None => {
                proof {
                    lemma_digits_value_prefix(s@, a as int, k + 1, b as int);
                }
                return None;
            },
        };
        acc = match acc10.checked_add(d) {
            Some(x) => x,
            None => {
                proof {
                    lemma_digits_value_prefix(s@, a as int, k + 1, b as int);
                }
                return None;
            },
        };
        k = k + 1;
    }
    Some(acc)
}

impl LogcatLine {
    /// Parse one line. Returns `Ok` exactly on the lines the grammar admits,
    /// with every field equal to its captured text or number, and `Err` on
    /// every other line — never a partially filled record.
    pub fn from_str(s: &str) -> (r: Result<LogcatLine, ParseError>)
        ensures
            match r {
                Ok(line) => spec_parse(s@) == Some(line@),
                Err(_) => spec_parse(s@) is None,
            },
    {
        let n = s.unicode_len();
        let sec_start = skip_spaces(s, 0, n);
        if sec_start == 0 {
            return Err(ParseError);
        }
        let sec_end = skip_digits(s, sec_start, n);
        if sec_end == sec_start || !(sec_end < n) || s.get_char(sec_end) != '.' {
            return Err(ParseError);
        }
        let millis_start = sec_end + 1;
        let millis_digits_end = skip_digits(s, millis_start, n);
        if millis_digits_end - millis_start != 3 {
            return Err(ParseError);
        }
        let millis_end = millis_start + 3;
        let uid_start = skip_spaces(s, millis_end, n);
        let uid_end = skip_nonspace(s, uid_start, n);
        if uid_start == millis_end || uid_end == uid_start {
            return Err(ParseError);
        }
        let pid_start = skip_spaces(s, uid_end, n);
        let pid_end = skip_digits(s, pid_start, n);
        if pid_start == uid_end || pid_end == pid_start {
            return Err(ParseError);
        }
        let tid_start = skip_spaces(s, pid_end, n);
        let tid_end = skip_digits(s, tid_start, n);
        if tid_start == pid_end || tid_end == tid_start {
            return Err(ParseError);
        }
        let level_pos = skip_spaces(s, tid_end, n);
        if level_pos == tid_end || !(level_pos < n) || !is_level_exec(s.get_char(level_pos)) {
            return Err(ParseError);
        }
        let tag_start = skip_spaces(s, level_pos + 1, n);
        if tag_start == level_pos + 1 {
            return Err(ParseError);
        }
        let tag_end = skip_nonspace(s, tag_start, n);
        if tag_end == tag_start {
            return Err(ParseError);
        }
        let colon = skip_spaces(s, tag_end, n);
        let tag_hi: usize;
        let msg_lo: usize;
        if colon < n && s.get_char(colon) == ':' && colon + 1 < n && s.get_char(colon + 1) == ' ' {
            tag_hi = tag_end;
            msg_lo = colon + 2;
        } else if tag_start < tag_end - 1 && s.get_char(tag_end - 1) == ':' && tag_end < n {
            tag_hi = tag_end - 1;
            msg_lo = tag_end + 1;
        } else {
            return Err(ParseError);
        }
        proof {
            assert forall|k: int| sec_start <= k < sec_end implies is_digit(s@[k]) by {
                lemma_digits_end_all_digits(s@, sec_start as int, k);
            }
            assert forall|k: int| millis_start <= k < millis_end implies is_digit(s@[k]) by {
                lemma_digits_end_all_digits(s@, millis_start as int, k);
            }
            assert forall|k: int| pid_start <= k < pid_end implies is_digit(s@[k]) by {
                lemma_digits_end_all_digits(s@, pid_start as int, k);
            }
            assert forall|k: int| tid_start <= k < tid_end implies is_digit(s@[k]) by {
                lemma_digits_end_all_digits(s@, tid_start as int, k);
            }
        }
        let sec_val = match parse_u128_digits(s, sec_start, sec_end, n) {
            Some(v) => v,
            None => {
                return Err(ParseError);
            },
        };
        let millis_val = match parse_u128_digits(s, millis_start, millis_end, n) {
            Some(v) => v,
            None => {
                return Err(ParseError);
            },
        };
        let timestamp = match sec_val.checked_mul(1000) {
            Some(x) => match x.checked_add(millis_val) {
                Some(y) => y,
                None => {
                    return Err(ParseError);
                },
            },
            None => {
                return Err(ParseError);
            },
        };
        let pid_val = match parse_u128_digits(s, pid_start, pid_end, n) {
            Some(v) => v,
            None => {
                return Err(ParseError);
            },
        };
        if pid_val > u32::MAX as u128 {
            return Err(ParseError);
        }
        let tid_val = match parse_u128_digits(s, tid_start, tid_end, n) {
            Some(v) => v,
            None => {
                return Err(ParseError);
            },
        };
        if tid_val > u32::MAX as u128 {
            return Err(ParseError);
        }
        Ok(
            LogcatLine {
                timestamp,
                uid: s.substring_char(uid_start, uid_end).to_owned(),
                pid: pid_val as u32,
                tid: tid_val as u32,
                level: s.substring_char(level_pos, level_pos + 1).to_owned(),
                tag: s.substring_char(tag_start, tag_hi).to_owned(),
                msg: s.substring_char(msg_lo, n).to_owned(),
            },
        )
    }
}

/// The timestamp of every record is exactly `sec * 1000 + millis`, read
/// from the two timestamp sub-fields of its line — no truncation and no
/// wraparound.
pub proof fn lemma_timestamp_formula(s: Seq<char>, m: LogcatLineModel)
    requires
        spec_parse(s) == Some(m),
    ensures
        ({
            let sec_start = spaces_end(s, 0);
            let sec_end = digits_end(s, sec_start);
            m.timestamp == digits_seq_value(s.subrange(sec_start, sec_end)) * 1000
                + digits_seq_value(s.subrange(sec_end + 1, sec_end + 4))
        }),
        m.timestamp <= u128::MAX as nat,
{
}

/// Every record carries a level that is one of the five severity codes:
/// a line whose level field holds any other character — or more than one
/// character — is rejected, however well-formed the rest of the line is.
pub proof fn lemma_level_is_always_a_code(s: Seq<char>, m: LogcatLineModel)
    requires
        spec_parse(s) == Some(m),
    ensures
        m.level.len() == 1,
        is_level(m.level[0]),
{
}

/// Parsing is a pure function of the line: two parses of the same line agree
/// on success versus rejection and on every field of the record — there is
/// no hidden state.
pub proof fn lemma_parse_idempotent(
    s: Seq<char>,
    r1: Option<LogcatLineModel>,
    r2: Option<LogcatLineModel>,
)
    requires
        r1 == spec_parse(s),
        r2 == spec_parse(s),
    ensures
        r1 == r2,
{
}

impl core::str::FromStr for LogcatLine {
    type Err = ParseError;

    fn from_str(s: &str) -> Result<LogcatLine, ParseError> {
        LogcatLine::from_str(s)
    }
}

} // verus!
