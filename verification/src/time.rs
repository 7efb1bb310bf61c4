//! Recording timestamps: which written forms are read and how (chrono parses each form), and
//! the relative "how long ago" label of the history list.
use vstd::prelude::*;
use chrono::{Datelike, Timelike};
use crate::text::{chars_of, decimal, push_str, replace_char, replace_chars, slice_chars, split, split_chars, string_from, trim, u64_to_string};

verus! {

/// Calendar date and time of day, as chrono's fields give them.
#[derive(Debug, Clone, PartialEq, Eq)]
pub struct WallClock {
    pub year: i32,
    pub month: u32,
    pub day: u32,
    pub hour: u32,
    pub minute: u32,
    pub second: u32,
    pub nanosecond: u32,
}

/// A parsed recording timestamp: the clock reading and whether it is in UTC (RFC 3339 with an
/// offset, converted) or local wall time (every other form).
#[derive(Debug, Clone, PartialEq, Eq)]
pub struct RecordingTs {
    pub clock: WallClock,
    pub utc: bool,
}

/// What `chrono::NaiveDateTime::parse_from_str` reads from `s` with the format `fmt`.
pub uninterp spec fn chrono_naive(s: Seq<char>, fmt: Seq<char>) -> Option<WallClock>;

/// What `chrono::DateTime::parse_from_rfc3339` reads from `s`, converted to UTC.
pub uninterp spec fn chrono_rfc3339_utc(s: Seq<char>) -> Option<WallClock>;

/// `chrono::NaiveDateTime::parse_from_str(s, fmt)`, its fields copied out. Claims only that
/// the result is [`chrono_naive`] of the arguments.
#[verifier::external_body]
fn naive_parse(s: &str, fmt: &str) -> (r: Option<WallClock>)
    ensures
        r == chrono_naive(s@, fmt@),
{
    match chrono::NaiveDateTime::parse_from_str(s, fmt) {
        Ok(d) => Some(WallClock {
            year: d.year(),
            month: d.month(),
            day: d.day(),
            hour: d.hour(),
            minute: d.minute(),
            second: d.second(),
            nanosecond: d.nanosecond(),
        }),
        Err(_) => None,
    }
}

/// `chrono::DateTime::parse_from_rfc3339(s)` taken to UTC (`naive_utc`), its fields copied
/// out. Claims only that the result is [`chrono_rfc3339_utc`] of the argument.
#[verifier::external_body]
fn rfc3339_utc(s: &str) -> (r: Option<WallClock>)
    ensures
        r == chrono_rfc3339_utc(s@),
{
    match chrono::DateTime::parse_from_rfc3339(s) {
        Ok(d) => {
            let u = d.naive_utc();
            Some(WallClock {
                year: u.year(),
                month: u.month(),
                day: u.day(),
                hour: u.hour(),
                minute: u.minute(),
                second: u.second(),
                nanosecond: u.nanosecond(),
            })
        },
        Err(_) => None,
    }
}

/// `s` with its first space made a `T` (`replacen(' ', "T", 1)`).
pub open spec fn space_to_t(s: Seq<char>) -> Seq<char>
    decreases s.len(),
{
    if s.len() == 0 {
        s
    } else if s[0] == ' ' {
        s.update(0, 'T')
    } else {
        seq![s[0]] + space_to_t(s.drop_first())
    }
}

proof fn lemma_space_to_t_at(s: Seq<char>, i: int)
    requires
        0 <= i < s.len(),
        s[i] == ' ',
        forall|j: int| 0 <= j < i ==> s[j] != ' ',
    ensures
        space_to_t(s) == s.update(i, 'T'),
    decreases i,
{
    if i > 0 {
        lemma_space_to_t_at(s.drop_first(), i - 1);
        assert(space_to_t(s) =~= s.update(i, 'T'));
    }
}

proof fn lemma_space_to_t_none(s: Seq<char>)
    requires
        forall|j: int| 0 <= j < s.len() ==> s[j] != ' ',
    ensures
        space_to_t(s) == s,
    decreases s.len(),
{
    if s.len() > 0 {
        lemma_space_to_t_none(s.drop_first());
        assert(space_to_t(s) =~= s);
    }
}

/// The file-name form `2026-05-24_20-44-19` rewritten as `2026-05-24T20:44:19`: every `_`
/// becomes `T`, then the piece before the first `T` is the date and the piece after it (up
/// to a second `T`) the time, whose `-` become `:`.
pub open spec fn filename_fixed(s: Seq<char>) -> Seq<char> {
    let parts = split(replace_char(s, '_', 'T'), 'T');
    let date = parts[0];
    let time = if parts.len() > 1 { parts[1] } else { Seq::empty() };
    date + seq!['T'] + replace_char(time, '-', ':')
}

/// The recording timestamp `ts` reads as: nothing for an empty string; else, trimmed, RFC 3339
/// (in UTC), or local `YYYY-MM-DD HH:MM:SS` / `YYYY-MM-DDTHH:MM:SS` (fractional seconds
/// allowed), or the file-name form `YYYY-MM-DD_HH-MM-SS`.
pub open spec fn recording_ts_of(ts: Seq<char>) -> Option<RecordingTs> {
    if ts.len() == 0 {
        None
    } else {
        let s = trim(ts);
        let n = space_to_t(s);
        match chrono_rfc3339_utc(s) {
            Some(c) => Some(RecordingTs { clock: c, utc: true }),
            None => match chrono_naive(n, "%Y-%m-%dT%H:%M:%S"@) {
                Some(c) => Some(RecordingTs { clock: c, utc: false }),
                None => match chrono_naive(n, "%Y-%m-%dT%H:%M:%S%.f"@) {
                    Some(c) => Some(RecordingTs { clock: c, utc: false }),
                    None => match chrono_naive(filename_fixed(n), "%Y-%m-%dT%H:%M:%S"@) {
                        Some(c) => Some(RecordingTs { clock: c, utc: false }),
                        None => None,
                    },
                },
            },
        }
    }
}

fn space_to_t_chars(v: &[char]) -> (r: Vec<char>)
    ensures
        r@ == space_to_t(v@),
{
    let mut r: Vec<char> = slice_chars(v, 0, v.len());
    assert(r@ =~= v@);
    let mut i: usize = 0;
    while i < v.len()
        invariant
            i <= v@.len(),
            r@ == v@,
            forall|j: int| 0 <= j < i ==> v@[j] != ' ',
        decreases v.len() - i,
    {
        if v[i] == ' ' {
            proof {
                lemma_space_to_t_at(v@, i as int);
            }
            r.set(i, 'T');
            return r;
        }
        i += 1;
    }
    proof {
        lemma_space_to_t_none(v@);
    }
    r
}

fn filename_fixed_chars(v: &[char]) -> (r: Vec<char>)
    ensures
        r@ == filename_fixed(v@),
{
    let w = replace_chars(v, '_', 'T');
    let parts = split_chars(w.as_slice(), 'T');
    proof {
        crate::text::lemma_split_nonempty(w@, 'T');
    }
    let mut r: Vec<char> = parts[0].clone();
    r.push('T');
    if parts.len() > 1 {
        let t = replace_chars(parts[1].as_slice(), '-', ':');
        let mut i: usize = 0;
        let ghost head = r@;
        while i < t.len()
            invariant
                i <= t@.len(),
                r@ == head + t@.take(i as int),
            decreases t.len() - i,
        {
            r.push(t[i]);
            assert(head + t@.take(i + 1) =~= (head + t@.take(i as int)).push(t@[i as int]));
            i += 1;
        }
        assert(t@.take(t@.len() as int) =~= t@);
    } else {
        assert(replace_char(Seq::<char>::empty(), '-', ':') =~= Seq::<char>::empty());
        assert(r@ =~= r@ + Seq::<char>::empty());
    }
    r
}

/// Reads a recording timestamp (see [`recording_ts_of`]).
pub fn parse_recording_ts(ts: &str) -> (r: Option<RecordingTs>)
    ensures
        r == recording_ts_of(ts@),
{
    if ts.is_empty() {
        return None;
    }
    let s = crate::keyring::trimmed(ts);
    if let Some(c) = rfc3339_utc(s.as_str()) {
        return Some(RecordingTs { clock: c, utc: true });
    }
    let n = string_from(&space_to_t_chars(&chars_of(s.as_str())));
    if let Some(c) = naive_parse(n.as_str(), "%Y-%m-%dT%H:%M:%S") {
        return Some(RecordingTs { clock: c, utc: false });
    }
    if let Some(c) = naive_parse(n.as_str(), "%Y-%m-%dT%H:%M:%S%.f") {
        return Some(RecordingTs { clock: c, utc: false });
    }
    let fixed = string_from(&filename_fixed_chars(&chars_of(n.as_str())));
    match naive_parse(fixed.as_str(), "%Y-%m-%dT%H:%M:%S") {
        Some(c) => Some(RecordingTs { clock: c, utc: false }),
        None => None,
    }
}

/// The history list's "how long ago" label for `mins` whole minutes elapsed: the absolute
/// time when it lies in the future, `just now` under a minute, then whole minutes, hours and
/// days (under 30 days), then weeks (under five), else the calendar date.
pub open spec fn relative_label(mins: int, absolute: Seq<char>, date: Seq<char>) -> Seq<char> {
    if mins < 0 {
        absolute
    } else if mins < 1 {
        "just now"@
    } else if mins < 60 {
        decimal(mins as nat) + "m ago"@
    } else if mins / 60 < 24 {
        decimal((mins / 60) as nat) + "h ago"@
    } else if mins / 1440 < 30 {
        decimal((mins / 1440) as nat) + "d ago"@
    } else if mins / 1440 / 7 < 5 {
        decimal((mins / 1440 / 7) as nat) + "w ago"@
    } else {
        date
    }
}

fn count_label(n: u64, unit: &str) -> (s: String)
    ensures
        s@ == decimal(n as nat) + unit@,
{
    let mut s = u64_to_string(n);
    push_str(&mut s, unit);
    s
}

/// The relative label of a recording made `elapsed_mins` whole minutes ago (see
/// [`relative_label`]); `absolute` and `date` are its time and its date as the caller
/// rendered them in local time.
pub fn relative_time_label(elapsed_mins: i64, absolute: &str, date: &str) -> (s: String)
    ensures
        s@ == relative_label(elapsed_mins as int, absolute@, date@),
{
    if elapsed_mins < 0 {
        return String::from_str(absolute);
    }
    if elapsed_mins < 1 {
        return String::from_str("just now");
    }
    let m = elapsed_mins as u64;
    if m < 60 {
        return count_label(m, "m ago");
    }
    if m / 60 < 24 {
        return count_label(m / 60, "h ago");
    }
    let days = m / 1440;
    if days < 30 {
        return count_label(days, "d ago");
    }
    if days / 7 < 5 {
        return count_label(days / 7, "w ago");
    }
    String::from_str(date)
}

} // verus!
