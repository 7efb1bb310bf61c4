//! Audio validation: pure checks on captured PCM (16 kHz mono S16_LE).
//!
//! Hard rejects only when certain: empty audio, too short, too large.
//! Quiet audio is never rejected: soft speech looks like silence.
use vstd::prelude::*;
use crate::text::{decimal, u64_to_string, push_str, concat};

verus! {

/// Minimum audio duration in milliseconds before we bother transcribing.
pub const MIN_DURATION_MS: u64 = 500;

/// Maximum audio size accepted for upload (50 MiB).
pub const MAX_FILE_BYTES: u64 = 50 * 1024 * 1024;

/// PCM16 mono 16 kHz: bytes per millisecond.
pub const PCM_BYTES_PER_MS: u64 = 32;

/// Minimum bytes before an RMS level is meaningful (~1 s at 16 kHz mono S16).
pub const SILENCE_CHECK_MIN_BYTES: usize = 32000;

#[derive(Debug, Clone, Copy, PartialEq, Eq)]
pub enum ValidationError {
    Empty,
    TooShort { duration_ms: u64, threshold_ms: u64 },
    TooLong { bytes: u64, max_bytes: u64 },
}

/// `len / 32` rounded to the nearest millisecond (halves round up).
pub open spec fn pcm_duration_ms(len: nat) -> nat {
    (len + 16) / 32
}

/// Duration implied by PCM byte length (16 kHz mono S16_LE).
pub fn duration_ms_from_pcm(bytes: &[u8]) -> (ms: u64)
    ensures
        ms == pcm_duration_ms(bytes@.len()),
{
    let len = bytes.len() as u64;
    len / 32 + if len % 32 >= 16 { 1 } else { 0 }
}

/// The `i`-th little-endian signed 16-bit sample.
pub open spec fn sample(b: Seq<u8>, i: int) -> int {
    let v = b[2 * i] as int + 256 * (b[2 * i + 1] as int);
    if v >= 32768 { v - 65536 } else { v }
}

/// Sum of squares of the first `n` samples.
pub open spec fn sum_squares(b: Seq<u8>, n: nat) -> int
    decreases n,
{
    if n == 0 {
        0
    } else {
        sum_squares(b, (n - 1) as nat) + sample(b, n - 1) * sample(b, n - 1)
    }
}

/// RMS below 0.008 of full scale: `sum(s²) / (n · 32768²) < 0.008²`, cleared of fractions.
pub open spec fn quiet(b: Seq<u8>) -> bool {
    let n = b.len() / 2;
    1_000_000 * sum_squares(b, n) < 64 * n * 1073741824
}

proof fn lemma_square_bound(s: int)
    requires
        -32768 <= s < 32768,
    ensures
        0 <= s * s <= 1073741824,
{
    assert(0 <= s * s <= 1073741824) by (nonlinear_arith)
        requires
            -32768 <= s < 32768,
    ;
}

/// True when the buffer is long enough (≥ 1 s) and its RMS level is under 0.008 of full
/// scale. Diagnostic only: never used to discard a take.
pub fn is_silent(bytes: &[u8]) -> (b: bool)
    ensures
        b <==> (bytes@.len() >= SILENCE_CHECK_MIN_BYTES && quiet(bytes@)),
{
    if bytes.len() < SILENCE_CHECK_MIN_BYTES {
        return false;
    }
    let len = bytes.len();
    let n = len / 2;
    let mut sum: u128 = 0;
    let mut i: usize = 0;
    while i < n
        invariant
            len == bytes@.len(),
            n == len / 2,
            i <= n,
            sum == sum_squares(bytes@, i as nat),
            sum <= i * 1073741824,
        decreases n - i,
    {
        assert(2 * i + 1 < bytes@.len());
        let k: usize = i + i;
        let lo = bytes[k] as i32;
        let hi = bytes[k + 1] as i32;
        let v = lo + 256 * hi;
        let s: i32 = if v >= 32768 { v - 65536 } else { v };
        assert(s == sample(bytes@, i as int));
        proof {
            lemma_square_bound(s as int);
        }
        let sq: u128 = (s as i64 * s as i64) as u128;
        sum = sum + sq;
        i += 1;
    }
    1_000_000u128 * sum < 64u128 * (n as u128) * 1073741824u128
}

/// Seconds of `ms` rounded to the nearest second (halves round up).
pub open spec fn rounded_secs(ms: nat) -> nat {
    ms / 1000 + if ms % 1000 >= 500 { 1nat } else { 0nat }
}

/// Human label for a whole number of seconds: `<1s`, `6s`, `2m`, `2m 15s`, `1h 5m 3s`, ...
pub open spec fn secs_label(secs: nat) -> Seq<char> {
    let m = secs / 60;
    let s = secs % 60;
    let h = m / 60;
    let rm = m % 60;
    if secs < 1 {
        "<1s"@
    } else if secs < 60 {
        decimal(secs) + "s"@
    } else if m < 60 {
        if s == 0 {
            decimal(m) + "m"@
        } else {
            decimal(m) + "m "@ + decimal(s) + "s"@
        }
    } else if rm > 0 && s > 0 {
        decimal(h) + "h "@ + decimal(rm) + "m "@ + decimal(s) + "s"@
    } else if rm > 0 {
        decimal(h) + "h "@ + decimal(rm) + "m"@
    } else {
        decimal(h) + "h"@
    }
}

/// A duration label loses no whole minute or second below an hour: under a minute it is
/// the seconds; from a minute on it is minutes and seconds whose total is the duration
/// (the seconds part left out only when it is zero).
pub proof fn lemma_secs_label_keeps_every_second(secs: nat)
    ensures
        secs == 0 ==> secs_label(secs) == "<1s"@,
        1 <= secs < 60 ==> secs_label(secs) == decimal(secs) + "s"@,
        60 <= secs < 3600 && secs % 60 != 0 ==> exists|m: nat, s: nat|
            #![trigger decimal(m), decimal(s)]
            1 <= m < 60 && 1 <= s < 60 && m * 60 + s == secs && secs_label(secs) == decimal(m) + "m "@
                + decimal(s) + "s"@,
        60 <= secs < 3600 && secs % 60 == 0 ==> exists|m: nat|
            #![trigger decimal(m)]
            1 <= m < 60 && m * 60 == secs && secs_label(secs) == decimal(m) + "m"@,
{
    if 60 <= secs < 3600 {
        let m = secs / 60;
        let s = secs % 60;
        assert(m * 60 + s == secs);
        if s != 0 {
            assert(1 <= m < 60 && 1 <= s < 60 && m * 60 + s == secs && secs_label(secs) == decimal(m) + "m "@
                + decimal(s) + "s"@);
        } else {
            assert(1 <= m < 60 && m * 60 == secs && secs_label(secs) == decimal(m) + "m"@);
        }
    }
}

/// From an hour on, the label is hours, then minutes and seconds: `Hh Mm Ss` adding up to
/// the duration when both the minutes and seconds are non-zero, `Hh Mm` when the seconds
/// are zero, and just the hours when the minutes within the hour are zero.
pub proof fn lemma_secs_label_hours(secs: nat)
    requires
        secs >= 3600,
    ensures
        secs / 60 % 60 != 0 && secs % 60 != 0 ==> exists|h: nat, m: nat, s: nat|
            #![trigger decimal(h), decimal(m), decimal(s)]
            h >= 1 && 1 <= m < 60 && 1 <= s < 60 && h * 3600 + m * 60 + s == secs && secs_label(secs)
                == decimal(h) + "h "@ + decimal(m) + "m "@ + decimal(s) + "s"@,
        secs / 60 % 60 != 0 && secs % 60 == 0 ==> exists|h: nat, m: nat|
            #![trigger decimal(h), decimal(m)]
            h >= 1 && 1 <= m < 60 && h * 3600 + m * 60 == secs && secs_label(secs) == decimal(h) + "h "@
                + decimal(m) + "m"@,
        secs / 60 % 60 == 0 ==> secs_label(secs) == decimal(secs / 3600) + "h"@,
{
    let h = secs / 3600;
    let m = secs / 60 % 60;
    let s = secs % 60;
    assert(secs / 60 / 60 == h);
    assert(h * 3600 + m * 60 + s == secs);
    if m != 0 && s != 0 {
        assert(h >= 1 && 1 <= m < 60 && 1 <= s < 60 && h * 3600 + m * 60 + s == secs && secs_label(secs)
            == decimal(h) + "h "@ + decimal(m) + "m "@ + decimal(s) + "s"@);
    } else if m != 0 {
        assert(h >= 1 && 1 <= m < 60 && h * 3600 + m * 60 == secs && secs_label(secs) == decimal(h) + "h "@
            + decimal(m) + "m"@);
    }
}

/// A duration in milliseconds is shown as the whole seconds nearest to it (halves up).
pub proof fn lemma_rounded_secs_nearest(ms: nat)
    ensures
        rounded_secs(ms) * 1000 <= ms + 500,
        ms < rounded_secs(ms) * 1000 + 500,
{
}

/// Human label for a whole number of seconds (shared with the history UI).
pub fn format_secs(secs: u64) -> (r: String)
    ensures
        r@ == secs_label(secs as nat),
{
    if secs < 1 {
        return String::from_str("<1s");
    }
    if secs < 60 {
        return concat(u64_to_string(secs), "s");
    }
    let m = secs / 60;
    let s = secs % 60;
    if m < 60 {
        if s == 0 {
            return concat(u64_to_string(m), "m");
        } else {
            let mut r = concat(u64_to_string(m), "m ");
            let t = u64_to_string(s);
            push_str(&mut r, t.as_str());
            push_str(&mut r, "s");
            return r;
        }
    }
    let h = m / 60;
    let rm = m % 60;
    let hs = u64_to_string(h);
    if rm > 0 && s > 0 {
        let mut r = concat(hs, "h ");
        let t = u64_to_string(rm);
        push_str(&mut r, t.as_str());
        push_str(&mut r, "m ");
        let t = u64_to_string(s);
        push_str(&mut r, t.as_str());
        push_str(&mut r, "s");
        r
    } else if rm > 0 {
        let mut r = concat(hs, "h ");
        let t = u64_to_string(rm);
        push_str(&mut r, t.as_str());
        push_str(&mut r, "m");
        r
    } else {
        concat(hs, "h")
    }
}

/// Human-readable duration label from milliseconds (e.g. `6s`, `2m 15s`).
pub fn format_duration_ms(ms: u64) -> (r: String)
    ensures
        r@ == secs_label(rounded_secs(ms as nat)),
{
    let secs = ms / 1000 + if ms % 1000 >= 500 { 1 } else { 0 };
    format_secs(secs)
}

impl ValidationError {
    /// The message shown to the user for this error.
    pub fn to_string(&self) -> (s: String)
        ensures
            s@ == validation_message(*self),
    {
        match self {
            ValidationError::Empty => String::from_str("no audio captured"),
            ValidationError::TooShort { duration_ms, threshold_ms } => {
                let mut s = String::from_str("recording too short: ");
                let t = u64_to_string(*duration_ms);
                push_str(&mut s, t.as_str());
                push_str(&mut s, "ms (min ");
                let t = u64_to_string(*threshold_ms);
                push_str(&mut s, t.as_str());
                push_str(&mut s, "ms)");
                s
            },
            ValidationError::TooLong { bytes, max_bytes } => {
                let mut s = String::from_str("audio too large: ");
                let t = u64_to_string(*bytes);
                push_str(&mut s, t.as_str());
                push_str(&mut s, " bytes (max ");
                let t = u64_to_string(*max_bytes);
                push_str(&mut s, t.as_str());
                push_str(&mut s, ")");
                s
            },
        }
    }
}

pub open spec fn validation_message(e: ValidationError) -> Seq<char> {
    match e {
        ValidationError::Empty => "no audio captured"@,
        ValidationError::TooShort { duration_ms, threshold_ms } => "recording too short: "@
            + decimal(duration_ms as nat) + "ms (min "@ + decimal(threshold_ms as nat) + "ms)"@,
        ValidationError::TooLong { bytes, max_bytes } => "audio too large: "@ + decimal(
            bytes as nat,
        ) + " bytes (max "@ + decimal(max_bytes as nat) + ")"@,
    }
}

/// The verdict on captured audio: `Ok` or the first failed check.
pub open spec fn audio_verdict(len: nat, duration_ms: nat) -> Result<(), ValidationError> {
    let effective = if pcm_duration_ms(len) >= duration_ms { pcm_duration_ms(len) } else { duration_ms };
    if len == 0 {
        Err(ValidationError::Empty)
    } else if effective < MIN_DURATION_MS {
        Err(ValidationError::TooShort { duration_ms: effective as u64, threshold_ms: MIN_DURATION_MS })
    } else if len > MAX_FILE_BYTES {
        Err(ValidationError::TooLong { bytes: len as u64, max_bytes: MAX_FILE_BYTES })
    } else {
        Ok(())
    }
}

/// Validate audio data: empty, too short (by bytes or reported duration, whichever is
/// longer), or too large. Quiet audio is accepted.
pub fn validate_audio(bytes: &[u8], duration_ms: u64) -> (r: Result<(), ValidationError>)
    ensures
        r == audio_verdict(bytes@.len(), duration_ms as nat),
{
    if bytes.len() == 0 {
        return Err(ValidationError::Empty);
    }
    let from_pcm = duration_ms_from_pcm(bytes);
    let effective_ms = if from_pcm >= duration_ms { from_pcm } else { duration_ms };
    if effective_ms < MIN_DURATION_MS {
        return Err(ValidationError::TooShort { duration_ms: effective_ms, threshold_ms: MIN_DURATION_MS });
    }
    if bytes.len() as u64 > MAX_FILE_BYTES {
        return Err(ValidationError::TooLong { bytes: bytes.len() as u64, max_bytes: MAX_FILE_BYTES });
    }
    Ok(())
}

} // verus!

verus! {

/// `pactl get-source-mute` said the default source is muted: its output mentions `yes`.
pub open spec fn pactl_muted(out: Seq<char>) -> bool {
    crate::text::contains(out, "yes"@)
}

/// A whitespace-separated token of `pactl get-source-volume` output that reads `0%` (a
/// number ending in `%` whose value is zero).
pub open spec fn zero_percent(token: Seq<char>) -> bool {
    token.len() > 0 && token.last() == '%' && crate::text::parse_u32(token.drop_last()) == Some(0u32)
}

/// The warning for the default capture source's mute state, from the output of
/// `pactl get-source-mute @DEFAULT_SOURCE@`.
pub fn mute_warning(mute_output: &str) -> (r: Option<String>)
    ensures
        pactl_muted(mute_output@) ==> (r matches Some(m) && m@ == "Microphone is muted — unmute before dictating"@),
        !pactl_muted(mute_output@) ==> r is None,
{
    let v = crate::text::chars_of(mute_output);
    let yes = crate::text::chars_of("yes");
    if crate::text::contains_chars(&v, &yes) {
        Some(String::from_str("Microphone is muted — unmute before dictating"))
    } else {
        None
    }
}

/// The warning for the default capture source's volume, from the output of
/// `pactl get-source-volume @DEFAULT_SOURCE@`: some channel at 0%.
pub fn volume_warning(volume_output: &str) -> (r: Option<String>)
    ensures
        (exists|i: int| 0 <= i < crate::text::words(volume_output@).len() && zero_percent(
            #[trigger] crate::text::words(volume_output@)[i],
        )) ==> (r matches Some(m) && m@ == "Microphone input volume is 0% — raise it before dictating"@),
        !(exists|i: int| 0 <= i < crate::text::words(volume_output@).len() && zero_percent(
            #[trigger] crate::text::words(volume_output@)[i],
        )) ==> r is None,
{
    let v = crate::text::chars_of(volume_output);
    let ws = crate::text::words_chars(&v);
    let mut i: usize = 0;
    while i < ws.len()
        invariant
            i <= ws@.len(),
            v@ == volume_output@,
            ws@.len() == crate::text::words(v@).len(),
            forall|k: int| 0 <= k < ws@.len() ==> (#[trigger] ws@[k])@ == crate::text::words(v@)[k],
            forall|k: int| 0 <= k < i ==> !zero_percent(#[trigger] crate::text::words(v@)[k]),
        decreases ws.len() - i,
    {
        let w = &ws[i];
        if w.len() > 0 && w[w.len() - 1] == '%' {
            let body = crate::text::slice_chars(w, 0, w.len() - 1);
            assert(body@ =~= w@.drop_last());
            if let Some(n) = crate::text::parse_u32_chars(&body) {
                if n == 0 {
                    return Some(String::from_str("Microphone input volume is 0% — raise it before dictating"));
                }
            }
        }
        i += 1;
    }
    None
}

} // verus!
