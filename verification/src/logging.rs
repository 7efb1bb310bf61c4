//! Structured log records for one recording's lifecycle. The caller hands each record to
//! the log subscriber.
use vstd::prelude::*;
use crate::state::{AppState, state_label};
use crate::text::{chars_of, push_str, string_from, u64_to_string, decimal};

verus! {

/// Lowercase hexadecimal digit for `d` (0–15).
pub open spec fn hex_digit(d: nat) -> char {
    let d = d % 16;
    if d < 10 { (d + 48) as char } else { (d - 10 + 97) as char }
}

/// Lowercase hexadecimal notation of `n`, without leading zeros (`format!("{:x}")`).
pub open spec fn hex(n: nat) -> Seq<char>
    decreases n,
{
    if n < 16 {
        seq![hex_digit(n)]
    } else {
        hex(n / 16).push(hex_digit(n % 16))
    }
}

pub fn hex_string(n: u128) -> (s: String)
    ensures
        s@ == hex(n as nat),
    decreases n,
{
    let d: u8 = (n % 16) as u8;
    let c = if d < 10 { (d + 48) as char } else { (d - 10 + 97) as char };
    if n < 16 {
        let mut s = String::new();
        crate::text::push_char(&mut s, c);
        assert(s@ =~= hex(n as nat));
        s
    } else {
        let mut s = hex_string(n / 16);
        crate::text::push_char(&mut s, c);
        s
    }
}

#[derive(Debug, Clone, Copy, PartialEq, Eq)]
pub enum LogLevel {
    Debug,
    Info,
    Warn,
    Error,
}

/// One log event: level, message, and named fields.
#[derive(Debug, Clone)]
pub struct LogRecord {
    pub level: LogLevel,
    pub message: &'static str,
    pub fields: Vec<(&'static str, String)>,
}

pub open spec fn fields_view(f: Seq<(&'static str, String)>) -> Seq<(Seq<char>, Seq<char>)> {
    Seq::new(f.len(), |i: int| (f[i].0@, f[i].1@))
}

/// Log context of one recording, identified by the start time.
#[derive(Debug, Clone)]
pub struct LogCtx {
    recording_id: String,
}

impl LogCtx {
    pub closed spec fn id(&self) -> Seq<char> {
        self.recording_id@
    }

    /// A context whose id is the start time in milliseconds since the epoch, in hex (`None`:
    /// the clock is before the epoch, and the id is `unknown`).
    pub fn new(now_ms: Option<u128>) -> (c: LogCtx)
        ensures
            c.id() == match now_ms {
                Some(ms) => hex(ms as nat),
                None => "unknown"@,
            },
    {
        match now_ms {
            Some(ms) => LogCtx { recording_id: hex_string(ms) },
            None => LogCtx { recording_id: String::from_str("unknown") },
        }
    }

    fn record(&self, level: LogLevel, message: &'static str, extra: Vec<(&'static str, String)>) -> (r: LogRecord)
        ensures
            r.level == level,
            r.message == message,
            fields_view(r.fields@) == seq![("recording_id"@, self.id())] + fields_view(extra@),
    {
        let mut fields: Vec<(&'static str, String)> = Vec::new();
        fields.push(("recording_id", self.recording_id.clone()));
        let mut i: usize = 0;
        while i < extra.len()
            invariant
                i <= extra@.len(),
                fields_view(fields@) == seq![("recording_id"@, self.id())] + fields_view(extra@.take(i as int)),
            decreases extra.len() - i,
        {
            let k = extra[i].0;
            let v = extra[i].1.clone();
            assert(v@ == extra@[i as int].1@);
            let ghost old_fields = fields@;
            fields.push((k, v));
            assert(fields_view(fields@) =~= fields_view(old_fields).push((k@, v@)));
            assert(fields_view(extra@.take(i + 1)) =~= fields_view(extra@.take(i as int)).push((k@, v@)));
            assert(fields_view(fields@) =~= seq![("recording_id"@, self.id())] + fields_view(extra@.take(i + 1)));
            i += 1;
        }
        assert(extra@.take(extra@.len() as int) =~= extra@);
        LogRecord { level, message, fields }
    }

    /// `state transition` (info) with the two states' names.
    pub fn state_transition(&self, from: &AppState, to: &AppState) -> (r: LogRecord)
        ensures
            r.level == LogLevel::Info,
            r.message@ == "state transition"@,
            fields_view(r.fields@) == seq![
                ("recording_id"@, self.id()),
                ("from"@, state_label(from@)),
                ("to"@, state_label(to@)),
            ],
    {
        let mut extra: Vec<(&'static str, String)> = Vec::new();
        extra.push(("from", String::from_str(from.label())));
        extra.push(("to", String::from_str(to.label())));
        let r = self.record(LogLevel::Info, "state transition", extra);
        assert(fields_view(r.fields@) =~= seq![
            ("recording_id"@, self.id()),
            ("from"@, state_label(from@)),
            ("to"@, state_label(to@)),
        ]);
        r
    }

    /// `audio captured` (info) with the byte count and duration.
    pub fn audio_captured(&self, bytes: usize, duration_ms: u64) -> (r: LogRecord)
        ensures
            r.level == LogLevel::Info,
            r.message@ == "audio captured"@,
            fields_view(r.fields@) == seq![
                ("recording_id"@, self.id()),
                ("bytes"@, decimal(bytes as nat)),
                ("duration_ms"@, decimal(duration_ms as nat)),
            ],
    {
        let mut extra: Vec<(&'static str, String)> = Vec::new();
        extra.push(("bytes", u64_to_string(bytes as u64)));
        extra.push(("duration_ms", u64_to_string(duration_ms)));
        let r = self.record(LogLevel::Info, "audio captured", extra);
        assert(fields_view(r.fields@) =~= seq![
            ("recording_id"@, self.id()),
            ("bytes"@, decimal(bytes as nat)),
            ("duration_ms"@, decimal(duration_ms as nat)),
        ]);
        r
    }

    /// `sending to STT API` (debug).
    pub fn transcription_request(&self) -> (r: LogRecord)
        ensures
            r.level == LogLevel::Debug,
            r.message@ == "sending to STT API"@,
            fields_view(r.fields@) == seq![("recording_id"@, self.id())],
    {
        let r = self.record(LogLevel::Debug, "sending to STT API", Vec::new());
        assert(fields_view(r.fields@) =~= seq![("recording_id"@, self.id())]);
        r
    }

    /// `transcript received` (info) with the text's byte length and its first 80 characters.
    pub fn transcription_received(&self, text: &str) -> (r: LogRecord)
        ensures
            r.level == LogLevel::Info,
            r.message@ == "transcript received"@,
            fields_view(r.fields@) == seq![
                ("recording_id"@, self.id()),
                ("text_len"@, decimal(vstd::utf8::encode_utf8(text@).len())),
                ("preview"@, text@.take(if text@.len() < 80 { text@.len() as int } else { 80 })),
            ],
    {
        let v = chars_of(text);
        let n: usize = if v.len() < 80 { v.len() } else { 80 };
        let preview = crate::text::slice_chars(&v, 0, n);
        let bytes = text.as_bytes();
        let mut extra: Vec<(&'static str, String)> = Vec::new();
        extra.push(("text_len", u64_to_string(bytes.len() as u64)));
        extra.push(("preview", string_from(&preview)));
        let r = self.record(LogLevel::Info, "transcript received", extra);
        assert(fields_view(r.fields@) =~= seq![
            ("recording_id"@, self.id()),
            ("text_len"@, decimal(vstd::utf8::encode_utf8(text@).len())),
            ("preview"@, text@.take(if text@.len() < 80 { text@.len() as int } else { 80 })),
        ]);
        r
    }

    /// `text injected` (info).
    pub fn text_injected(&self) -> (r: LogRecord)
        ensures
            r.level == LogLevel::Info,
            r.message@ == "text injected"@,
            fields_view(r.fields@) == seq![("recording_id"@, self.id())],
    {
        let r = self.record(LogLevel::Info, "text injected", Vec::new());
        assert(fields_view(r.fields@) =~= seq![("recording_id"@, self.id())]);
        r
    }

    fn detail_record(&self, level: LogLevel, message: &'static str, detail: &str) -> (r: LogRecord)
        ensures
            r.level == level,
            r.message == message,
            fields_view(r.fields@) == seq![("recording_id"@, self.id()), ("detail"@, detail@)],
    {
        let mut extra: Vec<(&'static str, String)> = Vec::new();
        extra.push(("detail", String::from_str(detail)));
        let r = self.record(level, message, extra);
        assert(fields_view(r.fields@) =~= seq![("recording_id"@, self.id()), ("detail"@, detail@)]);
        r
    }

    /// `audio validation failed` (warn) with the detail.
    pub fn validation_error(&self, detail: &str) -> (r: LogRecord)
        ensures
            r.level == LogLevel::Warn,
            r.message@ == "audio validation failed"@,
            fields_view(r.fields@) == seq![("recording_id"@, self.id()), ("detail"@, detail@)],
    {
        self.detail_record(LogLevel::Warn, "audio validation failed", detail)
    }

    /// `STT API error` (error) with the detail.
    pub fn stt_error(&self, detail: &str) -> (r: LogRecord)
        ensures
            r.level == LogLevel::Error,
            r.message@ == "STT API error"@,
            fields_view(r.fields@) == seq![("recording_id"@, self.id()), ("detail"@, detail@)],
    {
        self.detail_record(LogLevel::Error, "STT API error", detail)
    }

    /// `audio capture error` (error) with the detail.
    pub fn audio_error(&self, detail: &str) -> (r: LogRecord)
        ensures
            r.level == LogLevel::Error,
            r.message@ == "audio capture error"@,
            fields_view(r.fields@) == seq![("recording_id"@, self.id()), ("detail"@, detail@)],
    {
        self.detail_record(LogLevel::Error, "audio capture error", detail)
    }

    /// `text injection error` (error) with the detail.
    pub fn injection_error(&self, detail: &str) -> (r: LogRecord)
        ensures
            r.level == LogLevel::Error,
            r.message@ == "text injection error"@,
            fields_view(r.fields@) == seq![("recording_id"@, self.id()), ("detail"@, detail@)],
    {
        self.detail_record(LogLevel::Error, "text injection error", detail)
    }
}

} // verus!
