//! History / Settings UX decisions and labels: pure, no widget types.
use vstd::prelude::*;
use crate::api::RecordingVersion;
use crate::audio_validation::{format_secs, secs_label};
use crate::text::{
    chars_eq, chars_of, collapse_whitespace, concat, decimal, join_words, parse_u64, parse_u64_chars,
    push_char, push_str, slice_chars, str_eq, string_from, trim, trim_ws, u64_to_string, words,
};

verus! {

/// Characters trimmed from the end of an edit before comparing (`\n`, `\r`, space, tab).
pub open spec fn is_edit_pad(c: char) -> bool {
    c == '\n' || c == '\r' || c == ' ' || c == '\t'
}

pub open spec fn strip_edit_end(s: Seq<char>) -> Seq<char>
    decreases s.len(),
{
    if s.len() > 0 && is_edit_pad(s.last()) {
        strip_edit_end(s.drop_last())
    } else {
        s
    }
}

/// `s` without trailing newlines, carriage returns, spaces and tabs.
pub fn normalize_edit_text(s: &str) -> (r: Vec<char>)
    ensures
        r@ == strip_edit_end(s@),
{
    let v = chars_of(s);
    let mut e = v.len();
    assert(v@.take(e as int) =~= v@);
    while e > 0 && (v[e - 1] == '\n' || v[e - 1] == '\r' || v[e - 1] == ' ' || v[e - 1] == '\t')
        invariant
            e <= v@.len(),
            strip_edit_end(v@) == strip_edit_end(v@.take(e as int)),
        decreases e,
    {
        assert(v@.take(e as int).drop_last() =~= v@.take(e - 1));
        e -= 1;
    }
    assert(v@.take(e as int) =~= v@.subrange(0, e as int));
    slice_chars(&v, 0, e)
}

/// Whether saving an edit creates a new version: only when the texts differ once
/// trailing newlines / spaces are ignored.
pub fn should_save_edit(current: &str, edited: &str) -> (b: bool)
    ensures
        b == (strip_edit_end(current@) != strip_edit_end(edited@)),
{
    let a = normalize_edit_text(current);
    let e = normalize_edit_text(edited);
    !chars_eq(&a, &e)
}

/// Page content padding `(top, right, bottom, left)` design tokens (px).
pub fn page_padding_tokens() -> (r: (u16, u16, u16, u16))
    ensures
        r == (16u16, 24u16, 16u16, 24u16),
{
    (16, 24, 16, 24)
}

/// Max description length on a segmented/toggle settings row: 90 characters.
pub fn settings_description_ok(description: &str) -> (b: bool)
    ensures
        b == (description@.len() <= 90),
{
    let v = chars_of(description);
    v.len() <= 90
}

pub fn tray_state_title(state: &str) -> (s: &'static str)
    ensures
        s@ == (if state@ == "recording"@ {
            "Recording"@
        } else if state@ == "recognizing"@ {
            "Recognizing"@
        } else {
            "Idle"@
        }),
{
    if str_eq(state, "recording") {
        "Recording"
    } else if str_eq(state, "recognizing") {
        "Recognizing"
    } else {
        "Idle"
    }
}

pub fn tray_state_caption(state: &str) -> (s: &'static str)
    ensures
        s@ == (if state@ == "recording"@ {
            "Red — microphone is on."@
        } else if state@ == "recognizing"@ {
            "Blue — turning speech into text."@
        } else {
            "Ready to record."@
        }),
{
    if str_eq(state, "recording") {
        "Red — microphone is on."
    } else if str_eq(state, "recognizing") {
        "Blue — turning speech into text."
    } else {
        "Ready to record."
    }
}

/// Label for the base transcript tab.
pub fn base_transcript_label() -> (s: &'static str)
    ensures
        s@ == "Transcript"@,
{
    "Transcript"
}

pub open spec fn version_kind(t: Seq<char>) -> Seq<char> {
    if t == "user_edit"@ {
        "Your edit"@
    } else {
        "AI fix"@
    }
}

/// Label for a stored version, with its 1-based display index after the first:
/// a user edit is "Your edit", every other kind of version is "AI fix".
pub fn version_tab_label(version: &RecordingVersion, display_index: usize) -> (s: String)
    ensures
        s@ == if display_index <= 1 {
            version_kind(version.version_type@)
        } else {
            version_kind(version.version_type@) + " "@ + decimal(display_index as nat)
        },
{
    let t = version.version_type.as_str();
    let kind: String = if str_eq(t, "user_edit") {
        String::from_str("Your edit")
    } else {
        String::from_str("AI fix")
    };
    if display_index <= 1 {
        kind
    } else {
        let mut s = concat(kind, " ");
        let n = crate::text::u64_to_string(display_index as u64);
        push_str(&mut s, n.as_str());
        s
    }
}

/// The version switcher shows once there is at least one stored version.
pub fn show_version_switcher(version_count: usize) -> (b: bool)
    ensures
        b == (version_count >= 1),
{
    version_count >= 1
}

/// Header Save shows only after config has loaded once and something is dirty.
pub fn settings_save_visible(settings_loaded: bool, dirty: bool) -> (b: bool)
    ensures
        b == (settings_loaded && dirty),
{
    settings_loaded && dirty
}

/// Settings are dirty when any field differs from the last saved snapshot; the endpoint
/// is compared trimmed, and a typed key counts only when non-empty.
pub fn settings_is_dirty(
    lang: &str,
    output_mode: &str,
    history_time_mode: &str,
    stt_endpoint: &str,
    api_key_typed: &str,
    saved_lang: &str,
    saved_output: &str,
    saved_time: &str,
    saved_stt_endpoint: &str,
    api_key_was_empty: bool,
    analytics_opt_in: bool,
    saved_analytics_opt_in: bool,
) -> (b: bool)
    ensures
        b == (lang@ != saved_lang@ || output_mode@ != saved_output@ || history_time_mode@
            != saved_time@ || trim(stt_endpoint@) != trim(saved_stt_endpoint@) || analytics_opt_in
            != saved_analytics_opt_in || api_key_typed@.len() != 0),
{
    if !str_eq(lang, saved_lang) {
        return true;
    }
    if !str_eq(output_mode, saved_output) {
        return true;
    }
    if !str_eq(history_time_mode, saved_time) {
        return true;
    }
    let a = trim_ws(&chars_of(stt_endpoint));
    let b = trim_ws(&chars_of(saved_stt_endpoint));
    if !chars_eq(&a, &b) {
        return true;
    }
    if analytics_opt_in != saved_analytics_opt_in {
        return true;
    }
    if !api_key_typed.is_empty() {
        return true;
    }
    false
}

/// Show-more belongs after the list when more pages exist and the list is not empty.
pub fn show_more_after_list(has_more: bool, entry_count: usize) -> (b: bool)
    ensures
        b == (has_more && entry_count > 0),
{
    has_more && entry_count > 0
}

/// Default history page size (initial load and "Show more").
pub const HISTORY_PAGE_SIZE: usize = 20;

/// After a probe fetch that requested `display_limit + 1` rows: how many rows to keep,
/// and whether more exist.
pub fn history_after_probe(returned_count: usize, display_limit: usize) -> (r: (usize, bool))
    ensures
        r == if returned_count > display_limit {
            (display_limit, true)
        } else {
            (returned_count, false)
        },
{
    if returned_count > display_limit {
        (display_limit, true)
    } else {
        (returned_count, false)
    }
}

/// Whether another page may exist after a plain page fetch of `page_size`.
pub fn history_has_more_after_page(returned: usize, page_size: usize) -> (b: bool)
    ensures
        b == (returned >= page_size),
{
    returned >= page_size
}

pub fn stored_api_key_status(has_stored: bool) -> (s: &'static str)
    ensures
        s@ == if has_stored { "Saved on this computer"@ } else { "None saved"@ },
{
    if has_stored {
        "Saved on this computer"
    } else {
        "None saved"
    }
}

/// List-row transcript preview: one clean line plus a human word count.
#[derive(Debug, Clone, PartialEq, Eq)]
pub struct HistoryPreview {
    pub text_line: String,
    pub stats: String,
}

/// Word-count label: exact under 1000, then thousands with one decimal, then whole thousands.
pub open spec fn word_count_label(n: nat) -> Seq<char> {
    if n == 0 {
        seq![]
    } else if n == 1 {
        "1 word"@
    } else if n < 1000 {
        decimal(n) + " words"@
    } else if n < 10000 {
        let tenths = (n + 50) / 100;
        if tenths % 10 == 0 {
            decimal(tenths / 10) + "k words"@
        } else {
            decimal(tenths / 10) + "."@ + decimal(tenths % 10) + "k words"@
        }
    } else {
        decimal((n + 500) / 1000) + "k words"@
    }
}

/// Human-readable word count for list scanning (`44 words`, `1.2k words`, `15k words`).
pub fn format_word_count(words: usize) -> (s: String)
    ensures
        s@ == word_count_label(words as nat),
{
    if words == 0 {
        String::new()
    } else if words == 1 {
        String::from_str("1 word")
    } else if words < 1000 {
        concat(u64_to_string(words as u64), " words")
    } else if words < 10000 {
        let tenths = (words + 50) / 100;
        if tenths % 10 == 0 {
            concat(u64_to_string((tenths / 10) as u64), "k words")
        } else {
            let mut s = concat(u64_to_string((tenths / 10) as u64), ".");
            let d = u64_to_string((tenths % 10) as u64);
            push_str(&mut s, d.as_str());
            push_str(&mut s, "k words");
            s
        }
    } else {
        let k = words / 1000 + if words % 1000 >= 500 { 1 } else { 0 };
        assert(k == (words + 500) / 1000);
        concat(u64_to_string(k as u64), "k words")
    }
}

/// The preview line: collapsed words, cut at the end with `…` when longer than `max_chars`.
pub open spec fn preview_line(collapsed: Seq<char>, max_chars: nat) -> Seq<char> {
    if collapsed.len() <= max_chars {
        collapsed
    } else {
        let take = if max_chars >= 2 { (max_chars - 1) as nat } else { 1nat };
        collapsed.take(take as int).push('…')
    }
}

/// Preview for an optional transcript: `No transcript` when there are no words.
pub open spec fn preview(text: Option<Seq<char>>, max_chars: nat) -> (Seq<char>, Seq<char>) {
    match text {
        Some(t) if words(t).len() > 0 => (
            preview_line(join_words(words(t)), max_chars),
            word_count_label(words(t).len()),
        ),
        _ => ("No transcript"@, seq![]),
    }
}

proof fn lemma_join_nonempty(ws: Seq<Seq<char>>)
    requires
        ws.len() > 0,
        forall|i: int| 0 <= i < ws.len() ==> (#[trigger] ws[i]).len() > 0,
    ensures
        join_words(ws).len() > 0,
    decreases ws.len(),
{
    if ws.len() > 1 {
        lemma_join_nonempty(ws.drop_last());
    }
}

pub fn history_preview(text: Option<&str>, max_chars: usize) -> (p: HistoryPreview)
    ensures
        (p.text_line@, p.stats@) == preview(
            match text {
                Some(t) => Some(t@),
                None => None,
            },
            max_chars as nat,
        ),
{
    let raw = match text {
        Some(t) => t,
        None => {
            return HistoryPreview { text_line: String::from_str("No transcript"), stats: String::new() };
        },
    };
    let v = chars_of(raw);
    let (collapsed, count) = collapse_whitespace(&v);
    if count == 0 {
        return HistoryPreview { text_line: String::from_str("No transcript"), stats: String::new() };
    }
    let stats = format_word_count(count);
    let text_line = if collapsed.len() <= max_chars {
        string_from(&collapsed)
    } else {
        let take: usize = if max_chars >= 2 { max_chars - 1 } else { 1 };
        let head = slice_chars(&collapsed, 0, take);
        assert(head@ =~= collapsed@.take(take as int));
        let mut s = string_from(&head);
        push_char(&mut s, '…');
        s
    };
    HistoryPreview { text_line, stats }
}

// ── Durations and time labels ─────────────────────────────────

/// `"<n>s"` → `n`; anything else → 0.
pub open spec fn duration_secs_of(value: Seq<char>) -> u64 {
    if value.len() > 0 && value.last() == 's' {
        match parse_u64(value.drop_last()) {
            Some(n) => n,
            None => 0,
        }
    } else {
        0
    }
}

pub fn parse_duration_secs(value: &str) -> (n: u64)
    ensures
        n == duration_secs_of(value@),
{
    let v = chars_of(value);
    if v.len() == 0 || v[v.len() - 1] != 's' {
        return 0;
    }
    let body = slice_chars(&v, 0, v.len() - 1);
    assert(body@ =~= v@.drop_last());
    match parse_u64_chars(&body) {
        Some(n) => n,
        None => 0,
    }
}

/// Duration label from an API duration string like `"135s"` → `2m 15s`.
pub fn format_duration(value: &str) -> (s: String)
    ensures
        s@ == secs_label(duration_secs_of(value@) as nat),
{
    format_secs(parse_duration_secs(value))
}

pub struct TimeLabels {
    pub primary: String,
    pub tooltip: String,
}

/// Which recording-time label is primary: absolute mode puts the absolute time first and the
/// relative one in the tooltip; relative mode swaps them.
pub fn recording_time_labels(absolute_label: String, relative_label: String, absolute: bool) -> (r: TimeLabels)
    ensures
        absolute ==> r.primary@ == absolute_label@ && r.tooltip@ == relative_label@,
        !absolute ==> r.primary@ == relative_label@ && r.tooltip@ == absolute_label@,
{
    if absolute {
        TimeLabels { primary: absolute_label, tooltip: relative_label }
    } else {
        TimeLabels { primary: relative_label, tooltip: absolute_label }
    }
}

} // verus!
