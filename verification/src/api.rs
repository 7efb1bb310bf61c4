//! Typed UI backend: recording ids and paths, history rows, WAV framing, config updates.
use vstd::prelude::*;
use crate::audio_validation::{pcm_duration_ms, rounded_secs, secs_label, format_duration_ms};
use crate::paths::{join_path, join_path_str};
use crate::recording::{stem_duration_ms, duration_ms_from_stem};
use crate::text::{
    chars_of, concat, decimal, ends_with, ends_with_chars, join_words, last_piece, parse_u64,
    parse_u64_chars, push_str, replace_char, replace_chars, slice_chars, split, split_chars,
    string_from, trim, trim_ws,
};

verus! {

#[derive(Debug, Clone)]
pub struct RecordingVersion {
    pub version_type: String,
    pub text: String,
    pub timestamp: Option<String>,
}

#[derive(Debug, Clone)]
pub struct HistoryEntry {
    pub file: String,
    pub ts: String,
    pub duration: String,
    pub text: Option<String>,
    pub has_text: bool,
    pub has_stt: bool,
    pub versions: Vec<RecordingVersion>,
}

#[derive(Debug, Clone)]
pub struct TranscribeResult {
    pub ok: bool,
    pub text: String,
    pub has_stt: bool,
}

#[derive(Debug, Clone)]
pub struct AppConfig {
    pub lang: String,
    pub output_mode: String,
    pub history_time_mode: String,
    /// Full STT URL (xAI REST dialect). Default: `https://api.x.ai/v1/stt`.
    pub stt_endpoint: String,
    pub has_key: bool,
    /// `oauth` | `api_key` | `api_key_env` | `none`
    pub auth_mode: String,
    pub has_correction_key: bool,
    pub correction_model: String,
}

#[derive(Debug, Clone, Default)]
pub struct ConfigUpdate {
    pub lang: Option<String>,
    pub output_mode: Option<String>,
    pub history_time_mode: Option<String>,
    pub stt_endpoint: Option<String>,
    pub key: Option<String>,
    pub correction_key: Option<String>,
    pub correction_model: Option<String>,
}

#[derive(Debug, Clone)]
pub struct ModelEntry {
    pub id: String,
    pub name: String,
    pub pricing: String,
    pub rec: bool,
}

#[derive(Debug)]
pub enum ApiError {
    NotFound(String),
    BadRequest(String),
    Internal(String),
}

pub enum ApiErrorModel {
    NotFound(Seq<char>),
    BadRequest(Seq<char>),
    Internal(Seq<char>),
}

impl View for ApiError {
    type V = ApiErrorModel;

    open spec fn view(&self) -> ApiErrorModel {
        match self {
            ApiError::NotFound(m) => ApiErrorModel::NotFound(m@),
            ApiError::BadRequest(m) => ApiErrorModel::BadRequest(m@),
            ApiError::Internal(m) => ApiErrorModel::Internal(m@),
        }
    }
}

pub open spec fn error_message(e: ApiErrorModel) -> Seq<char> {
    match e {
        ApiErrorModel::NotFound(m) => m,
        ApiErrorModel::BadRequest(m) => m,
        ApiErrorModel::Internal(m) => m,
    }
}

impl ApiError {
    pub fn message(&self) -> (m: String)
        ensures
            m@ == error_message(self@),
    {
        match self {
            ApiError::NotFound(m) | ApiError::BadRequest(m) | ApiError::Internal(m) => m.clone(),
        }
    }
}

/// Whether a recording has no stored versions (such entries omit the field when serialized).
pub fn versions_empty(v: &[RecordingVersion]) -> (b: bool)
    ensures
        b == (v@.len() == 0),
{
    v.len() == 0
}

/// The character sequences of a list of strings.
pub open spec fn str_views(s: Seq<&str>) -> Seq<Seq<char>> {
    Seq::new(s.len(), |i: int| s[i]@)
}

/// The character sequences of a list of character vectors.
pub open spec fn vec_views(s: Seq<Vec<char>>) -> Seq<Seq<char>> {
    Seq::new(s.len(), |i: int| s[i]@)
}

/// Human timestamp from the `_`-separated pieces of a recording name: the date, a space,
/// and the time with `-` turned into `:`; fewer than two pieces are joined with spaces.
pub open spec fn human_ts(parts: Seq<Seq<char>>) -> Seq<char> {
    if parts.len() < 2 {
        join_words(parts)
    } else {
        parts[0] + seq![' '] + replace_char(parts[1], '-', ':')
    }
}

fn human_ts_of(parts: &Vec<Vec<char>>) -> (s: String)
    ensures
        s@ == human_ts(vec_views(parts@)),
{
    let ghost ps = vec_views(parts@);
    if parts.len() < 2 {
        let mut out: Vec<char> = Vec::new();
        let mut i: usize = 0;
        while i < parts.len()
            invariant
                i <= parts@.len(),
                ps == vec_views(parts@),
                out@ == join_words(ps.take(i as int)),
            decreases parts.len() - i,
        {
            assert(ps.take(i + 1).drop_last() =~= ps.take(i as int));
            if i > 0 {
                out.push(' ');
            }
            let p = &parts[i];
            let mut k: usize = 0;
            let ghost before = out@;
            while k < p.len()
                invariant
                    k <= p@.len(),
                    out@ == before + p@.take(k as int),
                decreases p.len() - k,
            {
                out.push(p[k]);
                assert(before + p@.take(k + 1) =~= (before + p@.take(k as int)).push(p@[k as int]));
                k += 1;
            }
            assert(p@.take(p@.len() as int) =~= p@);
            assert(out@ =~= join_words(ps.take(i + 1)));
            i += 1;
        }
        assert(ps.take(parts@.len() as int) =~= ps);
        string_from(&out)
    } else {
        let mut s = string_from(&parts[0]);
        crate::text::push_char(&mut s, ' ');
        let t = replace_chars(&parts[1], '-', ':');
        let t = string_from(&t);
        push_str(&mut s, t.as_str());
        s
    }
}

/// `2026-06-01 15:13:17` from the pieces `["2026-06-01", "15-13-17", ...]`.
pub fn ts_to_human(parts: &[&str]) -> (s: String)
    ensures
        s@ == human_ts(str_views(parts@)),
{
    let mut vs: Vec<Vec<char>> = Vec::new();
    let mut i: usize = 0;
    while i < parts.len()
        invariant
            i <= parts@.len(),
            vs@.len() == i,
            vec_views(vs@) == str_views(parts@.take(i as int)),
        decreases parts.len() - i,
    {
        let pi: &str = parts[i];
        assert(pi@ == parts@[i as int]@);
        let c = chars_of(pi);
        let ghost old_vs = vs@;
        vs.push(c);
        assert(vs@[i as int]@ == parts@.take(i + 1)[i as int]@);
        assert forall|k: int| 0 <= k < i + 1 implies #[trigger] vec_views(vs@)[k]
            == str_views(parts@.take(i + 1))[k] by {
            if k < i {
                assert(vec_views(old_vs)[k] == str_views(parts@.take(i as int))[k]);
            }
        }
        assert(vec_views(vs@) =~= str_views(parts@.take(i + 1)));
        i += 1;
    }
    assert(parts@.take(parts@.len() as int) =~= parts@);
    human_ts_of(&vs)
}

/// Human timestamp of a recording id such as `2026-06-01_15-13-17_25414ms`.
pub fn recording_ts(id: &str) -> (s: String)
    ensures
        s@ == human_ts(split(id@, '_')),
{
    let v = chars_of(id);
    let parts = split_chars(&v, '_');
    assert(vec_views(parts@) =~= split(id@, '_'));
    human_ts_of(&parts)
}

pub open spec fn id_char_ok(c: char) -> bool {
    ('a' <= c && c <= 'z') || ('A' <= c && c <= 'Z') || ('0' <= c && c <= '9') || c == '_' || c
        == '-' || c == '.'
}

/// What id checking decides: the trimmed id, or why it is refused. A valid id is one path
/// segment made of ASCII letters, digits, `_`, `-` and `.`, with no `..`, and not `.` itself.
pub open spec fn checked_id(id: Seq<char>) -> Result<Seq<char>, ApiErrorModel> {
    let t = trim(id);
    if t.len() == 0 {
        Err(ApiErrorModel::BadRequest("empty recording id"@))
    } else if t.contains('/') || t.contains('\\') || t.contains('\0') || crate::text::contains(t, ".."@)
        || t == "."@ || !(forall|i: int| 0 <= i < t.len() ==> id_char_ok(#[trigger] t[i])) {
        Err(ApiErrorModel::BadRequest("invalid recording id"@))
    } else {
        Ok(t)
    }
}

fn invalid_id() -> (e: ApiError)
    ensures
        e@ == ApiErrorModel::BadRequest("invalid recording id"@),
{
    ApiError::BadRequest(String::from_str("invalid recording id"))
}

/// Refuses path escapes and odd ids before a recording name is joined under the
/// recordings directory; returns the trimmed id.
pub fn validate_recording_id(id: &str) -> (r: Result<String, ApiError>)
    ensures
        match r {
            Ok(s) => checked_id(id@) == Ok::<Seq<char>, ApiErrorModel>(s@),
            Err(e) => checked_id(id@) == Err::<Seq<char>, ApiErrorModel>(e@),
        },
{
    let v = chars_of(id);
    let t = trim_ws(&v);
    if t.len() == 0 {
        return Err(ApiError::BadRequest(String::from_str("empty recording id")));
    }
    let dots = chars_of("..");
    let has_dots = crate::text::contains_chars(&t, &dots);
    let mut i: usize = 0;
    let mut bad_char = false;
    let mut has_sep = false;
    while i < t.len()
        invariant
            i <= t@.len(),
            has_sep == (exists|j: int| 0 <= j < i && (t@[j] == '/' || t@[j] == '\\' || t@[j] == '\0')),
            bad_char == (exists|j: int| 0 <= j < i && !id_char_ok(t@[j])),
        decreases t.len() - i,
    {
        let c = t[i];
        if c == '/' || c == '\\' || c == '\0' {
            has_sep = true;
        }
        if !(('a' <= c && c <= 'z') || ('A' <= c && c <= 'Z') || ('0' <= c && c <= '9') || c == '_'
            || c == '-' || c == '.') {
            bad_char = true;
        }
        i += 1;
    }
    let is_dot = t.len() == 1 && t[0] == '.';
    assert(is_dot == (t@ == "."@)) by {
        reveal_strlit(".");
        if t@.len() == 1 && t@[0] == '.' {
            assert(t@ =~= "."@);
        }
    }
    assert(has_sep == (t@.contains('/') || t@.contains('\\') || t@.contains('\0'))) by {
        if t@.contains('/') {
            let j = choose|j: int| 0 <= j < t@.len() && t@[j] == '/';
        }
        if t@.contains('\\') {
            let j = choose|j: int| 0 <= j < t@.len() && t@[j] == '\\';
        }
        if t@.contains('\0') {
            let j = choose|j: int| 0 <= j < t@.len() && t@[j] == '\0';
        }
    }
    if has_sep || has_dots || is_dot || bad_char {
        return Err(invalid_id());
    }
    Ok(string_from(&t))
}

/// `<dir>/<id>.<ext>` for a valid recording id.
pub fn recording_path(dir: &str, id: &str, ext: &str) -> (r: Result<String, ApiError>)
    ensures
        match r {
            Ok(p) => checked_id(id@) is Ok && p@ == join_path(dir@, checked_id(id@)->Ok_0 + seq!['.'] + ext@),
            Err(e) => checked_id(id@) == Err::<Seq<char>, ApiErrorModel>(e@),
        },
{
    let id = validate_recording_id(id)?;
    let mut name = id;
    crate::text::push_char(&mut name, '.');
    push_str(&mut name, ext);
    Ok(join_path_str(dir, name.as_str()))
}

/// Recording duration: from the PCM size when it gives more than 0 ms, else from the name.
pub open spec fn recording_duration_ms(id: Seq<char>, raw_len: Option<u64>) -> nat {
    match raw_len {
        Some(l) if pcm_duration_ms(l as nat) > 0 => pcm_duration_ms(l as nat),
        _ => match stem_duration_ms(id) {
            Some(d) => d as nat,
            None => 0,
        },
    }
}

pub fn duration_ms_for_recording(id: &str, raw_len: Option<u64>) -> (ms: u64)
    ensures
        ms == recording_duration_ms(id@, raw_len),
{
    if let Some(l) = raw_len {
        let from_pcm = l / 32 + if l % 32 >= 16 { 1 } else { 0 };
        if from_pcm > 0 {
            return from_pcm;
        }
    }
    match duration_ms_from_stem(id) {
        Some(d) => d,
        None => 0,
    }
}

pub fn duration_label_for_recording(id: &str, raw_len: Option<u64>) -> (s: String)
    ensures
        s@ == secs_label(rounded_secs(recording_duration_ms(id@, raw_len))),
{
    format_duration_ms(duration_ms_for_recording(id, raw_len))
}

/// One history row from what is on disk for a recording: its name, the size of its PCM,
/// its transcript, its stored versions and whether word timings exist.
pub fn history_entry(
    file: &str,
    raw_len: Option<u64>,
    text: Option<String>,
    versions: Vec<RecordingVersion>,
    has_stt: bool,
) -> (e: HistoryEntry)
    ensures
        e.file@ == file@,
        e.ts@ == human_ts(split(file@, '_')),
        e.duration@ == secs_label(rounded_secs(recording_duration_ms(file@, raw_len))),
        e.text == text,
        e.has_text == (text matches Some(t) && trim(t@).len() > 0),
        e.has_stt == has_stt,
        e.versions@ == versions@,
{
    let has_text = match &text {
        Some(t) => trim_ws(&chars_of(t.as_str())).len() > 0,
        None => false,
    };
    HistoryEntry {
        file: String::from_str(file),
        ts: recording_ts(file),
        duration: duration_label_for_recording(file, raw_len),
        text,
        has_text,
        has_stt,
        versions,
    }
}

// ── WAV framing ───────────────────────────────────────────────

/// Little-endian bytes of a 32-bit value.
pub open spec fn le32(x: nat) -> Seq<u8> {
    seq![(x % 256) as u8, ((x / 256) % 256) as u8, ((x / 65536) % 256) as u8, ((x / 16777216) % 256) as u8]
}

/// Little-endian bytes of a 16-bit value.
pub open spec fn le16(x: nat) -> Seq<u8> {
    seq![(x % 256) as u8, ((x / 256) % 256) as u8]
}

pub open spec fn ascii4(a: char, b: char, c: char, d: char) -> Seq<u8> {
    seq![a as u8, b as u8, c as u8, d as u8]
}

/// The 44-byte RIFF/WAVE header for `len` bytes of 16 kHz mono 16-bit PCM. The two size
/// fields are 32 bits: past 4 GiB the length is taken modulo 2^32 and the file size wraps.
pub open spec fn wav_header(len: nat) -> Seq<u8> {
    let data_len = len % 0x1_0000_0000;
    ascii4('R', 'I', 'F', 'F') + le32((36 + data_len) % 0x1_0000_0000) + ascii4('W', 'A', 'V', 'E')
        + ascii4('f', 'm', 't', ' ') + le32(16) + le16(1) + le16(1) + le32(16000) + le32(32000) + le16(2)
        + le16(16) + ascii4('d', 'a', 't', 'a') + le32(data_len)
}

fn push_le32(v: &mut Vec<u8>, x: u32)
    ensures
        final(v)@ == old(v)@ + le32(x as nat),
{
    v.push((x % 256) as u8);
    v.push(((x / 256) % 256) as u8);
    v.push(((x / 65536) % 256) as u8);
    v.push(((x / 16777216) % 256) as u8);
}

fn push_le16(v: &mut Vec<u8>, x: u16)
    ensures
        final(v)@ == old(v)@ + le16(x as nat),
{
    v.push((x % 256) as u8);
    v.push(((x / 256) % 256) as u8);
}

fn push4(v: &mut Vec<u8>, a: u8, b: u8, c: u8, d: u8)
    ensures
        final(v)@ == old(v)@ + seq![a, b, c, d],
{
    v.push(a);
    v.push(b);
    v.push(c);
    v.push(d);
}

/// WAV file for raw 16 kHz mono PCM16 (for playback).
pub fn encode_pcm_to_wav(pcm: &[u8]) -> (wav: Vec<u8>)
    ensures
        wav@ == wav_header(pcm@.len()) + pcm@,
{
    let data_len: u32 = (pcm.len() as u64 % 0x1_0000_0000) as u32;
    let riff_len: u32 = ((data_len as u64 + 36) % 0x1_0000_0000) as u32;
    let mut wav: Vec<u8> = Vec::new();
    push4(&mut wav, 82, 73, 70, 70);
    push_le32(&mut wav, riff_len);
    push4(&mut wav, 87, 65, 86, 69);
    push4(&mut wav, 102, 109, 116, 32);
    push_le32(&mut wav, 16);
    push_le16(&mut wav, 1);
    push_le16(&mut wav, 1);
    push_le32(&mut wav, 16000);
    push_le32(&mut wav, 32000);
    push_le16(&mut wav, 2);
    push_le16(&mut wav, 16);
    push4(&mut wav, 100, 97, 116, 97);
    push_le32(&mut wav, data_len);
    assert(wav@ =~= wav_header(pcm@.len()));
    let ghost head = wav@;
    let mut i: usize = 0;
    while i < pcm.len()
        invariant
            i <= pcm@.len(),
            wav@ == head + pcm@.take(i as int),
        decreases pcm.len() - i,
    {
        wav.push(pcm[i]);
        assert(head + pcm@.take(i + 1) =~= (head + pcm@.take(i as int)).push(pcm@[i as int]));
        i += 1;
    }
    assert(pcm@.take(pcm@.len() as int) =~= pcm@);
    wav
}

} // verus!

verus! {

/// One value that saving settings writes.
#[derive(Debug, Clone)]
pub enum ConfigWrite {
    /// Speech language (trimmed).
    Language(String),
    /// `wtype` or `clipboard`.
    OutputMode(String),
    /// `relative` or `absolute`.
    HistoryTimeMode(String),
    /// Remove the saved STT endpoint (back to the default).
    ResetSttEndpoint,
    /// A custom STT endpoint URL (trimmed).
    SttEndpoint(String),
    /// Speech API key (trimmed), stored encrypted.
    ApiKey(String),
    /// Correction key (trimmed), stored encrypted.
    CorrectionKey(String),
    /// Correction model (trimmed).
    CorrectionModel(String),
}

/// One step of saving settings, in order: a write, or the refusal that ends the save.
#[derive(Debug)]
pub enum ConfigStep {
    Write(ConfigWrite),
    Reject(ApiError),
}

pub enum WriteModel {
    Language(Seq<char>),
    OutputMode(Seq<char>),
    HistoryTimeMode(Seq<char>),
    ResetSttEndpoint,
    SttEndpoint(Seq<char>),
    ApiKey(Seq<char>),
    CorrectionKey(Seq<char>),
    CorrectionModel(Seq<char>),
}

pub enum StepModel {
    Write(WriteModel),
    Reject(ApiErrorModel),
}

impl View for ConfigWrite {
    type V = WriteModel;

    open spec fn view(&self) -> WriteModel {
        match self {
            ConfigWrite::Language(s) => WriteModel::Language(s@),
            ConfigWrite::OutputMode(s) => WriteModel::OutputMode(s@),
            ConfigWrite::HistoryTimeMode(s) => WriteModel::HistoryTimeMode(s@),
            ConfigWrite::ResetSttEndpoint => WriteModel::ResetSttEndpoint,
            ConfigWrite::SttEndpoint(s) => WriteModel::SttEndpoint(s@),
            ConfigWrite::ApiKey(s) => WriteModel::ApiKey(s@),
            ConfigWrite::CorrectionKey(s) => WriteModel::CorrectionKey(s@),
            ConfigWrite::CorrectionModel(s) => WriteModel::CorrectionModel(s@),
        }
    }
}

impl View for ConfigStep {
    type V = StepModel;

    open spec fn view(&self) -> StepModel {
        match self {
            ConfigStep::Write(w) => StepModel::Write(w@),
            ConfigStep::Reject(e) => StepModel::Reject(e@),
        }
    }
}

/// The kind of error a failed write is reported as: mode and endpoint writes as bad requests,
/// the others as internal errors.
pub open spec fn write_failure(w: WriteModel, detail: Seq<char>) -> ApiErrorModel {
    match w {
        WriteModel::OutputMode(_) | WriteModel::HistoryTimeMode(_) | WriteModel::ResetSttEndpoint
        | WriteModel::SttEndpoint(_) => ApiErrorModel::BadRequest(detail),
        _ => ApiErrorModel::Internal(detail),
    }
}

impl ConfigWrite {
    /// The error to report when performing this write fails with `detail`.
    pub fn failure(&self, detail: String) -> (e: ApiError)
        ensures
            e@ == write_failure(self@, detail@),
    {
        match self {
            ConfigWrite::OutputMode(_) | ConfigWrite::HistoryTimeMode(_) | ConfigWrite::ResetSttEndpoint
            | ConfigWrite::SttEndpoint(_) => ApiError::BadRequest(detail),
            _ => ApiError::Internal(detail),
        }
    }
}

pub open spec fn opt_str(v: Option<String>) -> Option<Seq<char>> {
    match v {
        Some(s) => Some(s@),
        None => None,
    }
}

pub open spec fn lang_outcome(v: Option<Seq<char>>) -> Option<Result<WriteModel, ApiErrorModel>> {
    match v {
        Some(l) => Some(Ok(WriteModel::Language(trim(l)))),
        None => None,
    }
}

pub open spec fn output_mode_outcome(v: Option<Seq<char>>) -> Option<Result<WriteModel, ApiErrorModel>> {
    match v {
        Some(m) if trim(m).len() > 0 => Some(match crate::keyring::output_mode_setting(m) {
            Ok(x) => Ok(WriteModel::OutputMode(x)),
            Err(msg) => Err(ApiErrorModel::BadRequest(msg)),
        }),
        _ => None,
    }
}

pub open spec fn time_mode_outcome(v: Option<Seq<char>>) -> Option<Result<WriteModel, ApiErrorModel>> {
    match v {
        Some(m) => Some(match crate::keyring::history_time_mode_setting(m) {
            Ok(x) => Ok(WriteModel::HistoryTimeMode(x)),
            Err(msg) => Err(ApiErrorModel::BadRequest(msg)),
        }),
        None => None,
    }
}

pub open spec fn endpoint_outcome(v: Option<Seq<char>>) -> Option<Result<WriteModel, ApiErrorModel>> {
    match v {
        Some(u) => Some(match crate::keyring::stt_endpoint_setting(u) {
            Ok(None) => Ok(WriteModel::ResetSttEndpoint),
            Ok(Some(x)) => Ok(WriteModel::SttEndpoint(x)),
            Err(msg) => Err(ApiErrorModel::BadRequest(msg)),
        }),
        None => None,
    }
}

pub open spec fn key_outcome(v: Option<Seq<char>>) -> Option<Result<WriteModel, ApiErrorModel>> {
    match v {
        Some(k) if k.len() > 0 => Some(Ok(WriteModel::ApiKey(trim(k)))),
        _ => None,
    }
}

pub open spec fn correction_key_outcome(v: Option<Seq<char>>) -> Option<Result<WriteModel, ApiErrorModel>> {
    match v {
        Some(k) if k.len() > 0 => Some(Ok(WriteModel::CorrectionKey(trim(k)))),
        _ => None,
    }
}

pub open spec fn correction_model_outcome(v: Option<Seq<char>>) -> Option<Result<WriteModel, ApiErrorModel>> {
    match v {
        Some(m) => Some(Ok(WriteModel::CorrectionModel(trim(m)))),
        None => None,
    }
}

/// Steps from field outcomes: writes in field order, up to and including the first refusal.
pub open spec fn assemble(outs: Seq<Option<Result<WriteModel, ApiErrorModel>>>) -> Seq<StepModel>
    decreases outs.len(),
{
    if outs.len() == 0 {
        seq![]
    } else {
        match outs[0] {
            None => assemble(outs.drop_first()),
            Some(Ok(w)) => seq![StepModel::Write(w)] + assemble(outs.drop_first()),
            Some(Err(e)) => seq![StepModel::Reject(e)],
        }
    }
}

/// The steps of saving an update: language, output mode, history time mode, STT endpoint,
/// API key, correction key, correction model.
pub open spec fn save_plan(u: ConfigUpdate) -> Seq<StepModel> {
    assemble(
        seq![
            lang_outcome(opt_str(u.lang)),
            output_mode_outcome(opt_str(u.output_mode)),
            time_mode_outcome(opt_str(u.history_time_mode)),
            endpoint_outcome(opt_str(u.stt_endpoint)),
            key_outcome(opt_str(u.key)),
            correction_key_outcome(opt_str(u.correction_key)),
            correction_model_outcome(opt_str(u.correction_model)),
        ],
    )
}

pub open spec fn steps_model(v: Seq<ConfigStep>) -> Seq<StepModel> {
    Seq::new(v.len(), |i: int| v[i]@)
}

pub open spec fn outcome_model(o: Option<Result<ConfigWrite, ApiError>>) -> Option<Result<WriteModel, ApiErrorModel>> {
    match o {
        None => None,
        Some(Ok(w)) => Some(Ok(w@)),
        Some(Err(e)) => Some(Err(e@)),
    }
}

fn lang_step(v: &Option<String>) -> (o: Option<Result<ConfigWrite, ApiError>>)
    ensures
        outcome_model(o) == lang_outcome(opt_str(*v)),
{
    match v {
        Some(l) => Some(Ok(ConfigWrite::Language(crate::keyring::trimmed(l.as_str())))),
        None => None,
    }
}

fn output_mode_step(v: &Option<String>) -> (o: Option<Result<ConfigWrite, ApiError>>)
    ensures
        outcome_model(o) == output_mode_outcome(opt_str(*v)),
{
    match v {
        Some(m) => {
            if crate::keyring::trimmed(m.as_str()).as_str().is_empty() {
                return None;
            }
            match crate::keyring::parse_output_mode(m.as_str()) {
                Ok(x) => Some(Ok(ConfigWrite::OutputMode(x))),
                Err(msg) => Some(Err(ApiError::BadRequest(msg))),
            }
        },
        None => None,
    }
}

fn time_mode_step(v: &Option<String>) -> (o: Option<Result<ConfigWrite, ApiError>>)
    ensures
        outcome_model(o) == time_mode_outcome(opt_str(*v)),
{
    match v {
        Some(m) => match crate::keyring::parse_history_time_mode(m.as_str()) {
            Ok(x) => Some(Ok(ConfigWrite::HistoryTimeMode(x))),
            Err(msg) => Some(Err(ApiError::BadRequest(msg))),
        },
        None => None,
    }
}

fn endpoint_step(v: &Option<String>) -> (o: Option<Result<ConfigWrite, ApiError>>)
    ensures
        outcome_model(o) == endpoint_outcome(opt_str(*v)),
{
    match v {
        Some(u) => match crate::keyring::parse_stt_endpoint(u.as_str()) {
            Ok(None) => Some(Ok(ConfigWrite::ResetSttEndpoint)),
            Ok(Some(x)) => Some(Ok(ConfigWrite::SttEndpoint(x))),
            Err(msg) => Some(Err(ApiError::BadRequest(msg))),
        },
        None => None,
    }
}

fn key_step(v: &Option<String>, correction: bool) -> (o: Option<Result<ConfigWrite, ApiError>>)
    ensures
        outcome_model(o) == if correction {
            correction_key_outcome(opt_str(*v))
        } else {
            key_outcome(opt_str(*v))
        },
{
    match v {
        Some(k) => {
            if k.as_str().is_empty() {
                return None;
            }
            let t = crate::keyring::trimmed(k.as_str());
            if correction {
                Some(Ok(ConfigWrite::CorrectionKey(t)))
            } else {
                Some(Ok(ConfigWrite::ApiKey(t)))
            }
        },
        None => None,
    }
}

fn correction_model_step(v: &Option<String>) -> (o: Option<Result<ConfigWrite, ApiError>>)
    ensures
        outcome_model(o) == correction_model_outcome(opt_str(*v)),
{
    match v {
        Some(m) => Some(Ok(ConfigWrite::CorrectionModel(crate::keyring::trimmed(m.as_str())))),
        None => None,
    }
}

/// Decides, in order, what saving `update` writes: the language, then the output mode (a
/// blank one is skipped), history time mode, STT endpoint, API key and correction key (empty
/// ones skipped) and correction model. An invalid mode or endpoint ends the list with the
/// refusal, after the writes of the fields before it. The caller performs the writes in
/// order and stops at the first refusal or failed write.
pub fn save_config(update: &ConfigUpdate) -> (steps: Vec<ConfigStep>)
    ensures
        steps_model(steps@) == save_plan(*update),
{
    let mut rest: Vec<Option<Result<ConfigWrite, ApiError>>> = Vec::new();
    rest.push(correction_model_step(&update.correction_model));
    rest.push(key_step(&update.correction_key, true));
    rest.push(key_step(&update.key, false));
    rest.push(endpoint_step(&update.stt_endpoint));
    rest.push(time_mode_step(&update.history_time_mode));
    rest.push(output_mode_step(&update.output_mode));
    rest.push(lang_step(&update.lang));
    let ghost om = Seq::new(7, |i: int| outcome_model(rest@[6 - i]));
    assert(om =~= seq![
        lang_outcome(opt_str(update.lang)),
        output_mode_outcome(opt_str(update.output_mode)),
        time_mode_outcome(opt_str(update.history_time_mode)),
        endpoint_outcome(opt_str(update.stt_endpoint)),
        key_outcome(opt_str(update.key)),
        correction_key_outcome(opt_str(update.correction_key)),
        correction_model_outcome(opt_str(update.correction_model)),
    ]);
    let mut steps: Vec<ConfigStep> = Vec::new();
    let mut i: usize = 0;
    assert(om.skip(0) =~= om);
    while i < 7
        invariant
            i <= 7,
            rest@.len() == 7 - i,
            forall|k: int| 0 <= k < 7 - i ==> outcome_model(#[trigger] rest@[k]) == om[6 - k],
            om.len() == 7,
            assemble(om) == save_plan(*update),
            steps_model(steps@) + assemble(om.skip(i as int)) == assemble(om),
        decreases 7 - i,
    {
        let o = rest.pop().unwrap();
        assert(outcome_model(o) == om[i as int]);
        assert(om.skip(i as int).drop_first() =~= om.skip(i + 1));
        let ghost before = steps_model(steps@);
        match o {
            None => {},
            Some(Ok(w)) => {
                steps.push(ConfigStep::Write(w));
                assert(steps_model(steps@) =~= before + seq![steps@.last()@]);
            },
            Some(Err(e)) => {
                steps.push(ConfigStep::Reject(e));
                assert(steps_model(steps@) =~= before + seq![steps@.last()@]);
                assert(steps_model(steps@) =~= assemble(om));
                return steps;
            },
        }
        i += 1;
    }
    assert(om.skip(7) =~= Seq::<Option<Result<WriteModel, ApiErrorModel>>>::empty());
    steps
}

} // verus!

verus! {

/// Everything the settings page is computed from, as the caller read it: environment
/// values and file contents (`None` when unset or missing).
#[derive(Debug, Clone)]
pub struct SettingsSources {
    pub lang_env: Option<String>,
    pub lang_file: Option<String>,
    pub output_mode_file: Option<String>,
    pub history_time_mode_file: Option<String>,
    pub stt_endpoint_env: Option<String>,
    pub stt_endpoint_file: Option<String>,
    pub api_key_env: Option<String>,
    pub xai_key_env: Option<String>,
    pub logged_in: bool,
    pub stored_key: bool,
    pub correction_key_env: Option<String>,
    pub correction_key_stored: Option<String>,
    pub correction_model_file: Option<String>,
}

fn as_opt_str(v: &Option<String>) -> (r: Option<&str>)
    ensures
        crate::keyring::opt_view(r) == opt_str(*v),
{
    match v {
        Some(s) => Some(s.as_str()),
        None => None,
    }
}

/// The settings shown in the UI. Local only: credentials are judged by presence, tokens are
/// never refreshed for this.
pub fn get_config(src: &SettingsSources) -> (c: AppConfig)
    ensures
        c.lang@ == crate::keyring::language(opt_str(src.lang_env), opt_str(src.lang_file)),
        c.output_mode@ == crate::keyring::stored_output_mode(opt_str(src.output_mode_file)).0,
        c.history_time_mode@ == crate::keyring::stored_history_time_mode(opt_str(src.history_time_mode_file)),
        c.stt_endpoint@ == crate::keyring::stt_endpoint(opt_str(src.stt_endpoint_env), opt_str(src.stt_endpoint_file)),
        c.has_key == (crate::keyring::set_env(opt_str(src.api_key_env)) || crate::keyring::set_env(opt_str(src.xai_key_env))
            || src.logged_in || src.stored_key),
        c.auth_mode@ == crate::xai_oauth::auth_label(opt_str(src.api_key_env), opt_str(src.xai_key_env), src.logged_in, src.stored_key),
        c.has_correction_key == (crate::keyring::correction_key(opt_str(src.correction_key_env), opt_str(src.correction_key_stored)).len() > 0),
        c.correction_model@ == crate::keyring::correction_model(opt_str(src.correction_model_file)),
{
    let api_env = as_opt_str(&src.api_key_env);
    let xai_env = as_opt_str(&src.xai_key_env);
    let (output_mode, _) = crate::keyring::output_mode_from_file(as_opt_str(&src.output_mode_file));
    let stored: Option<String> = match &src.correction_key_stored {
        Some(s) => Some(s.clone()),
        None => None,
    };
    assert(opt_str(stored) == opt_str(src.correction_key_stored));
    let correction = crate::keyring::correction_key_choice(as_opt_str(&src.correction_key_env), stored);
    AppConfig {
        lang: crate::keyring::language_choice(as_opt_str(&src.lang_env), as_opt_str(&src.lang_file)),
        output_mode,
        history_time_mode: String::from_str(crate::keyring::history_time_mode_from_file(as_opt_str(&src.history_time_mode_file))),
        stt_endpoint: crate::keyring::stt_endpoint_choice(as_opt_str(&src.stt_endpoint_env), as_opt_str(&src.stt_endpoint_file)),
        has_key: crate::keyring::has_any_speech_credentials(api_env, xai_env, src.logged_in, src.stored_key),
        auth_mode: String::from_str(crate::xai_oauth::auth_status_label(api_env, xai_env, src.logged_in, src.stored_key)),
        has_correction_key: !correction.as_str().is_empty(),
        correction_model: crate::keyring::correction_model_choice(as_opt_str(&src.correction_model_file)),
    }
}

/// Whether a pay-per-token API key file is stored (see [`crate::keyring::has_stored_api_key`]).
pub fn has_stored_api_key(is_file: bool, len: Option<u64>) -> (b: bool)
    ensures
        b == (is_file && (len matches Some(n) && n > 0)),
{
    crate::keyring::has_stored_api_key(is_file, len)
}

/// Removing the stored API key: an error from the keyring becomes an internal error.
pub fn clear_stored_api_key(result: Result<(), String>) -> (r: Result<(), ApiError>)
    ensures
        result is Ok ==> r is Ok,
        result matches Err(e) ==> (r matches Err(x) && x@ == ApiErrorModel::Internal(e@)),
{
    match result {
        Ok(()) => Ok(()),
        Err(e) => Err(ApiError::Internal(e)),
    }
}

} // verus!

verus! {

/// `xs` joined with `sep` between neighbours.
pub open spec fn join_with(xs: Seq<Seq<char>>, sep: Seq<char>) -> Seq<char>
    decreases xs.len(),
{
    if xs.len() == 0 {
        seq![]
    } else if xs.len() == 1 {
        xs[0]
    } else {
        join_with(xs.drop_last(), sep) + sep + xs.last()
    }
}

/// A marked-word list in the correction prompt: comma-separated, `none` when empty.
pub open spec fn marked_list(xs: Seq<Seq<char>>) -> Seq<char> {
    if xs.len() == 0 { "none"@ } else { join_with(xs, ", "@) }
}

/// The marked-word list keeps every word, in order, each after the one before and a comma:
/// `none` for no words, the word itself for one, and one more word adds `, ` and that word.
pub proof fn lemma_marked_list_keeps_every_word(xs: Seq<Seq<char>>, w: Seq<char>)
    ensures
        marked_list(Seq::<Seq<char>>::empty()) == "none"@,
        marked_list(seq![w]) == w,
        xs.len() >= 1 ==> marked_list(xs.push(w)) == marked_list(xs) + ", "@ + w,
        xs.len() >= 1 ==> crate::text::contains(marked_list(xs.push(w)), w),
{
    if xs.len() >= 1 {
        assert(xs.push(w).drop_last() =~= xs);
        let l = marked_list(xs.push(w));
        let i = l.len() - w.len();
        assert(l.subrange(i, i + w.len()) =~= w);
        assert(crate::text::occurs_at(l, w, i));
    }
}

/// Every marked word and every kept word appears in the correction prompt, in the RED and
/// GREEN lines.
pub proof fn lemma_prompt_lists_marked_words(text: Seq<char>, marked: Seq<Seq<char>>, kept: Seq<Seq<char>>)
    ensures
        crate::text::contains(correction_prompt_text(text, marked, kept), "- RED (must change): "@ + marked_list(marked) + "\n"@),
        crate::text::contains(correction_prompt_text(text, marked, kept), "- GREEN (must keep): "@ + marked_list(kept) + "\n"@),
{
    let p = correction_prompt_text(text, marked, kept);
    let head = "You are correcting a speech-to-text transcription from Cosmic Scribe.\nThe user spoke into a microphone, and an STT model transcribed it.\nThe user has marked some words/phrases:\n"@;
    let red = "- RED (must change): "@ + marked_list(marked) + "\n"@;
    let green = "- GREEN (must keep): "@ + marked_list(kept) + "\n"@;
    let tail = "- UNMARKED (can change if needed): everything else\n\nFull transcript:\n"@ + text
        + "\n\nRules:\n1. Words marked RED are likely wrong — replace with phonetically similar\nwords that fit the context better.\n2. Words marked GREEN must NOT change.\n3. Unmarked words may be adjusted slightly for grammar/flow.\n4. Maintain the overall meaning and style.\n\nReturn ONLY the corrected full transcript. No explanation."@;
    reveal_strlit("You are correcting a speech-to-text transcription from Cosmic Scribe.\nThe user spoke into a microphone, and an STT model transcribed it.\nThe user has marked some words/phrases:\n- RED (must change): ");
    reveal_strlit("You are correcting a speech-to-text transcription from Cosmic Scribe.\nThe user spoke into a microphone, and an STT model transcribed it.\nThe user has marked some words/phrases:\n");
    reveal_strlit("- RED (must change): ");
    reveal_strlit("\n- GREEN (must keep): ");
    reveal_strlit("- GREEN (must keep): ");
    reveal_strlit("\n");
    reveal_strlit("\n- UNMARKED (can change if needed): everything else\n\nFull transcript:\n");
    reveal_strlit("- UNMARKED (can change if needed): everything else\n\nFull transcript:\n");
    assert(p =~= head + red + green + tail);
    assert(p.subrange(head.len() as int, (head.len() + red.len()) as int) =~= red);
    assert(crate::text::occurs_at(p, red, head.len() as int));
    let j: int = (head.len() + red.len()) as int;
    assert(p.subrange(j, j + green.len() as int) =~= green);
    assert(crate::text::occurs_at(p, green, j));
}

fn marked_list_string(xs: &[String]) -> (s: String)
    ensures
        s@ == marked_list(crate::lifecycle::string_views(xs@)),
{
    let ghost v = crate::lifecycle::string_views(xs@);
    if xs.len() == 0 {
        return String::from_str("none");
    }
    let mut s = xs[0].clone();
    let mut i: usize = 1;
    assert(v.take(1) =~= seq![v[0]]);
    while i < xs.len()
        invariant
            v == crate::lifecycle::string_views(xs@),
            1 <= i <= xs@.len(),
            s@ == join_with(v.take(i as int), ", "@),
        decreases xs.len() - i,
    {
        push_str(&mut s, ", ");
        push_str(&mut s, xs[i].as_str());
        assert(v.take(i + 1).drop_last() =~= v.take(i as int));
        i += 1;
    }
    assert(v.take(xs@.len() as int) =~= v);
    s
}

/// The instructions sent to the correction model, with the marked words and the transcript.
pub open spec fn correction_prompt_text(text: Seq<char>, marked: Seq<Seq<char>>, kept: Seq<Seq<char>>) -> Seq<char> {
    "You are correcting a speech-to-text transcription from Cosmic Scribe.\nThe user spoke into a microphone, and an STT model transcribed it.\nThe user has marked some words/phrases:\n- RED (must change): "@
        + marked_list(marked) + "\n- GREEN (must keep): "@ + marked_list(kept)
        + "\n- UNMARKED (can change if needed): everything else\n\nFull transcript:\n"@ + text
        + "\n\nRules:\n1. Words marked RED are likely wrong — replace with phonetically similar\nwords that fit the context better.\n2. Words marked GREEN must NOT change.\n3. Unmarked words may be adjusted slightly for grammar/flow.\n4. Maintain the overall meaning and style.\n\nReturn ONLY the corrected full transcript. No explanation."@
}

pub fn correction_prompt(text: &str, marked: &[String], kept: &[String]) -> (s: String)
    ensures
        s@ == correction_prompt_text(text@, crate::lifecycle::string_views(marked@), crate::lifecycle::string_views(kept@)),
{
    let mut s = String::from_str("You are correcting a speech-to-text transcription from Cosmic Scribe.\nThe user spoke into a microphone, and an STT model transcribed it.\nThe user has marked some words/phrases:\n- RED (must change): ");
    let m = marked_list_string(marked);
    push_str(&mut s, m.as_str());
    push_str(&mut s, "\n- GREEN (must keep): ");
    let k = marked_list_string(kept);
    push_str(&mut s, k.as_str());
    push_str(&mut s, "\n- UNMARKED (can change if needed): everything else\n\nFull transcript:\n");
    push_str(&mut s, text);
    push_str(&mut s, "\n\nRules:\n1. Words marked RED are likely wrong — replace with phonetically similar\nwords that fit the context better.\n2. Words marked GREEN must NOT change.\n3. Unmarked words may be adjusted slightly for grammar/flow.\n4. Maintain the overall meaning and style.\n\nReturn ONLY the corrected full transcript. No explanation.");
    s
}

/// The correction model to ask: the saved one, `deepseek/deepseek-chat` when it is empty.
pub fn correction_model_or_default(model: &str) -> (s: String)
    ensures
        s@ == (if model@.len() == 0 { "deepseek/deepseek-chat"@ } else { model@ }),
{
    if model.is_empty() {
        String::from_str("deepseek/deepseek-chat")
    } else {
        String::from_str(model)
    }
}

/// A correction needs the OpenRouter key.
pub fn correction_key_required(correction_key: &str) -> (r: Result<(), ApiError>)
    ensures
        correction_key@.len() == 0 <==> r is Err,
        r matches Err(e) ==> e@ == ApiErrorModel::BadRequest("OpenRouter API key not configured. Add it in Settings."@),
{
    if correction_key.is_empty() {
        Err(ApiError::BadRequest(String::from_str("OpenRouter API key not configured. Add it in Settings.")))
    } else {
        Ok(())
    }
}

/// The error of a failed correction request: the status, the provider's message, and a hint
/// to check the key when the message is about authentication or a missing resource.
pub open spec fn openrouter_error_text(status: Seq<char>, msg: Seq<char>) -> Seq<char> {
    let l = crate::text::lower(msg);
    "OpenRouter "@ + status + ": "@ + msg + if crate::text::contains(l, "authentication"@) || crate::text::contains(l, "not found"@) {
        " — check that your key is an OpenRouter key (starts with sk-or-v1-) and is active."@
    } else {
        seq![]
    }
}

pub fn openrouter_error(status: &str, msg: &str) -> (s: String)
    ensures
        s@ == openrouter_error_text(status@, msg@),
{
    let l = crate::text::to_ascii_lower(&chars_of(msg));
    let hint = crate::text::contains_chars(&l, &chars_of("authentication")) || crate::text::contains_chars(&l, &chars_of("not found"));
    let mut s = String::from_str("OpenRouter ");
    push_str(&mut s, status);
    push_str(&mut s, ": ");
    push_str(&mut s, msg);
    if hint {
        push_str(&mut s, " — check that your key is an OpenRouter key (starts with sk-or-v1-) and is active.");
    } else {
        assert(s@ + Seq::<char>::empty() =~= s@);
    }
    s
}

/// A correction ready to send: the checked recording id, the OpenRouter key, the model and
/// the prompt.
#[derive(Debug, Clone)]
pub struct CorrectionRequest {
    pub id: String,
    pub key: String,
    pub model: String,
    pub prompt: String,
}

/// Prepares an AI correction of a recording's `text`, in the order the request is checked:
/// the recording id first, then that an OpenRouter key is set; the model setting falls back
/// to the default model.
pub fn correction_request(
    id: &str,
    correction_key: &str,
    model_setting: &str,
    text: &str,
    marked: &[String],
    kept: &[String],
) -> (r: Result<CorrectionRequest, ApiError>)
    ensures
        checked_id(id@) matches Err(e) ==> (r matches Err(x) && x@ == e),
        checked_id(id@) is Ok && correction_key@.len() == 0 ==> (r matches Err(x)
            && x@ == ApiErrorModel::BadRequest("OpenRouter API key not configured. Add it in Settings."@)),
        checked_id(id@) is Ok && correction_key@.len() > 0 ==> (r matches Ok(q) && {
            &&& q.id@ == checked_id(id@)->Ok_0
            &&& q.key@ == correction_key@
            &&& q.model@ == (if model_setting@.len() == 0 { "deepseek/deepseek-chat"@ } else { model_setting@ })
            &&& q.prompt@ == correction_prompt_text(
                text@,
                crate::lifecycle::string_views(marked@),
                crate::lifecycle::string_views(kept@),
            )
        }),
{
    let checked = validate_recording_id(id)?;
    correction_key_required(correction_key)?;
    let prompt = correction_prompt(text, marked, kept);
    let model = correction_model_or_default(model_setting);
    Ok(CorrectionRequest { id: checked, key: String::from_str(correction_key), model, prompt })
}

/// The string member `key` of a request body, `default` when it has none.
pub open spec fn text_member(body: Seq<char>, key: Seq<char>, default: Seq<char>) -> Seq<char> {
    match crate::json::json_str_member(body, key) {
        Some(t) => t,
        None => default,
    }
}

fn str_member_or(body: &str, key: &str, default: &str) -> (r: Result<String, String>)
    ensures
        r matches Err(e) ==> crate::json::json_error_text(body@) == Some(e@),
        r is Ok ==> crate::json::json_error_text(body@) is None,
        r matches Ok(t) ==> t@ == text_member(body@, key@, default@),
{
    let keys: [&str; 1] = [key];
    let f = crate::json::json_str_fields(body, keys.as_slice())?;
    assert(f@.len() == 1);
    assert(keys@[0]@ == key@);
    match &f[0] {
        Some(t) => Ok(t.clone()),
        None => Ok(String::from_str(default)),
    }
}

/// A correction request: the transcript and the words marked to change and to keep.
#[derive(Debug, Clone)]
pub struct CorrectBody {
    pub text: String,
    pub marked: Vec<String>,
    pub kept: Vec<String>,
}

/// Reads a correction request body: the JSON error when it does not parse; else its `text`
/// (empty without one) and the string items of its `marked` and `kept` arrays.
pub fn correct_body_from_json(body: &str) -> (r: Result<CorrectBody, String>)
    ensures
        crate::json::json_error_text(body@) matches Some(t) ==> (r matches Err(e) && e@ == t),
        crate::json::json_error_text(body@) is None ==> (r matches Ok(c) && {
            &&& c.text@ == text_member(body@, "text"@, ""@)
            &&& crate::lifecycle::string_views(c.marked@) == crate::json::string_items(
                crate::json::json_str_array_member(body@, "marked"@),
            )
            &&& crate::lifecycle::string_views(c.kept@) == crate::json::string_items(
                crate::json::json_str_array_member(body@, "kept"@),
            )
        }),
{
    let text = str_member_or(body, "text", "")?;
    let marked = crate::json::json_strings(body, "marked");
    let kept = crate::json::json_strings(body, "kept");
    proof {
        assert(crate::lifecycle::string_views(marked@) =~= crate::json::string_items(
            crate::json::json_str_array_member(body@, "marked"@),
        ));
        assert(crate::lifecycle::string_views(kept@) =~= crate::json::string_items(
            crate::json::json_str_array_member(body@, "kept"@),
        ));
    }
    Ok(CorrectBody { text, marked, kept })
}

/// An edit request: the new text and the kind of version it makes.
#[derive(Debug, Clone)]
pub struct EditBody {
    pub text: String,
    pub edit_type: String,
}

/// Reads an edit request body: the JSON error when it does not parse; else its `text`
/// (empty without one) and its `type` (`user_edit` without one).
pub fn edit_body_from_json(body: &str) -> (r: Result<EditBody, String>)
    ensures
        crate::json::json_error_text(body@) matches Some(t) ==> (r matches Err(e) && e@ == t),
        crate::json::json_error_text(body@) is None ==> (r matches Ok(b) && b.text@ == text_member(
            body@,
            "text"@,
            ""@,
        ) && b.edit_type@ == text_member(body@, "type"@, "user_edit"@)),
{
    let text = str_member_or(body, "text", "")?;
    let edit_type = str_member_or(body, "type", "user_edit")?;
    Ok(EditBody { text, edit_type })
}

/// What came back from the OpenRouter chat completion request, as the caller read it.
#[derive(Debug, Clone)]
pub struct ChatReply {
    /// The HTTP status was a success.
    pub success: bool,
    /// The HTTP status line (`404 Not Found`).
    pub status: String,
    /// `error.message` of the body, when it is a string.
    pub error_message: Option<String>,
    /// `choices[0].message.content` of the body, when it is a string.
    pub content: Option<String>,
    /// The body as JSON text.
    pub body: String,
}

/// The corrected text of a reply, or the error to report: a failed status gives
/// [`openrouter_error_text`] of the status and the error message (`unknown` without one); a
/// success without text content is an unexpected response.
pub open spec fn chat_reply_result(r: ChatReply) -> Result<Seq<char>, Seq<char>> {
    if !r.success {
        Err(openrouter_error_text(r.status@, match r.error_message {
            Some(m) => m@,
            None => "unknown"@,
        }))
    } else {
        match r.content {
            Some(c) => Ok(c@),
            None => Err("unexpected response: "@ + r.body@),
        }
    }
}

/// Reads an OpenRouter reply (see [`chat_reply_result`]).
pub fn chat_reply_text(reply: ChatReply) -> (r: Result<String, String>)
    ensures
        match chat_reply_result(reply) {
            Ok(t) => r matches Ok(v) && v@ == t,
            Err(e) => r matches Err(v) && v@ == e,
        },
{
    if !reply.success {
        let msg = match &reply.error_message {
            Some(m) => m.as_str(),
            None => "unknown",
        };
        return Err(openrouter_error(reply.status.as_str(), msg));
    }
    match reply.content {
        Some(c) => Ok(c),
        None => {
            let mut e = String::from_str("unexpected response: ");
            push_str(&mut e, reply.body.as_str());
            Err(e)
        },
    }
}

/// Transcribing a stored recording needs local credentials.
pub fn transcription_credentials(has_credentials: bool) -> (r: Result<(), ApiError>)
    ensures
        has_credentials <==> r is Ok,
        r matches Err(e) ==> e@ == ApiErrorModel::BadRequest(
            "No speech credentials — add an API key in Settings or run cosmic-scribe --login"@,
        ),
{
    if has_credentials {
        Ok(())
    } else {
        Err(ApiError::BadRequest(String::from_str("No speech credentials — add an API key in Settings or run cosmic-scribe --login")))
    }
}

} // verus!

verus! {

/// A settings request needs a body.
pub fn config_body_present(body: &str) -> (r: Result<(), ApiError>)
    ensures
        (trim(body@).len() == 0) <==> r is Err,
        r matches Err(e) ==> e@ == ApiErrorModel::BadRequest("empty request body"@),
{
    if crate::keyring::trimmed(body).as_str().is_empty() {
        Err(ApiError::BadRequest(String::from_str("empty request body")))
    } else {
        Ok(())
    }
}

/// The settings update a request body asks for, or why it is refused: a blank body, then
/// JSON that does not parse; each setting is the body's string member of that name.
pub open spec fn json_config_update(body: Seq<char>) -> Result<Seq<Option<Seq<char>>>, ApiErrorModel> {
    if trim(body).len() == 0 {
        Err(ApiErrorModel::BadRequest("empty request body"@))
    } else {
        match crate::json::json_error_text(body) {
            Some(t) => Err(ApiErrorModel::BadRequest("invalid JSON: "@ + t)),
            None => Ok(seq![
                crate::json::json_str_member(body, "lang"@),
                crate::json::json_str_member(body, "output_mode"@),
                crate::json::json_str_member(body, "history_time_mode"@),
                crate::json::json_str_member(body, "stt_endpoint"@),
                crate::json::json_str_member(body, "key"@),
                crate::json::json_str_member(body, "correction_key"@),
                crate::json::json_str_member(body, "correction_model"@),
            ]),
        }
    }
}

/// The settings of an update in the order of [`json_config_update`].
pub open spec fn update_fields(u: ConfigUpdate) -> Seq<Option<Seq<char>>> {
    seq![
        opt_str(u.lang),
        opt_str(u.output_mode),
        opt_str(u.history_time_mode),
        opt_str(u.stt_endpoint),
        opt_str(u.key),
        opt_str(u.correction_key),
        opt_str(u.correction_model),
    ]
}

/// Reads the settings update of a request body (see [`json_config_update`]).
pub fn config_update_from_json(body: &str) -> (r: Result<ConfigUpdate, ApiError>)
    ensures
        match json_config_update(body@) {
            Ok(f) => r matches Ok(u) && update_fields(u) == f,
            Err(e) => r matches Err(x) && x@ == e,
        },
{
    config_body_present(body)?;
    let keys: [&str; 7] = ["lang", "output_mode", "history_time_mode", "stt_endpoint", "key", "correction_key", "correction_model"];
    proof {
        reveal_strlit("lang");
        reveal_strlit("output_mode");
        reveal_strlit("history_time_mode");
        reveal_strlit("stt_endpoint");
        reveal_strlit("key");
        reveal_strlit("correction_key");
        reveal_strlit("correction_model");
    }
    let fields = match crate::json::json_str_fields(body, keys.as_slice()) {
        Ok(f) => f,
        Err(e) => {
            let mut m = String::from_str("invalid JSON: ");
            push_str(&mut m, e.as_str());
            return Err(ApiError::BadRequest(m));
        },
    };
    assert(fields@.len() == 7);
    let u = ConfigUpdate {
        lang: fields[0].clone(),
        output_mode: fields[1].clone(),
        history_time_mode: fields[2].clone(),
        stt_endpoint: fields[3].clone(),
        key: fields[4].clone(),
        correction_key: fields[5].clone(),
        correction_model: fields[6].clone(),
    };
    proof {
        assert(keys@[0]@ == "lang"@);
        assert(crate::json::opt_string_view(fields@[0]) == crate::json::json_str_member(body@, keys@[0]@));
        assert(crate::json::opt_string_view(fields@[1]) == crate::json::json_str_member(body@, keys@[1]@));
        assert(crate::json::opt_string_view(fields@[2]) == crate::json::json_str_member(body@, keys@[2]@));
        assert(crate::json::opt_string_view(fields@[3]) == crate::json::json_str_member(body@, keys@[3]@));
        assert(crate::json::opt_string_view(fields@[4]) == crate::json::json_str_member(body@, keys@[4]@));
        assert(crate::json::opt_string_view(fields@[5]) == crate::json::json_str_member(body@, keys@[5]@));
        assert(crate::json::opt_string_view(fields@[6]) == crate::json::json_str_member(body@, keys@[6]@));
        assert(update_fields(u) =~= json_config_update(body@)->Ok_0);
    }
    Ok(u)
}

/// The save plan of a settings request body: what [`save_config`] does with the update the
/// body asks for, or the body's refusal.
pub open spec fn json_save_plan(body: Seq<char>) -> Result<Seq<StepModel>, ApiErrorModel> {
    match json_config_update(body) {
        Ok(f) => Ok(assemble(
            seq![
                lang_outcome(f[0]),
                output_mode_outcome(f[1]),
                time_mode_outcome(f[2]),
                endpoint_outcome(f[3]),
                key_outcome(f[4]),
                correction_key_outcome(f[5]),
                correction_model_outcome(f[6]),
            ],
        )),
        Err(e) => Err(e),
    }
}

/// Saving settings from a request body: the steps to perform (see [`json_save_plan`]).
pub fn save_config_from_json(body: &str) -> (r: Result<Vec<ConfigStep>, ApiError>)
    ensures
        match json_save_plan(body@) {
            Ok(p) => r matches Ok(steps) && steps_model(steps@) == p,
            Err(e) => r matches Err(x) && x@ == e,
        },
{
    let u = config_update_from_json(body)?;
    Ok(save_config(&u))
}

} // verus!
