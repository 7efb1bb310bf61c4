//! Speech credential and settings values: what the stored files and environment mean,
//! and what may be written. The files themselves are read and written by the caller.
use vstd::prelude::*;
use vstd::utf8::{decode_utf8, encode_utf8, valid_utf8};
use crate::crypto::{decryption, decrypt_bytes, looks_encrypted, looks_encrypted_spec, KeyringError};
use crate::text::{chars_of, concat, push_str, starts_with, starts_with_chars, str_eq, string_from, trim, trim_ws};

verus! {

/// `String::from_utf8`. Claims what std documents: `Ok` exactly for valid UTF-8, holding the
/// decoded characters.
#[verifier::external_body]
pub fn utf8_decode(bytes: Vec<u8>) -> (r: Option<String>)
    ensures
        r is Some <==> valid_utf8(bytes@),
        r matches Some(s) ==> s@ == decode_utf8(bytes@),
{
    String::from_utf8(bytes).ok()
}

/// `s` with surrounding whitespace removed, as an owned string.
pub fn trimmed(s: &str) -> (r: String)
    ensures
        r@ == trim(s@),
{
    string_from(&trim_ws(&chars_of(s)))
}

/// UTF-8 bytes of a string.
pub fn utf8_bytes(s: &str) -> (r: Vec<u8>)
    ensures
        r@ == encode_utf8(s@),
{
    let b = s.as_bytes();
    let mut r: Vec<u8> = Vec::new();
    let mut i: usize = 0;
    while i < b.len()
        invariant
            i <= b@.len(),
            r@ == b@.take(i as int),
        decreases b.len() - i,
    {
        r.push(b[i]);
        assert(b@.take(i + 1) =~= b@.take(i as int).push(b@[i as int]));
        i += 1;
    }
    assert(b@.take(b@.len() as int) =~= b@);
    r
}

/// Machine id bytes from the contents of the machine-id file (none → empty).
pub fn machine_id_bytes(contents: Option<&str>) -> (r: Vec<u8>)
    ensures
        r@ == match contents {
            Some(c) => encode_utf8(trim(c@)),
            None => encode_utf8(Seq::<char>::empty()),
        },
{
    match contents {
        Some(c) => {
            let t = trimmed(c);
            utf8_bytes(t.as_str())
        },
        None => {
            let e = String::new();
            utf8_bytes(e.as_str())
        },
    }
}

/// What a stored secret file (encrypted, or legacy plaintext) holds as text; unreadable → empty.
pub open spec fn stored_secret(machine_id: Seq<u8>, data: Seq<u8>) -> Seq<char> {
    if looks_encrypted_spec(data) {
        match decryption(machine_id, data) {
            Ok(p) => if valid_utf8(p) { decode_utf8(p) } else { seq![] },
            Err(_) => seq![],
        }
    } else if valid_utf8(data) {
        trim(decode_utf8(data))
    } else {
        seq![]
    }
}

/// The correction key held in its file: decrypted when encrypted, trimmed when plaintext,
/// empty when it cannot be read.
pub fn correction_key_from_file(machine_id: &[u8], data: &[u8]) -> (s: String)
    ensures
        s@ == stored_secret(machine_id@, data@),
{
    if looks_encrypted(data) {
        match decrypt_bytes(machine_id, data) {
            Ok(p) => match utf8_decode(p) {
                Some(s) => s,
                None => String::new(),
            },
            Err(_) => String::new(),
        }
    } else {
        let v = crate::crypto::bytes_slice(data, 0, data.len());
        assert(v@ =~= data@);
        match utf8_decode(v) {
            Some(s) => trimmed(s.as_str()),
            None => String::new(),
        }
    }
}

#[derive(Debug, Clone, Copy, PartialEq, Eq)]
pub enum KeyFileError {
    /// Decrypting the key file failed.
    Decrypt(KeyringError),
    /// The decrypted key is not UTF-8.
    DecryptedNotUtf8,
    /// The plaintext key file is not UTF-8.
    PlainNotUtf8,
}

impl KeyFileError {
    pub fn message(&self) -> (s: &'static str)
        ensures
            s@ == match *self {
                KeyFileError::Decrypt(e) => crate::crypto::keyring_error_message(e),
                KeyFileError::DecryptedNotUtf8 => "decrypted key is not valid UTF-8"@,
                KeyFileError::PlainNotUtf8 => "API key file contains invalid UTF-8"@,
            },
    {
        match self {
            KeyFileError::Decrypt(e) => e.message(),
            KeyFileError::DecryptedNotUtf8 => "decrypted key is not valid UTF-8",
            KeyFileError::PlainNotUtf8 => "API key file contains invalid UTF-8",
        }
    }
}

/// The API key held in the key file, or why it cannot be used.
pub open spec fn key_file_value(machine_id: Seq<u8>, data: Seq<u8>) -> Result<Seq<char>, KeyFileError> {
    if looks_encrypted_spec(data) {
        match decryption(machine_id, data) {
            Ok(p) => if valid_utf8(p) { Ok(decode_utf8(p)) } else { Err(KeyFileError::DecryptedNotUtf8) },
            Err(e) => Err(KeyFileError::Decrypt(e)),
        }
    } else if valid_utf8(data) {
        Ok(trim(decode_utf8(data)))
    } else {
        Err(KeyFileError::PlainNotUtf8)
    }
}

/// Reads the speech API key out of the key file's bytes (legacy plaintext is accepted).
pub fn api_key_from_file(machine_id: &[u8], data: &[u8]) -> (r: Result<String, KeyFileError>)
    ensures
        match r {
            Ok(s) => key_file_value(machine_id@, data@) == Ok::<Seq<char>, KeyFileError>(s@),
            Err(e) => key_file_value(machine_id@, data@) == Err::<Seq<char>, KeyFileError>(e),
        },
{
    if looks_encrypted(data) {
        match decrypt_bytes(machine_id, data) {
            Ok(p) => match utf8_decode(p) {
                Some(s) => Ok(s),
                None => Err(KeyFileError::DecryptedNotUtf8),
            },
            Err(e) => Err(KeyFileError::Decrypt(e)),
        }
    } else {
        let v = crate::crypto::bytes_slice(data, 0, data.len());
        assert(v@ =~= data@);
        match utf8_decode(v) {
            Some(s) => Ok(trimmed(s.as_str())),
            None => Err(KeyFileError::PlainNotUtf8),
        }
    }
}

/// An environment value that counts: present and non-empty.
pub open spec fn set_env(v: Option<Seq<char>>) -> bool {
    v matches Some(s) && s.len() > 0
}

pub open spec fn opt_view(v: Option<&str>) -> Option<Seq<char>> {
    match v {
        Some(s) => Some(s@),
        None => None,
    }
}

fn nonempty(v: Option<&str>) -> (b: bool)
    ensures
        b == set_env(opt_view(v)),
{
    match v {
        Some(s) => !s.is_empty(),
        None => false,
    }
}

/// Local-only credential presence: an env key, a sign-in session, or a stored key file.
/// Never refreshes tokens or touches the network.
pub fn has_any_speech_credentials(
    api_key_env: Option<&str>,
    xai_key_env: Option<&str>,
    logged_in: bool,
    stored_key: bool,
) -> (b: bool)
    ensures
        b == (set_env(opt_view(api_key_env)) || set_env(opt_view(xai_key_env)) || logged_in || stored_key),
{
    nonempty(api_key_env) || nonempty(xai_key_env) || logged_in || stored_key
}

/// Speech language: the environment's when set, else the saved file (trimmed), else `en`.
pub open spec fn language(env: Option<Seq<char>>, file: Option<Seq<char>>) -> Seq<char> {
    if set_env(env) {
        env->Some_0
    } else {
        match file {
            Some(f) => trim(f),
            None => "en"@,
        }
    }
}

pub fn language_choice(env: Option<&str>, file: Option<&str>) -> (s: String)
    ensures
        s@ == language(opt_view(env), opt_view(file)),
{
    if nonempty(env) {
        return String::from_str(env.unwrap());
    }
    match file {
        Some(f) => trimmed(f),
        None => String::from_str("en"),
    }
}

/// Output mode from its file: `clipboard` (or legacy `never`) → clipboard, anything else →
/// `wtype`; `true` in the second place when a legacy or empty value should be rewritten.
pub open spec fn stored_output_mode(file: Option<Seq<char>>) -> (Seq<char>, bool) {
    let raw = match file {
        Some(f) => trim(f),
        None => "wtype"@,
    };
    let mode = if raw == "clipboard"@ || raw == "never"@ { "clipboard"@ } else { "wtype"@ };
    (mode, mode != raw && (raw == "never"@ || raw == "always"@ || raw == "auto"@ || raw.len() == 0))
}

pub fn output_mode_from_file(file: Option<&str>) -> (r: (String, bool))
    ensures
        (r.0@, r.1) == stored_output_mode(opt_view(file)),
{
    let raw = match file {
        Some(f) => trimmed(f),
        None => String::from_str("wtype"),
    };
    let r = raw.as_str();
    let mode = if str_eq(r, "clipboard") || str_eq(r, "never") { "clipboard" } else { "wtype" };
    let rewrite = !str_eq(mode, r) && (str_eq(r, "never") || str_eq(r, "always") || str_eq(r, "auto")
        || r.is_empty());
    (String::from_str(mode), rewrite)
}

/// Accepts `wtype` or `clipboard` (trimmed); anything else is refused with a message.
pub open spec fn output_mode_setting(mode: Seq<char>) -> Result<Seq<char>, Seq<char>> {
    let t = trim(mode);
    if t == "clipboard"@ || t == "wtype"@ {
        Ok(t)
    } else if t.len() == 0 {
        Err("output mode must be 'wtype' or 'clipboard', got empty"@)
    } else {
        Err("output mode must be 'wtype' or 'clipboard', got '"@ + t + "'"@)
    }
}

pub fn parse_output_mode(mode: &str) -> (r: Result<String, String>)
    ensures
        match r {
            Ok(m) => output_mode_setting(mode@) == Ok::<Seq<char>, Seq<char>>(m@),
            Err(e) => output_mode_setting(mode@) == Err::<Seq<char>, Seq<char>>(e@),
        },
{
    let t = trimmed(mode);
    if str_eq(t.as_str(), "clipboard") || str_eq(t.as_str(), "wtype") {
        Ok(t)
    } else if t.as_str().is_empty() {
        Err(String::from_str("output mode must be 'wtype' or 'clipboard', got empty"))
    } else {
        let mut e = String::from_str("output mode must be 'wtype' or 'clipboard', got '");
        push_str(&mut e, t.as_str());
        push_str(&mut e, "'");
        Err(e)
    }
}

/// History timestamps: `absolute` only when the file says so, else `relative`.
pub open spec fn stored_history_time_mode(file: Option<Seq<char>>) -> Seq<char> {
    match file {
        Some(f) if trim(f) == "absolute"@ => "absolute"@,
        _ => "relative"@,
    }
}

pub fn history_time_mode_from_file(file: Option<&str>) -> (s: &'static str)
    ensures
        s@ == stored_history_time_mode(opt_view(file)),
{
    match file {
        Some(f) => {
            let t = trimmed(f);
            if str_eq(t.as_str(), "absolute") { "absolute" } else { "relative" }
        },
        None => "relative",
    }
}

/// Accepts `relative` or `absolute` (trimmed); anything else is refused with a message.
pub open spec fn history_time_mode_setting(mode: Seq<char>) -> Result<Seq<char>, Seq<char>> {
    let t = trim(mode);
    if t == "relative"@ || t == "absolute"@ {
        Ok(t)
    } else {
        Err("history time mode must be 'relative' or 'absolute', got '"@ + t + "'"@)
    }
}

pub fn parse_history_time_mode(mode: &str) -> (r: Result<String, String>)
    ensures
        match r {
            Ok(m) => history_time_mode_setting(mode@) == Ok::<Seq<char>, Seq<char>>(m@),
            Err(e) => history_time_mode_setting(mode@) == Err::<Seq<char>, Seq<char>>(e@),
        },
{
    let t = trimmed(mode);
    if str_eq(t.as_str(), "relative") || str_eq(t.as_str(), "absolute") {
        Ok(t)
    } else {
        let mut e = String::from_str("history time mode must be 'relative' or 'absolute', got '");
        push_str(&mut e, t.as_str());
        push_str(&mut e, "'");
        Err(e)
    }
}

/// Default STT endpoint (xAI REST dialect).
pub const DEFAULT_STT_ENDPOINT: &'static str = "https://api.x.ai/v1/stt";

/// STT URL: the environment's (trimmed) when non-blank, else the saved one (trimmed) when
/// non-blank, else the default.
pub open spec fn stt_endpoint(env: Option<Seq<char>>, file: Option<Seq<char>>) -> Seq<char> {
    if env matches Some(e) && trim(e).len() > 0 {
        trim(env->Some_0)
    } else if file matches Some(f) && trim(f).len() > 0 {
        trim(file->Some_0)
    } else {
        DEFAULT_STT_ENDPOINT@
    }
}

pub fn stt_endpoint_choice(env: Option<&str>, file: Option<&str>) -> (s: String)
    ensures
        s@ == stt_endpoint(opt_view(env), opt_view(file)),
{
    if let Some(e) = env {
        let t = trimmed(e);
        if !t.as_str().is_empty() {
            return t;
        }
    }
    if let Some(f) = file {
        let t = trimmed(f);
        if !t.as_str().is_empty() {
            return t;
        }
    }
    String::from_str(DEFAULT_STT_ENDPOINT)
}

/// Saving an endpoint: blank or the default resets (`Ok(None)`); an http(s) URL is stored
/// trimmed; anything else is refused.
pub open spec fn stt_endpoint_setting(url: Seq<char>) -> Result<Option<Seq<char>>, Seq<char>> {
    let t = trim(url);
    if t.len() == 0 || t == DEFAULT_STT_ENDPOINT@ {
        Ok(None)
    } else if starts_with(t, "https://"@) || starts_with(t, "http://"@) {
        Ok(Some(t))
    } else {
        Err("STT endpoint must be an http(s) URL"@)
    }
}

pub fn parse_stt_endpoint(url: &str) -> (r: Result<Option<String>, String>)
    ensures
        match r {
            Ok(None) => stt_endpoint_setting(url@) == Ok::<Option<Seq<char>>, Seq<char>>(None),
            Ok(Some(u)) => stt_endpoint_setting(url@) == Ok::<Option<Seq<char>>, Seq<char>>(Some(u@)),
            Err(e) => stt_endpoint_setting(url@) == Err::<Option<Seq<char>>, Seq<char>>(e@),
        },
{
    let tv = trim_ws(&chars_of(url));
    let t = string_from(&tv);
    if tv.len() == 0 || str_eq(t.as_str(), DEFAULT_STT_ENDPOINT) {
        return Ok(None);
    }
    if starts_with_chars(&tv, "https://") || starts_with_chars(&tv, "http://") {
        Ok(Some(t))
    } else {
        Err(String::from_str("STT endpoint must be an http(s) URL"))
    }
}

/// Default correction model.
pub const DEFAULT_CORRECTION_MODEL: &'static str = "deepseek/deepseek-chat-v4";

/// Correction model: the saved one (trimmed), else the default.
pub open spec fn correction_model(file: Option<Seq<char>>) -> Seq<char> {
    match file {
        Some(f) => trim(f),
        None => DEFAULT_CORRECTION_MODEL@,
    }
}

pub fn correction_model_choice(file: Option<&str>) -> (s: String)
    ensures
        s@ == correction_model(opt_view(file)),
{
    match file {
        Some(f) => trimmed(f),
        None => String::from_str(DEFAULT_CORRECTION_MODEL),
    }
}

/// Correction key: the environment's when non-empty, else what its file holds, else empty.
pub open spec fn correction_key(env: Option<Seq<char>>, stored: Option<Seq<char>>) -> Seq<char> {
    if set_env(env) {
        env->Some_0
    } else {
        match stored {
            Some(s) => s,
            None => seq![],
        }
    }
}

pub fn correction_key_choice(env: Option<&str>, stored: Option<String>) -> (s: String)
    ensures
        s@ == correction_key(opt_view(env), match stored {
            Some(x) => Some(x@),
            None => None,
        }),
{
    if nonempty(env) {
        return String::from_str(env.unwrap());
    }
    match stored {
        Some(s) => s,
        None => String::new(),
    }
}

} // verus!

verus! {

/// The settings directory (the application data directory).
pub fn config_dir(data_dir: &str) -> (p: String)
    ensures
        p@ == data_dir@,
{
    String::from_str(data_dir)
}

/// The (encrypted) API key file.
pub fn key_path(config_dir: &str) -> (p: String)
    ensures
        p@ == crate::paths::join_path(config_dir@, "api-key"@),
{
    crate::paths::join_path_str(config_dir, "api-key")
}

/// The speech-language file.
pub fn lang_path(config_dir: &str) -> (p: String)
    ensures
        p@ == crate::paths::join_path(config_dir@, "lang"@),
{
    crate::paths::join_path_str(config_dir, "lang")
}

/// The output-mode file.
pub fn output_mode_path(config_dir: &str) -> (p: String)
    ensures
        p@ == crate::paths::join_path(config_dir@, "output-mode"@),
{
    crate::paths::join_path_str(config_dir, "output-mode")
}

/// The history time-mode file.
pub fn history_time_mode_path(config_dir: &str) -> (p: String)
    ensures
        p@ == crate::paths::join_path(config_dir@, "history-time-mode"@),
{
    crate::paths::join_path_str(config_dir, "history-time-mode")
}

/// The custom STT endpoint file.
pub fn stt_endpoint_path(config_dir: &str) -> (p: String)
    ensures
        p@ == crate::paths::join_path(config_dir@, "stt-endpoint"@),
{
    crate::paths::join_path_str(config_dir, "stt-endpoint")
}

/// The (encrypted) correction API key file.
pub fn correction_key_path(config_dir: &str) -> (p: String)
    ensures
        p@ == crate::paths::join_path(config_dir@, "correction-key"@),
{
    crate::paths::join_path_str(config_dir, "correction-key")
}

/// The correction model file.
pub fn correction_model_path(config_dir: &str) -> (p: String)
    ensures
        p@ == crate::paths::join_path(config_dir@, "correction-model"@),
{
    crate::paths::join_path_str(config_dir, "correction-model")
}

/// A stored API key file counts when it is a file and not empty.
pub fn has_stored_api_key(is_file: bool, len: Option<u64>) -> (b: bool)
    ensures
        b == (is_file && (len matches Some(n) && n > 0)),
{
    is_file && match len {
        Some(n) => n > 0,
        None => false,
    }
}

/// Cloud STT bearer by priority before the key file: the generic API key variable, the xAI
/// key variable, then the sign-in access token; each only when non-empty. `None`: read the
/// key file.
pub open spec fn bearer_priority(
    api_key_env: Option<Seq<char>>,
    xai_key_env: Option<Seq<char>>,
    oauth_token: Option<Seq<char>>,
) -> Option<Seq<char>> {
    if set_env(api_key_env) {
        api_key_env
    } else if set_env(xai_key_env) {
        xai_key_env
    } else if set_env(oauth_token) {
        oauth_token
    } else {
        None
    }
}

pub fn bearer_before_key_file(
    api_key_env: Option<&str>,
    xai_key_env: Option<&str>,
    oauth_token: Option<&str>,
) -> (r: Option<String>)
    ensures
        r matches Some(s) ==> bearer_priority(opt_view(api_key_env), opt_view(xai_key_env), opt_view(oauth_token)) == Some(s@),
        r is None ==> bearer_priority(opt_view(api_key_env), opt_view(xai_key_env), opt_view(oauth_token)) is None,
{
    if nonempty(api_key_env) {
        return Some(String::from_str(api_key_env.unwrap()));
    }
    if nonempty(xai_key_env) {
        return Some(String::from_str(xai_key_env.unwrap()));
    }
    if nonempty(oauth_token) {
        return Some(String::from_str(oauth_token.unwrap()));
    }
    None
}

/// What a key file written by `set_api_key` holds: the trimmed key, encrypted for this
/// machine. Reading the file back gives the trimmed key whenever the stored bytes are
/// recognisably encrypted (not pure ASCII; otherwise they read as a legacy plaintext key).
pub fn api_key_file_bytes(machine_id: &[u8], key: &str) -> (r: Result<Vec<u8>, KeyringError>)
    ensures
        machine_id@.len() == 0 ==> r == Err::<Vec<u8>, KeyringError>(KeyringError::NoMachineId),
        machine_id@.len() > 0 && encode_utf8(trim(key@)).len() <= crate::crypto::MAX_PLAINTEXT ==> r is Ok || r
            == Err::<Vec<u8>, KeyringError>(KeyringError::NoRandomness),
        r matches Ok(data) ==> decryption(machine_id@, data@) == Ok::<Seq<u8>, KeyringError>(encode_utf8(trim(key@))),
        r matches Ok(data) ==> (looks_encrypted_spec(data@) ==> key_file_value(machine_id@, data@)
            == Ok::<Seq<char>, KeyFileError>(trim(key@))),
{
    let t = trimmed(key);
    let bytes = utf8_bytes(t.as_str());
    let r = crate::crypto::encrypt_bytes(machine_id, &bytes);
    proof {
        vstd::utf8::encode_utf8_valid_utf8(trim(key@));
        vstd::utf8::encode_utf8_decode_utf8(trim(key@));
    }
    r
}

/// The keyring backed by files in the settings directory.
#[derive(Debug, Clone, Copy, PartialEq, Eq)]
pub struct ConfigFileKeyring;

} // verus!

verus! {

/// What the Settings page writes reads back as written while no environment variable
/// overrides it: the language and correction model are stored trimmed and read back so; an
/// accepted output mode, history time mode or speech endpoint reads back as the accepted
/// value (and needs no rewrite); a reset endpoint reads as the default.
pub proof fn lemma_saved_settings_read_back(
    lang: Seq<char>,
    mode: Seq<char>,
    time_mode: Seq<char>,
    url: Seq<char>,
    model: Seq<char>,
)
    ensures
        language(None, Some(trim(lang))) == trim(lang),
        output_mode_setting(mode) matches Ok(m) ==> stored_output_mode(Some(m)) == (m, false),
        history_time_mode_setting(time_mode) matches Ok(m) ==> stored_history_time_mode(Some(m)) == m,
        stt_endpoint_setting(url) matches Ok(Some(u)) ==> stt_endpoint(None, Some(u)) == u,
        stt_endpoint_setting(url) matches Ok(None) ==> stt_endpoint(None, None) == DEFAULT_STT_ENDPOINT@,
        correction_model(Some(trim(model))) == trim(model),
{
    crate::text::lemma_trim_idempotent(lang);
    crate::text::lemma_trim_idempotent(mode);
    crate::text::lemma_trim_idempotent(time_mode);
    crate::text::lemma_trim_idempotent(url);
    crate::text::lemma_trim_idempotent(model);
    reveal_strlit("wtype");
    reveal_strlit("clipboard");
    reveal_strlit("never");
    reveal_strlit("always");
    reveal_strlit("auto");
    reveal_strlit("relative");
    reveal_strlit("absolute");
    assert("wtype"@[0] != "never"@[0]);
    assert("relative"@[0] != "absolute"@[0]);
}

} // verus!
