//! User-visible Settings / first-run strings. Sign-in is the ordinary path.
use vstd::prelude::*;
use crate::text::{chars_of, find, find_chars, lower, str_eq, to_ascii_lower};

verus! {

pub fn sign_in_item_title() -> (s: &'static str)
    ensures
        s@ == "Sign in"@,
{
    "Sign in"
}

pub fn sign_in_item_description() -> (s: &'static str)
    ensures
        s@ == "SuperGrok or X Premium+ — same account as grok.com."@,
{
    "SuperGrok or X Premium+ — same account as grok.com."
}

pub fn access_how_speech_works() -> (s: &'static str)
    ensures
        s@ == "Sign in with SuperGrok or X Premium+. An API key is a fallback."@,
{
    "Sign in with SuperGrok or X Premium+. An API key is a fallback."
}

pub fn analytics_item_description() -> (s: &'static str)
    ensures
        s@ == "Off by default. Counts only — no words, audio, or who you are."@,
{
    "Off by default. Counts only — no words, audio, or who you are."
}

pub open spec fn auth_title(mode: Seq<char>) -> Seq<char> {
    if mode == "oauth"@ {
        "Signed in"@
    } else if mode == "api_key"@ {
        "API key (saved here)"@
    } else if mode == "api_key_env"@ {
        "API key (from environment)"@
    } else {
        "Not set up yet"@
    }
}

pub open spec fn auth_detail(mode: Seq<char>) -> Seq<char> {
    if mode == "oauth"@ {
        "Using your plan for speech recognition."@
    } else if mode == "api_key"@ {
        "Using the API key saved on this computer."@
    } else if mode == "api_key_env"@ {
        "Using the API key from your environment."@
    } else {
        "Sign in, or add an API key, to start dictating."@
    }
}

/// Heading for the active credential kind (`oauth`, `api_key`, `api_key_env`, else not set up).
pub fn active_auth_title(mode: &str) -> (s: &'static str)
    ensures
        s@ == auth_title(mode@),
{
    if str_eq(mode, "oauth") {
        "Signed in"
    } else if str_eq(mode, "api_key") {
        "API key (saved here)"
    } else if str_eq(mode, "api_key_env") {
        "API key (from environment)"
    } else {
        "Not set up yet"
    }
}

/// One-line explanation for the active credential kind.
pub fn active_auth_detail(mode: &str) -> (s: &'static str)
    ensures
        s@ == auth_detail(mode@),
{
    if str_eq(mode, "oauth") {
        "Using your plan for speech recognition."
    } else if str_eq(mode, "api_key") {
        "Using the API key saved on this computer."
    } else if str_eq(mode, "api_key_env") {
        "Using the API key from your environment."
    } else {
        "Sign in, or add an API key, to start dictating."
    }
}

/// Idle / first-run tray notification when nothing is configured.
pub fn setup_needed_notification_title() -> (s: &'static str)
    ensures
        s@ == "Set up speech access"@,
{
    "Set up speech access"
}

pub fn setup_needed_notification_body() -> (s: &'static str)
    ensures
        s@
            == "Sign in with SuperGrok or X Premium+ (cosmic-scribe --login), or add an API key in Settings."@,
{
    "Sign in with SuperGrok or X Premium+ (cosmic-scribe --login), or add an API key in Settings."
}

/// STT / re-transcribe error when no sign-in session and no key.
pub fn no_credentials_error() -> (s: &'static str)
    ensures
        s@ == "No speech credentials — run cosmic-scribe --login, or add an API key in Settings"@,
{
    "No speech credentials — run cosmic-scribe --login, or add an API key in Settings"
}

/// `--configure` banner: sign-in first, key second.
pub fn configure_auth_help() -> (s: &'static str)
    ensures
        s@
            == "  Sign in:  --login    SuperGrok / X Premium+ (ordinary path)\n  API key:  --set-key  (or paste in Settings)"@,
{
    "  Sign in:  --login    SuperGrok / X Premium+ (ordinary path)\n  API key:  --set-key  (or paste in Settings)"
}

/// First sign-in cue (`sign in`, else `--login`) in the lower-cased text.
pub open spec fn sign_in_cue(s: Seq<char>) -> Option<int> {
    match find(lower(s), "sign in"@) {
        Some(i) => Some(i),
        None => find(lower(s), "--login"@),
    }
}

/// First API-key cue (`api key`, else `--set-key`) in the lower-cased text.
pub open spec fn api_key_cue(s: Seq<char>) -> Option<int> {
    match find(lower(s), "api key"@) {
        Some(i) => Some(i),
        None => find(lower(s), "--set-key"@),
    }
}

fn first_of(h: &[char], a: &str, b: &str) -> (r: Option<usize>)
    ensures
        r matches Some(i) ==> (match find(h@, a@) {
            Some(j) => Some(j),
            None => find(h@, b@),
        }) == Some(i as int),
        r is None ==> (match find(h@, a@) {
            Some(j) => Some(j),
            None => find(h@, b@),
        }) is None,
{
    let av = chars_of(a);
    match find_chars(h, &av) {
        Some(i) => Some(i),
        None => {
            let bv = chars_of(b);
            find_chars(h, &bv)
        },
    }
}

/// True when a sign-in cue appears before an API-key cue (or only sign-in is present),
/// ignoring ASCII case.
pub fn sign_in_comes_before_api_key(s: &str) -> (r: bool)
    ensures
        r == match (sign_in_cue(s@), api_key_cue(s@)) {
            (Some(a), Some(b)) => a < b,
            (Some(_), None) => true,
            _ => false,
        },
{
    let v = chars_of(s);
    let low = to_ascii_lower(&v);
    let sign = first_of(&low, "sign in", "--login");
    let key = first_of(&low, "api key", "--set-key");
    match (sign, key) {
        (Some(a), Some(b)) => a < b,
        (Some(_), None) => true,
        _ => false,
    }
}

} // verus!
