//! Text output settings: `wtype` typing delay and arguments, and the clipboard tool.
use vstd::prelude::*;
use crate::text::{chars_of, decimal, parse_u64, parse_u64_chars, u64_to_string};

verus! {

/// Types text into the focused window (`wtype`) after copying it to the clipboard.
#[derive(Debug, Clone, Copy, PartialEq, Eq)]
pub struct WaylandInjector;

/// Delay between typed keys (`COSMIC_SCRIBE_WTYPE_DELAY_MS`, default 0).
pub fn wtype_delay_ms(setting: Option<&str>) -> (ms: u64)
    ensures
        ms == match crate::keyring::opt_view(setting) {
            Some(v) => match parse_u64(v) {
                Some(x) => x,
                None => 0,
            },
            None => 0,
        },
{
    match setting {
        Some(v) => match parse_u64_chars(&chars_of(v)) {
            Some(x) => x,
            None => 0,
        },
        None => 0,
    }
}

/// The `wtype` arguments for `text`: `-d <delay>` when there is a delay, then `--` and the
/// text.
pub fn wtype_args(delay_ms: u64, text: &str) -> (args: Vec<String>)
    ensures
        delay_ms > 0 ==> args@.len() == 4 && args@[0]@ == "-d"@ && args@[1]@ == decimal(delay_ms as nat)
            && args@[2]@ == "--"@ && args@[3]@ == text@,
        delay_ms == 0 ==> args@.len() == 2 && args@[0]@ == "--"@ && args@[1]@ == text@,
{
    let mut args: Vec<String> = Vec::new();
    if delay_ms > 0 {
        args.push(String::from_str("-d"));
        args.push(u64_to_string(delay_ms));
    }
    args.push(String::from_str("--"));
    args.push(String::from_str(text));
    args
}

/// The clipboard tool: `wl-copy` on Wayland, else `xclip -selection clipboard`.
pub fn clipboard_command(wayland: bool) -> (r: (&'static str, Vec<&'static str>))
    ensures
        wayland ==> r.0@ == "wl-copy"@ && r.1@.len() == 0,
        !wayland ==> r.0@ == "xclip"@ && r.1@.len() == 2 && r.1@[0]@ == "-selection"@ && r.1@[1]@ == "clipboard"@,
{
    if wayland {
        ("wl-copy", Vec::new())
    } else {
        let mut a: Vec<&'static str> = Vec::new();
        a.push("-selection");
        a.push("clipboard");
        ("xclip", a)
    }
}

} // verus!
