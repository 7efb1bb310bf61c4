//! User-facing CLI help.
use vstd::prelude::*;
use crate::text::{concat, push_str};

verus! {

/// Help text before the data directory name.
pub const USAGE_HEAD: &'static str = "Cosmic Scribe — speak, then the text is in the focused field\n\n  --help | -h         This help\n\nService (background daemon + tray):\n  --install            Stop daemon, install binary, enable systemd autostart, start\n  --install-from=PATH  Install from PATH (default: release/cargo if newer)\n  --update             Stop → install from this binary → start\n  --update-from=PATH   Same, but copy from PATH (e.g. new release build)\n  --start              Start daemon via systemd (or direct if not installed)\n  --stop | --quit      Stop daemon (tray goes away)\n  --restart            Stop then start daemon\n  --status             Running? installed path? IPC socket?\n  --uninstall          Stop daemon; remove ~/.local install + autostart\n  --purge              With --uninstall: also delete ~/.local/share/";

/// Help text after the data directory name.
pub const USAGE_TAIL: &'static str = "/\n  --daemon             Run in foreground (used by systemd unit; not for daily use)\n\nDictation:\n  --trigger            Toggle recording on running daemon\n  --cancel             Abort recording or STT (bind e.g. Ctrl+Shift+Space)\n  --record-once        Record, transcribe, insert text, exit\n  --file-input=<path>  Transcribe pre-recorded raw PCM\n\nSetup:\n  --login              Sign in (SuperGrok / X Premium+ plan access)\n  --logout             Sign out (API key left untouched)\n  --no-browser         With --login: print URL only (SSH/headless)\n  --configure          Interactive auth + language\n  --history            History window\n  --settings           Settings window\n  --autostart          Enable com.cosmic-scribe.service (graphical-session.target)\n  --set-key KEY        Store speech API key (or COSMIC_SCRIBE_API_KEY)\n  --clear-key          Remove stored API key\n  --set-lang LANG      Set speech language (default: en)\n\nSpeech endpoint (xAI dialect; see docs/STT_PROVIDERS.md):\n  COSMIC_SCRIBE_STT_URL  Full STT URL (default https://api.x.ai/v1/stt)\n";

/// The `--help` text: every flag, with sign-in (`--login`) as the ordinary setup path.
pub fn usage_text() -> (s: String)
    ensures
        s@ == USAGE_HEAD@ + "cosmic-scribe"@ + USAGE_TAIL@,
{
    let mut s = concat(String::from_str(USAGE_HEAD), crate::app_slug());
    push_str(&mut s, USAGE_TAIL);
    s
}

} // verus!
