use vstd::prelude::*;

pub mod analytics;
pub mod app;
pub mod api;
pub mod audio;
pub mod audio_validation;
pub mod browser;
pub mod cli;
pub mod cli_help;
pub mod crypto;
pub mod injector;
pub mod ipc;
pub mod json;
pub mod keyring;
pub mod lifecycle;
pub mod logging;
pub mod models;
pub mod paths;
pub mod product_copy;
pub mod recording;
pub mod state;
pub mod stt;
pub mod text;
pub mod time;
pub mod traits;
pub mod tray;
pub mod tray_theme;
pub mod ux;
pub mod web;
pub mod xai_oauth;

verus! {

/// Short application name used for paths, sockets and binaries.
pub const APP_SLUG: &'static str = "cosmic-scribe";

/// Short application name used for paths, sockets and binaries.
pub fn app_slug() -> (s: &'static str)
    ensures
        s@ == "cosmic-scribe"@,
{
    proof {
        reveal_strlit("cosmic-scribe");
    }
    "cosmic-scribe"
}

} // verus!
