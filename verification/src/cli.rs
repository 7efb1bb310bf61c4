//! Command-line actions: which one a list of arguments asks for, in the order the program
//! checks them.
use vstd::prelude::*;
use crate::lifecycle::{flag_value, string_views, binary_source_flag};
use crate::text::str_eq;

verus! {

#[derive(Debug, Clone, PartialEq, Eq)]
pub enum CliAction {
    Login { open_browser: bool },
    Logout,
    SetKey(String),
    ClearKey,
    SetLang(String),
    Trigger,
    Cancel,
    Uninstall { purge: bool },
    Install,
    Update,
    Stop,
    Start,
    Restart,
    Status,
    PruneJunkRecordings,
    Autostart,
    History,
    Settings,
    UiServer { start_path: String },
    Configure,
    RecordOnce,
    FileInput(String),
    Daemon,
    Usage,
}

/// Some argument is exactly `flag`.
pub open spec fn has_arg(args: Seq<Seq<char>>, flag: Seq<char>) -> bool {
    exists|i: int| 0 <= i < args.len() && args[i] == flag
}

/// Some argument starts with `prefix`.
pub open spec fn has_prefix_arg(args: Seq<Seq<char>>, prefix: Seq<char>) -> bool {
    flag_value(args, prefix) is Some
}

/// Index of the first argument equal to `flag`, or -1.
pub open spec fn first_arg_index(args: Seq<Seq<char>>, flag: Seq<char>) -> int
    decreases args.len(),
{
    if args.len() == 0 {
        -1
    } else if args[0] == flag {
        0
    } else {
        let r = first_arg_index(args.drop_first(), flag);
        if r < 0 { -1 } else { r + 1 }
    }
}

/// The argument after the first `flag` (empty when there is none).
pub open spec fn value_after(args: Seq<Seq<char>>, flag: Seq<char>) -> Seq<char> {
    let i = first_arg_index(args, flag);
    if i >= 0 && i + 1 < args.len() { args[i + 1] } else { seq![] }
}

/// The action for `args`: the first of these checks that matches.
pub open spec fn action_of(a: Seq<Seq<char>>) -> (int, Seq<char>, bool) {
    if has_arg(a, "--login"@) {
        (0, seq![], !has_arg(a, "--no-browser"@))
    } else if has_arg(a, "--logout"@) {
        (1, seq![], false)
    } else if has_arg(a, "--set-key"@) {
        (2, value_after(a, "--set-key"@), false)
    } else if has_arg(a, "--clear-key"@) {
        (3, seq![], false)
    } else if has_arg(a, "--set-lang"@) {
        (4, value_after(a, "--set-lang"@), false)
    } else if has_arg(a, "--trigger"@) {
        (5, seq![], false)
    } else if has_arg(a, "--cancel"@) {
        (6, seq![], false)
    } else if has_arg(a, "--uninstall"@) {
        (7, seq![], has_arg(a, "--purge"@))
    } else if has_arg(a, "--install"@) || has_prefix_arg(a, "--install-from="@) {
        (8, seq![], false)
    } else if has_arg(a, "--update"@) || has_prefix_arg(a, "--update-from="@) {
        (9, seq![], false)
    } else if has_arg(a, "--stop"@) || has_arg(a, "--quit"@) {
        (10, seq![], false)
    } else if has_arg(a, "--start"@) {
        (11, seq![], false)
    } else if has_arg(a, "--restart"@) {
        (12, seq![], false)
    } else if has_arg(a, "--status"@) {
        (13, seq![], false)
    } else if has_arg(a, "--prune-junk-recordings"@) {
        (14, seq![], false)
    } else if has_arg(a, "--autostart"@) {
        (15, seq![], false)
    } else if has_arg(a, "--history"@) {
        (16, seq![], false)
    } else if has_arg(a, "--settings"@) {
        (17, seq![], false)
    } else if has_arg(a, "--ui-server"@) {
        (18, match flag_value(a, "--path="@) {
            Some(p) => p,
            None => "/"@,
        }, false)
    } else if has_arg(a, "--configure"@) {
        (19, seq![], false)
    } else if has_arg(a, "--record-once"@) {
        (20, seq![], false)
    } else if has_prefix_arg(a, "--file-input="@) {
        (21, flag_value(a, "--file-input="@)->Some_0, false)
    } else if has_arg(a, "--daemon"@) {
        (22, seq![], false)
    } else {
        (23, seq![], false)
    }
}

/// An action as (kind, text, flag), numbered in the order of [`CliAction`]'s variants.
pub open spec fn action_model(c: CliAction) -> (int, Seq<char>, bool) {
    match c {
        CliAction::Login { open_browser } => (0, seq![], open_browser),
        CliAction::Logout => (1, seq![], false),
        CliAction::SetKey(k) => (2, k@, false),
        CliAction::ClearKey => (3, seq![], false),
        CliAction::SetLang(l) => (4, l@, false),
        CliAction::Trigger => (5, seq![], false),
        CliAction::Cancel => (6, seq![], false),
        CliAction::Uninstall { purge } => (7, seq![], purge),
        CliAction::Install => (8, seq![], false),
        CliAction::Update => (9, seq![], false),
        CliAction::Stop => (10, seq![], false),
        CliAction::Start => (11, seq![], false),
        CliAction::Restart => (12, seq![], false),
        CliAction::Status => (13, seq![], false),
        CliAction::PruneJunkRecordings => (14, seq![], false),
        CliAction::Autostart => (15, seq![], false),
        CliAction::History => (16, seq![], false),
        CliAction::Settings => (17, seq![], false),
        CliAction::UiServer { start_path } => (18, start_path@, false),
        CliAction::Configure => (19, seq![], false),
        CliAction::RecordOnce => (20, seq![], false),
        CliAction::FileInput(p) => (21, p@, false),
        CliAction::Daemon => (22, seq![], false),
        CliAction::Usage => (23, seq![], false),
    }
}

/// Whether some argument is exactly `flag`.
pub fn has_flag(args: &[String], flag: &str) -> (b: bool)
    ensures
        b == has_arg(string_views(args@), flag@),
{
    let ghost a = string_views(args@);
    let mut i: usize = 0;
    while i < args.len()
        invariant
            a == string_views(args@),
            i <= args@.len(),
            forall|k: int| 0 <= k < i ==> a[k] != flag@,
        decreases args.len() - i,
    {
        if str_eq(args[i].as_str(), flag) {
            assert(a[i as int] == flag@);
            return true;
        }
        i += 1;
    }
    false
}

/// The argument after the first `flag`, empty when there is none.
pub fn arg_after(args: &[String], flag: &str) -> (s: String)
    ensures
        s@ == value_after(string_views(args@), flag@),
{
    let ghost a = string_views(args@);
    let mut i: usize = 0;
    assert(a.skip(0) =~= a);
    while i < args.len()
        invariant
            a == string_views(args@),
            i <= args@.len(),
            forall|k: int| 0 <= k < i ==> a[k] != flag@,
            first_arg_index(a, flag@) == (if first_arg_index(a.skip(i as int), flag@) < 0 { -1 } else { first_arg_index(a.skip(i as int), flag@) + i }),
        decreases args.len() - i,
    {
        assert(a.skip(i as int)[0] == a[i as int]);
        assert(a.skip(i as int).drop_first() =~= a.skip(i + 1));
        if str_eq(args[i].as_str(), flag) {
            if i + 1 < args.len() {
                return args[i + 1].clone();
            } else {
                return String::new();
            }
        }
        i += 1;
    }
    String::new()
}

/// The action a command line asks for.
pub fn cli_action(args: &[String]) -> (c: CliAction)
    ensures
        action_model(c) == action_of(string_views(args@)),
{
    if has_flag(args, "--login") {
        return CliAction::Login { open_browser: !has_flag(args, "--no-browser") };
    }
    if has_flag(args, "--logout") {
        return CliAction::Logout;
    }
    if has_flag(args, "--set-key") {
        return CliAction::SetKey(arg_after(args, "--set-key"));
    }
    if has_flag(args, "--clear-key") {
        return CliAction::ClearKey;
    }
    if has_flag(args, "--set-lang") {
        return CliAction::SetLang(arg_after(args, "--set-lang"));
    }
    if has_flag(args, "--trigger") {
        return CliAction::Trigger;
    }
    if has_flag(args, "--cancel") {
        return CliAction::Cancel;
    }
    if has_flag(args, "--uninstall") {
        return CliAction::Uninstall { purge: has_flag(args, "--purge") };
    }
    if has_flag(args, "--install") || binary_source_flag(args, "--install-from=").is_some() {
        return CliAction::Install;
    }
    if has_flag(args, "--update") || binary_source_flag(args, "--update-from=").is_some() {
        return CliAction::Update;
    }
    if has_flag(args, "--stop") || has_flag(args, "--quit") {
        return CliAction::Stop;
    }
    if has_flag(args, "--start") {
        return CliAction::Start;
    }
    if has_flag(args, "--restart") {
        return CliAction::Restart;
    }
    if has_flag(args, "--status") {
        return CliAction::Status;
    }
    if has_flag(args, "--prune-junk-recordings") {
        return CliAction::PruneJunkRecordings;
    }
    if has_flag(args, "--autostart") {
        return CliAction::Autostart;
    }
    if has_flag(args, "--history") {
        return CliAction::History;
    }
    if has_flag(args, "--settings") {
        return CliAction::Settings;
    }
    if has_flag(args, "--ui-server") {
        let p = match binary_source_flag(args, "--path=") {
            Some(p) => p,
            None => String::from_str("/"),
        };
        return CliAction::UiServer { start_path: p };
    }
    if has_flag(args, "--configure") {
        return CliAction::Configure;
    }
    if has_flag(args, "--record-once") {
        return CliAction::RecordOnce;
    }
    if let Some(p) = binary_source_flag(args, "--file-input=") {
        return CliAction::FileInput(p);
    }
    if has_flag(args, "--daemon") {
        return CliAction::Daemon;
    }
    CliAction::Usage
}

/// `COSMIC_SCRIBE_*` setting with the former `VOICE_INPUT_*` name as fallback.
pub fn env_compat(primary: Option<&str>, legacy: Option<&str>) -> (r: Option<String>)
    ensures
        r matches Some(s) ==> (primary matches Some(p) && s@ == p@) || (primary is None && (legacy matches Some(l) && s@ == l@)),
        r is None ==> primary is None && legacy is None,
{
    match primary {
        Some(p) => Some(String::from_str(p)),
        None => match legacy {
            Some(l) => Some(String::from_str(l)),
            None => None,
        },
    }
}

} // verus!
