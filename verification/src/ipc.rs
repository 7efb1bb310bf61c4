//! The daemon's one-line socket protocol: `TOGGLE` or `CANCEL`.
use vstd::prelude::*;
use crate::state::{Event, EventModel};
use crate::text::{chars_of, push_char, str_eq, trim, trim_ws, string_from};

verus! {

/// The daemon socket in the runtime directory (`/tmp` when unset).
pub fn socket_path(runtime_dir: Option<&str>) -> (p: String)
    ensures
        p@ == crate::paths::join_path(crate::lifecycle::base_or_tmp(crate::keyring::opt_view(runtime_dir)), "cosmic-scribe.sock"@),
{
    let base = match runtime_dir {
        Some(d) => String::from_str(d),
        None => String::from_str("/tmp"),
    };
    crate::paths::join_path_str(base.as_str(), "cosmic-scribe.sock")
}

/// The socket of the application's former name, tried second.
pub fn legacy_socket_path(runtime_dir: Option<&str>) -> (p: String)
    ensures
        p@ == crate::paths::join_path(crate::lifecycle::base_or_tmp(crate::keyring::opt_view(runtime_dir)), "voice-input.sock"@),
{
    let base = match runtime_dir {
        Some(d) => String::from_str(d),
        None => String::from_str("/tmp"),
    };
    crate::paths::join_path_str(base.as_str(), "voice-input.sock")
}

/// What a received line asks for: `TOGGLE` toggles, `CANCEL` cancels (surrounding
/// whitespace ignored); anything else is ignored.
pub fn ipc_event(line: &str) -> (r: Option<Event>)
    ensures
        trim(line@) == "TOGGLE"@ ==> (r matches Some(e) && e@ == EventModel::Toggle),
        trim(line@) == "CANCEL"@ ==> (r matches Some(e) && e@ == EventModel::Cancel),
        trim(line@) != "TOGGLE"@ && trim(line@) != "CANCEL"@ ==> r is None,
{
    let t = string_from(&trim_ws(&chars_of(line)));
    proof {
        reveal_strlit("TOGGLE");
        reveal_strlit("CANCEL");
        assert("TOGGLE"@ != "CANCEL"@) by {
            assert("TOGGLE"@[0] != "CANCEL"@[0]);
        }
    }
    if str_eq(t.as_str(), "TOGGLE") {
        Some(Event::Toggle)
    } else if str_eq(t.as_str(), "CANCEL") {
        Some(Event::Cancel)
    } else {
        None
    }
}

/// The line sent for a command.
pub fn command_line(cmd: &str) -> (s: String)
    ensures
        s@ == cmd@.push('\n'),
{
    let mut s = String::from_str(cmd);
    push_char(&mut s, '\n');
    s
}

/// The toggle command line.
pub fn send_toggle() -> (s: String)
    ensures
        s@ == "TOGGLE\n"@,
{
    proof {
        reveal_strlit("TOGGLE");
        reveal_strlit("TOGGLE\n");
    }
    command_line("TOGGLE")
}

/// The cancel command line.
pub fn send_cancel() -> (s: String)
    ensures
        s@ == "CANCEL\n"@,
{
    proof {
        reveal_strlit("CANCEL");
        reveal_strlit("CANCEL\n");
    }
    command_line("CANCEL")
}

} // verus!
