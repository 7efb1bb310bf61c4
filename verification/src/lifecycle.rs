//! Install locations, single-instance locks, daemon process list and install-source choice.
//!
//! Everything here decides from values the caller gathered (directories, lock-file contents,
//! whether files exist, `pgrep` output); the caller does the file and process work.
use vstd::prelude::*;
use crate::paths::{file_name_opt, join_path, join_path_str, parent_of, parent_str, file_name_str};
use crate::text::{chars_of, contains, contains_chars, decimal, first_line, first_line_chars,
    lines, lines_chars, parse_i32, parse_i32_chars, parse_u32, parse_u32_chars, push_char,
    starts_with, starts_with_chars, string_from, trim, trim_ws, u64_to_string};

verus! {

/// Name the application used before its rename.
pub open spec fn legacy_slug() -> Seq<char> {
    "voice-input"@
}

/// `dir` when known, else `/tmp` (the fallback for every missing base directory).
pub open spec fn base_or_tmp(dir: Option<Seq<char>>) -> Seq<char> {
    match dir {
        Some(d) => d,
        None => "/tmp"@,
    }
}

fn base_or_tmp_str(dir: Option<&str>) -> (s: String)
    ensures
        s@ == base_or_tmp(crate::keyring::opt_view(dir)),
{
    match dir {
        Some(d) => String::from_str(d),
        None => String::from_str("/tmp"),
    }
}

/// The application data directory under the local data directory (`None`: unknown).
pub fn data_dir(local_data_dir: Option<&str>) -> (p: String)
    ensures
        p@ == join_path(base_or_tmp(crate::keyring::opt_view(local_data_dir)), "cosmic-scribe"@),
{
    let base = base_or_tmp_str(local_data_dir);
    join_path_str(base.as_str(), "cosmic-scribe")
}

/// The data directory of the application's former name.
pub fn legacy_data_dir(local_data_dir: Option<&str>) -> (p: String)
    ensures
        p@ == join_path(base_or_tmp(crate::keyring::opt_view(local_data_dir)), legacy_slug()),
{
    let base = base_or_tmp_str(local_data_dir);
    join_path_str(base.as_str(), "voice-input")
}

/// The installed copy of the binary inside the data directory.
pub fn share_binary(data_dir: &str) -> (p: String)
    ensures
        p@ == join_path(data_dir@, "cosmic-scribe"@),
{
    join_path_str(data_dir, "cosmic-scribe")
}

/// The binary of the former name inside the current data directory.
pub fn legacy_share_binary_in_current_data_dir(data_dir: &str) -> (p: String)
    ensures
        p@ == join_path(data_dir@, legacy_slug()),
{
    join_path_str(data_dir, "voice-input")
}

/// The binary of the former name inside the former data directory.
pub fn legacy_share_binary(local_data_dir: Option<&str>) -> (p: String)
    ensures
        p@ == join_path(join_path(base_or_tmp(crate::keyring::opt_view(local_data_dir)), legacy_slug()), legacy_slug()),
{
    let d = legacy_data_dir(local_data_dir);
    join_path_str(d.as_str(), "voice-input")
}

/// `~/.local/bin/<name>` (with `/tmp` for an unknown home).
pub open spec fn local_bin(home: Option<Seq<char>>, name: Seq<char>) -> Seq<char> {
    join_path(join_path(base_or_tmp(home), ".local/bin"@), name)
}

fn local_bin_str(home: Option<&str>, name: &str) -> (p: String)
    ensures
        p@ == local_bin(crate::keyring::opt_view(home), name@),
{
    let base = base_or_tmp_str(home);
    let bin = join_path_str(base.as_str(), ".local/bin");
    join_path_str(bin.as_str(), name)
}

/// The `~/.local/bin/cosmic-scribe` command.
pub fn wrapper_binary(home: Option<&str>) -> (p: String)
    ensures
        p@ == local_bin(crate::keyring::opt_view(home), "cosmic-scribe"@),
{
    local_bin_str(home, "cosmic-scribe")
}

/// Binary used to spawn the daemon: the wrapper command when it exists, else the share copy.
pub fn daemon_binary(home: Option<&str>, data_dir: &str, wrapper_exists: bool) -> (p: String)
    ensures
        p@ == (if wrapper_exists {
            local_bin(crate::keyring::opt_view(home), "cosmic-scribe"@)
        } else {
            join_path(data_dir@, "cosmic-scribe"@)
        }),
{
    if wrapper_exists {
        wrapper_binary(home)
    } else {
        share_binary(data_dir)
    }
}

/// Where the GUI binary is installed (`debug` picks the debug build's name).
pub fn gui_binary_path(home: Option<&str>, debug: bool) -> (p: String)
    ensures
        p@ == local_bin(
            crate::keyring::opt_view(home),
            if debug { "cosmic-scribe-gui-debug"@ } else { "cosmic-scribe-gui"@ },
        ),
{
    let name = if debug { "cosmic-scribe-gui-debug" } else { "cosmic-scribe-gui" };
    local_bin_str(home, name)
}

/// The recordings directory: the override when one is set, else `recordings` in the data
/// directory.
pub fn recordings_dir(override_dir: Option<&str>, data_dir: &str) -> (p: String)
    ensures
        p@ == match crate::keyring::opt_view(override_dir) {
            Some(d) => d,
            None => join_path(data_dir@, "recordings"@),
        },
{
    match override_dir {
        Some(d) => String::from_str(d),
        None => join_path_str(data_dir, "recordings"),
    }
}

/// The GUI single-instance lock file.
pub fn gui_lock_path(data_dir: &str) -> (p: String)
    ensures
        p@ == join_path(data_dir@, "gui.lock"@),
{
    join_path_str(data_dir, "gui.lock")
}

/// The daemon single-instance lock file, in the runtime directory (`/tmp` when unset).
pub fn daemon_lock_path(runtime_dir: Option<&str>) -> (p: String)
    ensures
        p@ == join_path(base_or_tmp(crate::keyring::opt_view(runtime_dir)), "cosmic-scribe-daemon.lock"@),
{
    let base = base_or_tmp_str(runtime_dir);
    join_path_str(base.as_str(), "cosmic-scribe-daemon.lock")
}

/// The login-autostart entry in the config directory (`/tmp` when unknown).
pub fn autostart_desktop_file(config_dir: Option<&str>) -> (p: String)
    ensures
        p@ == join_path(join_path(base_or_tmp(crate::keyring::opt_view(config_dir)), "autostart"@), "cosmic-scribe.desktop"@),
{
    let base = base_or_tmp_str(config_dir);
    let a = join_path_str(base.as_str(), "autostart");
    join_path_str(a.as_str(), "cosmic-scribe.desktop")
}

/// The process id recorded in a lock file: its first line, trimmed, as a `u32`.
pub open spec fn lock_pid(contents: Seq<char>) -> Option<u32> {
    parse_u32(trim(first_line(contents)))
}

pub fn lock_holder(contents: &str) -> (r: Option<u32>)
    ensures
        r == lock_pid(contents@),
{
    let v = chars_of(contents);
    let l = first_line_chars(&v);
    let t = trim_ws(&l);
    parse_u32_chars(&t)
}

/// What a lock file holds for process `pid`.
pub fn lock_file_text(pid: u32) -> (s: String)
    ensures
        s@ == decimal(pid as nat).push('\n'),
{
    let mut s = u64_to_string(pid as u64);
    push_char(&mut s, '\n');
    s
}

/// Taking a single-instance lock: refused with the holder's pid while the process named in
/// the lock file is alive; otherwise the lock file is rewritten with `own_pid`.
pub open spec fn lock_outcome(holder: Option<u32>, holder_alive: bool, own_pid: u32) -> Result<Seq<char>, u32> {
    match holder {
        Some(p) if holder_alive => Err(p),
        _ => Ok(decimal(own_pid as nat).push('\n')),
    }
}

/// Whether the lock may be taken; `Ok` holds the text to write into the lock file.
pub fn lock_decision(holder: Option<u32>, holder_alive: bool, own_pid: u32) -> (r: Result<String, u32>)
    ensures
        match r {
            Ok(s) => lock_outcome(holder, holder_alive, own_pid) == Ok::<Seq<char>, u32>(s@),
            Err(p) => lock_outcome(holder, holder_alive, own_pid) == Err::<Seq<char>, u32>(p),
        },
{
    match holder {
        Some(p) => {
            if holder_alive {
                return Err(p);
            }
            Ok(lock_file_text(own_pid))
        },
        None => Ok(lock_file_text(own_pid)),
    }
}

/// The GUI lock (the debug build shares it with the release build); see [`lock_decision`].
pub fn try_acquire_gui_debug_lock(holder: Option<u32>, holder_alive: bool, own_pid: u32) -> (r: Result<String, u32>)
    ensures
        match r {
            Ok(s) => lock_outcome(holder, holder_alive, own_pid) == Ok::<Seq<char>, u32>(s@),
            Err(p) => lock_outcome(holder, holder_alive, own_pid) == Err::<Seq<char>, u32>(p),
        },
{
    lock_decision(holder, holder_alive, own_pid)
}

/// A lock file is removed on release only when it names this process.
pub fn release_allowed(contents: Option<&str>, own_pid: u32) -> (b: bool)
    ensures
        b == match crate::keyring::opt_view(contents) {
            Some(c) => lock_pid(c) == Some(own_pid),
            None => false,
        },
{
    match contents {
        Some(c) => match lock_holder(c) {
            Some(p) => p == own_pid,
            None => false,
        },
        None => false,
    }
}

/// Releasing the GUI lock (shared by the debug build): whether to remove the lock file.
pub fn release_gui_debug_lock(contents: Option<&str>, own_pid: u32) -> (b: bool)
    ensures
        b == match crate::keyring::opt_view(contents) {
            Some(c) => lock_pid(c) == Some(own_pid),
            None => false,
        },
{
    release_allowed(contents, own_pid)
}

/// The daemon's hold on its lock; the caller removes the lock file when it is dropped.
#[derive(Debug, Clone, Copy, PartialEq, Eq)]
pub struct DaemonLockGuard {
    pub pid: u32,
}

/// Takes the daemon lock for `own_pid`, or reports the live holder's pid.
pub fn try_acquire_daemon_lock(holder: Option<u32>, holder_alive: bool, own_pid: u32) -> (r: Result<DaemonLockGuard, u32>)
    ensures
        match r {
            Ok(g) => g.pid == own_pid && lock_outcome(holder, holder_alive, own_pid) is Ok,
            Err(p) => lock_outcome(holder, holder_alive, own_pid) == Err::<Seq<char>, u32>(p),
        },
{
    match lock_decision(holder, holder_alive, own_pid) {
        Ok(_) => Ok(DaemonLockGuard { pid: own_pid }),
        Err(p) => Err(p),
    }
}

} // verus!

verus! {

/// For a binary inside a `debug` build directory, the same-named release binary beside it:
/// `<dir>/debug/<bin>` gives `<dir>/release/cosmic-scribe`.
pub open spec fn sibling_release(current: Seq<char>) -> Option<Seq<char>> {
    match parent_of(current) {
        None => None,
        Some(parent) => if file_name_opt(parent) == Some("debug"@) {
            match parent_of(parent) {
                Some(grand) => Some(join_path(join_path(grand, "release"@), "cosmic-scribe"@)),
                None => None,
            }
        } else {
            None
        },
    }
}

pub fn sibling_release_path(current: &str) -> (r: Option<String>)
    ensures
        r matches Some(s) ==> sibling_release(current@) == Some(s@),
        r is None ==> sibling_release(current@) is None,
{
    let parent = match parent_str(current) {
        Some(p) => p,
        None => return None,
    };
    let name = match file_name_str(parent.as_str()) {
        Some(n) => n,
        None => return None,
    };
    if !crate::text::str_eq(name.as_str(), "debug") {
        return None;
    }
    let grand = match parent_str(parent.as_str()) {
        Some(g) => g,
        None => return None,
    };
    let rel = join_path_str(grand.as_str(), "release");
    Some(join_path_str(rel.as_str(), "cosmic-scribe"))
}

/// The release binary of the former name beside a debug build (same directory rules).
pub open spec fn legacy_sibling_release(current: Seq<char>) -> Option<Seq<char>> {
    match parent_of(current) {
        None => None,
        Some(parent) => match parent_of(parent) {
            Some(grand) => Some(join_path(join_path(grand, "release"@), legacy_slug())),
            None => None,
        },
    }
}

pub fn legacy_sibling_release_path(current: &str) -> (r: Option<String>)
    ensures
        r matches Some(s) ==> legacy_sibling_release(current@) == Some(s@),
        r is None ==> legacy_sibling_release(current@) is None,
{
    let parent = match parent_str(current) {
        Some(p) => p,
        None => return None,
    };
    let grand = match parent_str(parent.as_str()) {
        Some(g) => g,
        None => return None,
    };
    let rel = join_path_str(grand.as_str(), "release");
    Some(join_path_str(rel.as_str(), "voice-input"))
}

/// The release build to install instead of a running debug build: the release binary when
/// it is a file, else the one of the former name when that is a file.
pub open spec fn sibling_release_choice(current: Seq<char>, release_is_file: bool, legacy_is_file: bool) -> Option<Seq<char>> {
    match sibling_release(current) {
        None => None,
        Some(r) => if release_is_file {
            Some(r)
        } else if legacy_is_file {
            legacy_sibling_release(current)
        } else {
            None
        },
    }
}

pub fn sibling_release_binary(current: &str, release_is_file: bool, legacy_is_file: bool) -> (r: Option<String>)
    ensures
        r matches Some(s) ==> sibling_release_choice(current@, release_is_file, legacy_is_file) == Some(s@),
        r is None ==> sibling_release_choice(current@, release_is_file, legacy_is_file) is None,
{
    let release = match sibling_release_path(current) {
        Some(r) => r,
        None => return None,
    };
    if release_is_file {
        return Some(release);
    }
    if legacy_is_file {
        legacy_sibling_release_path(current)
    } else {
        None
    }
}

/// A path inside a `debug` build directory.
pub open spec fn debug_build_path(path: Seq<char>) -> bool {
    contains(path, "/target/debug/"@) || contains(path, "/debug/"@)
}

pub fn looks_like_debug_build(path: &str) -> (b: bool)
    ensures
        b == debug_build_path(path@),
{
    let v = chars_of(path);
    let a = chars_of("/target/debug/");
    let d = chars_of("/debug/");
    contains_chars(&v, &a) || contains_chars(&v, &d)
}

/// Whether file `a` was modified after file `b`; each time is in nanoseconds from the Unix
/// epoch, `None` when it could not be read (then the answer is no).
pub fn file_is_newer(a_modified: Option<i128>, b_modified: Option<i128>) -> (b: bool)
    ensures
        b == match (a_modified, b_modified) {
            (Some(ta), Some(tb)) => ta > tb,
            _ => false,
        },
{
    match (a_modified, b_modified) {
        (Some(ta), Some(tb)) => ta > tb,
        _ => false,
    }
}

/// The binary to install, and why it was picked.
#[derive(Debug, Clone, PartialEq, Eq)]
pub enum BinarySource {
    /// Named by the `--install-from=` / `--update-from=` argument.
    Flag(String),
    /// The release build beside the running debug build.
    Release(String),
    /// The `cargo install` binary.
    Cargo(String),
    /// The Homebrew binary.
    Brew(String),
    /// The running binary itself; `debug_warning` when it is a debug build.
    Current { path: String, debug_warning: bool },
}

/// What the caller found on this machine for the install-source choice.
#[derive(Debug, Clone)]
pub struct SourceFacts {
    /// The running executable.
    pub current: String,
    /// The release build beside it, when one is a file (see [`sibling_release_binary`]).
    pub release: Option<String>,
    /// The first `~/.cargo/bin` binary that is a file, and whether it is newer than `current`.
    pub cargo: Option<String>,
    pub cargo_newer: bool,
    /// The first Homebrew binary that is a file, and whether it is newer than `current`.
    pub brew: Option<String>,
    pub brew_newer: bool,
}

/// The argument value after `flag_prefix`, for the first argument that starts with it.
pub open spec fn flag_value(args: Seq<Seq<char>>, flag_prefix: Seq<char>) -> Option<Seq<char>>
    decreases args.len(),
{
    if args.len() == 0 {
        None
    } else if starts_with(args[0], flag_prefix) {
        Some(args[0].skip(flag_prefix.len() as int))
    } else {
        flag_value(args.drop_first(), flag_prefix)
    }
}

pub open spec fn string_views(args: Seq<String>) -> Seq<Seq<char>> {
    Seq::new(args.len(), |i: int| args[i]@)
}

pub fn binary_source_flag(args: &[String], flag_prefix: &str) -> (r: Option<String>)
    ensures
        r matches Some(s) ==> flag_value(string_views(args@), flag_prefix@) == Some(s@),
        r is None ==> flag_value(string_views(args@), flag_prefix@) is None,
{
    let p = chars_of(flag_prefix);
    let mut i: usize = 0;
    assert(string_views(args@).skip(0) =~= string_views(args@));
    while i < args.len()
        invariant
            i <= args@.len(),
            p@ == flag_prefix@,
            flag_value(string_views(args@), flag_prefix@) == flag_value(string_views(args@).skip(i as int), flag_prefix@),
        decreases args.len() - i,
    {
        let a = chars_of(args[i].as_str());
        assert(string_views(args@).skip(i as int)[0] == a@);
        assert(string_views(args@).skip(i as int).drop_first() =~= string_views(args@).skip(i + 1));
        if starts_with_chars(&a, flag_prefix) {
            let rest = crate::text::slice_chars(&a, p.len(), a.len());
            assert(rest@ =~= a@.skip(flag_prefix@.len() as int));
            return Some(string_from(&rest));
        }
        i += 1;
    }
    assert(string_views(args@).skip(i as int).len() == 0);
    None
}

/// The install source without a flag: the release build beside a debug build; the cargo
/// binary when running a debug build or when it is newer; the Homebrew binary when newer;
/// else the running binary, flagged when it is a debug build.
pub open spec fn source_choice(
    current: Seq<char>,
    release: Option<Seq<char>>,
    cargo: Option<Seq<char>>,
    cargo_newer: bool,
    brew: Option<Seq<char>>,
    brew_newer: bool,
) -> (Seq<char>, int) {
    if release is Some {
        (release->0, 1)
    } else if cargo is Some && (debug_build_path(current) || cargo_newer) {
        (cargo->0, 2)
    } else if brew is Some && brew_newer {
        (brew->0, 3)
    } else {
        (current, if debug_build_path(current) { 5 } else { 4 })
    }
}

/// A source's path and kind (0 flag, 1 release, 2 cargo, 3 Homebrew, 4 current, 5 current
/// debug build).
pub open spec fn source_model(s: BinarySource) -> (Seq<char>, int) {
    match s {
        BinarySource::Flag(p) => (p@, 0),
        BinarySource::Release(p) => (p@, 1),
        BinarySource::Cargo(p) => (p@, 2),
        BinarySource::Brew(p) => (p@, 3),
        BinarySource::Current { path, debug_warning } => (path@, if debug_warning { 5 } else { 4 }),
    }
}

pub open spec fn facts_choice(f: SourceFacts) -> (Seq<char>, int) {
    source_choice(
        f.current@,
        crate::api::opt_str(f.release),
        crate::api::opt_str(f.cargo),
        f.cargo_newer,
        crate::api::opt_str(f.brew),
        f.brew_newer,
    )
}

/// The install source never passes over a newer binary it found: a release build beside
/// the running one wins; else a cargo binary that is newer (or any, when running a debug
/// build); else a newer Homebrew binary; only then the running binary, flagged when it is a
/// debug build.
pub proof fn lemma_pick_prefers_newer(f: SourceFacts)
    ensures
        f.release matches Some(r) ==> facts_choice(f) == (r@, 1int),
        f.release is None ==> (f.cargo matches Some(c) ==> (f.cargo_newer || debug_build_path(f.current@))
            ==> facts_choice(f) == (c@, 2int)),
        f.release is None && !(f.cargo is Some && (f.cargo_newer || debug_build_path(f.current@))) ==> (
        f.brew matches Some(b) ==> f.brew_newer ==> facts_choice(f) == (b@, 3int)),
        facts_choice(f).1 >= 4 ==> facts_choice(f) == (f.current@, if debug_build_path(f.current@) { 5int } else { 4int })
            && f.release is None && !(f.cargo is Some && (f.cargo_newer || debug_build_path(f.current@)))
            && !(f.brew is Some && f.brew_newer),
{
}

pub fn pick_binary_source(facts: &SourceFacts) -> (r: BinarySource)
    ensures
        source_model(r) == facts_choice(*facts),
{
    if let Some(r) = &facts.release {
        return BinarySource::Release(r.clone());
    }
    let debug = looks_like_debug_build(facts.current.as_str());
    if let Some(c) = &facts.cargo {
        if debug || facts.cargo_newer {
            return BinarySource::Cargo(c.clone());
        }
    }
    if let Some(b) = &facts.brew {
        if facts.brew_newer {
            return BinarySource::Brew(b.clone());
        }
    }
    BinarySource::Current { path: facts.current.clone(), debug_warning: debug }
}

/// The binary to install from: the `--install-from=` argument, else [`pick_binary_source`].
pub fn resolve_install_source(args: &[String], facts: &SourceFacts) -> (r: BinarySource)
    ensures
        source_model(r) == match flag_value(string_views(args@), "--install-from="@) {
            Some(p) => (p, 0),
            None => facts_choice(*facts),
        },
{
    match binary_source_flag(args, "--install-from=") {
        Some(p) => BinarySource::Flag(p),
        None => pick_binary_source(facts),
    }
}

/// The binary to update from: the `--update-from=` argument, else [`pick_binary_source`].
pub fn resolve_update_source(args: &[String], facts: &SourceFacts) -> (r: BinarySource)
    ensures
        source_model(r) == match flag_value(string_views(args@), "--update-from="@) {
            Some(p) => (p, 0),
            None => facts_choice(*facts),
        },
{
    match binary_source_flag(args, "--update-from=") {
        Some(p) => BinarySource::Flag(p),
        None => pick_binary_source(facts),
    }
}

} // verus!

verus! {

/// Some line of `text`, trimmed, parses as the pid `x`.
pub open spec fn pid_in_output(text: Seq<char>, x: i32) -> bool {
    exists|j: int| 0 <= j < lines(text).len() && parse_i32(trim(#[trigger] lines(text)[j])) == Some(x)
}

/// `x` is a daemon pid listed in one of the `pgrep` outputs and is not this process.
pub open spec fn listed_pid(outputs: Seq<Seq<char>>, self_pid: i32, x: i32) -> bool {
    x != self_pid && exists|k: int| 0 <= k < outputs.len() && pid_in_output(#[trigger] outputs[k], x)
}

pub open spec fn strictly_increasing(s: Seq<i32>) -> bool {
    forall|a: int, b: int| 0 <= a < b < s.len() ==> s[a] < s[b]
}

proof fn lemma_insert_contains(s: Seq<i32>, p: int, x: i32)
    requires
        0 <= p <= s.len(),
    ensures
        forall|y: i32| s.insert(p, x).contains(y) <==> (s.contains(y) || y == x),
{
    let t = s.insert(p, x);
    assert forall|y: i32| t.contains(y) <==> (s.contains(y) || y == x) by {
        if t.contains(y) {
            let i = choose|i: int| 0 <= i < t.len() && t[i] == y;
            if i < p {
                assert(s[i] == y);
            } else if i > p {
                assert(s[i - 1] == y);
            }
        }
        if s.contains(y) {
            let i = choose|i: int| 0 <= i < s.len() && s[i] == y;
            if i < p {
                assert(t[i] == y);
            } else {
                assert(t[i + 1] == y);
            }
        }
        if y == x {
            assert(t[p] == x);
        }
    }
}

/// Adds `x` to a strictly increasing list unless it is there already.
fn insert_sorted_unique(v: &mut Vec<i32>, x: i32)
    requires
        strictly_increasing(old(v)@),
    ensures
        strictly_increasing(final(v)@),
        forall|y: i32| final(v)@.contains(y) <==> (old(v)@.contains(y) || y == x),
{
    let mut p: usize = 0;
    while p < v.len() && v[p] < x
        invariant
            p <= v@.len(),
            forall|k: int| 0 <= k < p ==> v@[k] < x,
        decreases v.len() - p,
    {
        p += 1;
    }
    if p < v.len() && v[p] == x {
        assert(v@[p as int] == x);
        assert(v@.contains(x));
        assert forall|y: i32| v@.contains(y) <==> (old(v)@.contains(y) || y == x) by {
            if y == x {
                assert(v@.contains(x));
            }
        }
        return;
    }
    let ghost old_v = v@;
    assert(old_v == old(v)@);
    v.insert(p, x);
    proof {
        assert forall|a: int, b: int| 0 <= a < b < v@.len() implies v@[a] < v@[b] by {
            if b < p as int {
                assert(old_v[a] < old_v[b]);
            } else if b == p as int {
            } else if a < p as int {
                assert(old_v[b - 1] >= x || p == old_v.len()) by {
                    if p < old_v.len() {
                        assert(old_v[p as int] > x);
                        if b - 1 > p as int {
                            assert(old_v[p as int] < old_v[b - 1]);
                        }
                    }
                }
            } else if a == p as int {
                assert(old_v[p as int] > x);
                if b - 1 > p as int {
                    assert(old_v[p as int] < old_v[b - 1]);
                }
            } else {
                assert(old_v[a - 1] < old_v[b - 1]);
            }
        }
        lemma_insert_contains(old_v, p as int, x);
    }
}

/// The daemon pids in the `pgrep` outputs, without this process, ascending and without
/// repeats.
pub fn daemon_pids_from(outputs: &[String], self_pid: i32) -> (r: Vec<i32>)
    ensures
        strictly_increasing(r@),
        forall|x: i32| r@.contains(x) <==> listed_pid(string_views(outputs@), self_pid, x),
{
    let ghost outs = string_views(outputs@);
    let mut res: Vec<i32> = Vec::new();
    let mut k: usize = 0;
    while k < outputs.len()
        invariant
            k <= outputs@.len(),
            outs == string_views(outputs@),
            strictly_increasing(res@),
            forall|y: i32| res@.contains(y) <==> (y != self_pid && exists|kk: int| 0 <= kk < k && pid_in_output(#[trigger] outs[kk], y)),
        decreases outputs.len() - k,
    {
        let text = chars_of(outputs[k].as_str());
        assert(text@ == outs[k as int]);
        let ls = lines_chars(&text);
        let mut j: usize = 0;
        while j < ls.len()
            invariant
                k < outputs@.len(),
                outs == string_views(outputs@),
                text@ == outs[k as int],
                ls@.len() == lines(text@).len(),
                forall|i: int| 0 <= i < ls@.len() ==> (#[trigger] ls@[i])@ == lines(text@)[i],
                j <= ls@.len(),
                strictly_increasing(res@),
                forall|y: i32| res@.contains(y) <==> (y != self_pid && (
                    (exists|kk: int| 0 <= kk < k && pid_in_output(#[trigger] outs[kk], y))
                    || (exists|jj: int| 0 <= jj < j && parse_i32(trim(#[trigger] lines(text@)[jj])) == Some(y)))),
            decreases ls.len() - j,
        {
            let t = trim_ws(&ls[j]);
            let parsed = parse_i32_chars(&t);
            let ghost old_res = res@;
            match parsed {
                Some(x) => {
                    if x != self_pid {
                        insert_sorted_unique(&mut res, x);
                    }
                },
                None => {},
            }
            proof {
                assert forall|y: i32| res@.contains(y) <==> (y != self_pid && (
                    (exists|kk: int| 0 <= kk < k && pid_in_output(#[trigger] outs[kk], y))
                    || (exists|jj: int| 0 <= jj < j + 1 && parse_i32(trim(#[trigger] lines(text@)[jj])) == Some(y)))) by {
                    if parse_i32(trim(lines(text@)[j as int])) == Some(y) && y != self_pid {
                        assert(res@.contains(y));
                    }
                    if exists|jj: int| 0 <= jj < j + 1 && parse_i32(trim(#[trigger] lines(text@)[jj])) == Some(y) {
                        let jj = choose|jj: int| 0 <= jj < j + 1 && parse_i32(trim(#[trigger] lines(text@)[jj])) == Some(y);
                        if jj < j {
                            assert(exists|jj2: int| 0 <= jj2 < j && parse_i32(trim(#[trigger] lines(text@)[jj2])) == Some(y));
                        }
                    }
                }
            }
            j += 1;
        }
        proof {
            assert forall|y: i32| res@.contains(y) <==> (y != self_pid && exists|kk: int| 0 <= kk < k + 1 && pid_in_output(#[trigger] outs[kk], y)) by {
                if exists|jj: int| 0 <= jj < j && parse_i32(trim(#[trigger] lines(text@)[jj])) == Some(y) {
                    assert(pid_in_output(outs[k as int], y));
                }
                if exists|kk: int| 0 <= kk < k + 1 && pid_in_output(#[trigger] outs[kk], y) {
                    let kk = choose|kk: int| 0 <= kk < k + 1 && pid_in_output(#[trigger] outs[kk], y);
                    if kk < k {
                        assert(exists|kk2: int| 0 <= kk2 < k && pid_in_output(#[trigger] outs[kk2], y));
                    } else {
                        assert(pid_in_output(outs[k as int], y));
                        let jj = choose|jj: int| 0 <= jj < lines(text@).len() && parse_i32(trim(#[trigger] lines(text@)[jj])) == Some(y);
                        assert(exists|jj2: int| 0 <= jj2 < j && parse_i32(trim(#[trigger] lines(text@)[jj2])) == Some(y));
                    }
                }
            }
        }
        k += 1;
    }
    res
}

/// Whether a daemon is running, given its pids.
pub fn is_daemon_running(pids: &[i32]) -> (b: bool)
    ensures
        b == (pids@.len() > 0),
{
    pids.len() > 0
}

} // verus!

verus! {

/// Files left behind by older installs, removed on install and uninstall when they exist:
/// the former wrapper, share binary, autostart entry and socket, the debug GUI binary, the
/// former binary in the current data directory, and two stale lock files.
pub open spec fn legacy_artifacts(
    home: Option<Seq<char>>,
    local_data_dir: Option<Seq<char>>,
    config_dir: Option<Seq<char>>,
    runtime_dir: Option<Seq<char>>,
    data_dir: Seq<char>,
) -> Seq<Seq<char>> {
    seq![
        local_bin(home, legacy_slug()),
        join_path(join_path(base_or_tmp(local_data_dir), legacy_slug()), legacy_slug()),
        join_path(join_path(base_or_tmp(config_dir), "autostart"@), "voice-input.desktop"@),
        join_path(base_or_tmp(runtime_dir), "voice-input.sock"@),
        local_bin(home, "cosmic-scribe-gui-debug"@),
        join_path(data_dir, legacy_slug()),
        join_path(data_dir, "ui-browser.lock"@),
        join_path(data_dir, "gui-debug.lock"@),
    ]
}

pub fn legacy_install_artifacts(
    home: Option<&str>,
    local_data_dir: Option<&str>,
    config_dir: Option<&str>,
    runtime_dir: Option<&str>,
    data_dir: &str,
) -> (r: Vec<String>)
    ensures
        r@.len() == 8,
        forall|i: int| 0 <= i < 8 ==> (#[trigger] r@[i])@ == legacy_artifacts(
            crate::keyring::opt_view(home),
            crate::keyring::opt_view(local_data_dir),
            crate::keyring::opt_view(config_dir),
            crate::keyring::opt_view(runtime_dir),
            data_dir@,
        )[i],
{
    let mut v: Vec<String> = Vec::new();
    v.push(local_bin_str(home, "voice-input"));
    v.push(legacy_share_binary(local_data_dir));
    let cfg = base_or_tmp_str(config_dir);
    let auto = join_path_str(cfg.as_str(), "autostart");
    v.push(join_path_str(auto.as_str(), "voice-input.desktop"));
    let run = base_or_tmp_str(runtime_dir);
    v.push(join_path_str(run.as_str(), "voice-input.sock"));
    v.push(local_bin_str(home, "cosmic-scribe-gui-debug"));
    v.push(legacy_share_binary_in_current_data_dir(data_dir));
    v.push(join_path_str(data_dir, "ui-browser.lock"));
    v.push(join_path_str(data_dir, "gui-debug.lock"));
    v
}

/// Where `cargo install` puts the binary, current name first.
pub fn cargo_binary_candidates(home: &str) -> (r: Vec<String>)
    ensures
        r@.len() == 2,
        r@[0]@ == join_path(join_path(home@, ".cargo/bin"@), "cosmic-scribe"@),
        r@[1]@ == join_path(join_path(home@, ".cargo/bin"@), legacy_slug()),
{
    let bin = join_path_str(home, ".cargo/bin");
    let mut v: Vec<String> = Vec::new();
    v.push(join_path_str(bin.as_str(), "cosmic-scribe"));
    v.push(join_path_str(bin.as_str(), "voice-input"));
    v
}

/// Where Homebrew puts the binary under its prefix, current name first.
pub fn brew_binary_candidates(prefix: &str) -> (r: Vec<String>)
    ensures
        r@.len() == 2,
        r@[0]@ == join_path(join_path(trim(prefix@), "bin"@), "cosmic-scribe"@),
        r@[1]@ == join_path(join_path(trim(prefix@), "bin"@), legacy_slug()),
{
    let p = crate::keyring::trimmed(prefix);
    let bin = join_path_str(p.as_str(), "bin");
    let mut v: Vec<String> = Vec::new();
    v.push(join_path_str(bin.as_str(), "cosmic-scribe"));
    v.push(join_path_str(bin.as_str(), "voice-input"));
    v
}

} // verus!

verus! {

/// A lock file written for a process names that process: taking the lock writes text from
/// which the holder is read back as `own_pid`, so that process (and only it) may release it.
pub proof fn lemma_lock_names_writer(holder: Option<u32>, holder_alive: bool, own_pid: u32)
    ensures
        lock_outcome(holder, holder_alive, own_pid) matches Ok(text) ==> lock_pid(text) == Some(own_pid),
{
    crate::text::lemma_parse_decimal(own_pid as u64);
}

/// Without a live holder the lock is always granted; with one it is always refused.
pub proof fn lemma_lock_granted_iff_no_live_holder(holder: Option<u32>, holder_alive: bool, own_pid: u32)
    ensures
        (lock_outcome(holder, holder_alive, own_pid) is Ok) <==> !(holder is Some && holder_alive),
{
}

} // verus!
