//! Light/dark panel detection for the tray icon, from the desktop portal and `gsettings`.
use vstd::prelude::*;
use crate::text::{chars_of, contains, contains_chars, lower, str_eq, trim};

verus! {

/// The portal's `org.freedesktop.appearance` `color-scheme` value: 1 dark, 2 light,
/// anything else (0 default, or not a `u32`) no preference.
pub fn portal_scheme_to_dark(value: Option<u32>) -> (r: Option<bool>)
    ensures
        r == match value {
            Some(1) => Some(true),
            Some(2) => Some(false),
            _ => None::<bool>,
        },
{
    match value {
        Some(1) => Some(true),
        Some(2) => Some(false),
        _ => None,
    }
}

/// `s` without its leading `'` characters.
pub open spec fn strip_quotes_start(s: Seq<char>) -> Seq<char>
    decreases s.len(),
{
    if s.len() > 0 && s[0] == '\'' { strip_quotes_start(s.drop_first()) } else { s }
}

/// `s` without its trailing `'` characters.
pub open spec fn strip_quotes_end(s: Seq<char>) -> Seq<char>
    decreases s.len(),
{
    if s.len() > 0 && s.last() == '\'' { strip_quotes_end(s.drop_last()) } else { s }
}

/// A `gsettings get` value as text: trimmed, then `trim_matches('\'')`.
pub open spec fn gsettings_value(out: Seq<char>) -> Seq<char> {
    strip_quotes_end(strip_quotes_start(trim(out)))
}

fn strip_quotes(v: &[char]) -> (r: Vec<char>)
    ensures
        r@ == strip_quotes_end(strip_quotes_start(v@)),
{
    let mut a: usize = 0;
    assert(v@.skip(0) =~= v@);
    while a < v.len() && v[a] == '\''
        invariant
            a <= v@.len(),
            strip_quotes_start(v@) == strip_quotes_start(v@.skip(a as int)),
        decreases v.len() - a,
    {
        assert(v@.skip(a as int).drop_first() =~= v@.skip(a + 1));
        a += 1;
    }
    assert(strip_quotes_start(v@.skip(a as int)) == v@.skip(a as int));
    let mut b: usize = v.len();
    assert(v@.subrange(a as int, b as int) =~= v@.skip(a as int));
    while b > a && v[b - 1] == '\''
        invariant
            a <= b <= v@.len(),
            strip_quotes_end(v@.skip(a as int)) == strip_quotes_end(v@.subrange(a as int, b as int)),
        decreases b - a,
    {
        assert(v@.subrange(a as int, b as int).drop_last() =~= v@.subrange(a as int, b - 1));
        b -= 1;
    }
    assert(strip_quotes_end(v@.subrange(a as int, b as int)) == v@.subrange(a as int, b as int));
    crate::text::slice_chars(v, a, b)
}

fn gsettings_value_chars(out: &str) -> (r: Vec<char>)
    ensures
        r@ == gsettings_value(out@),
{
    let t = crate::text::trim_ws(&chars_of(out));
    strip_quotes(&t)
}

/// The `color-scheme` preference from `gsettings get org.gnome.desktop.interface
/// color-scheme` output (`None` when the command failed): `prefer-dark` or `prefer-light`,
/// else no preference.
pub open spec fn scheme_preference(out: Option<Seq<char>>) -> Option<bool> {
    match out {
        Some(o) => {
            let v = gsettings_value(o);
            if v == "prefer-dark"@ {
                Some(true)
            } else if v == "prefer-light"@ {
                Some(false)
            } else {
                None
            }
        },
        None => None,
    }
}

pub fn color_scheme_preference(out: Option<&str>) -> (r: Option<bool>)
    ensures
        r == scheme_preference(crate::keyring::opt_view(out)),
{
    match out {
        Some(o) => {
            let v = gsettings_value_chars(o);
            let s = crate::text::string_from(&v);
            if str_eq(s.as_str(), "prefer-dark") {
                Some(true)
            } else if str_eq(s.as_str(), "prefer-light") {
                Some(false)
            } else {
                None
            }
        },
        None => None,
    }
}

/// Whether the GTK theme name (from `gsettings get ... gtk-theme`, `None` when the command
/// failed) suggests a dark panel: a failed probe or a name with `dark` says yes; a name with
/// `light`, or plain `adwaita`, says no; any other name says yes.
pub open spec fn gtk_theme_dark(out: Option<Seq<char>>) -> bool {
    match out {
        Some(o) => {
            let t = lower(gsettings_value(o));
            contains(t, "dark"@) || !(contains(t, "light"@) || t == "adwaita"@)
        },
        None => true,
    }
}

pub fn gtk_theme_implies_dark(out: Option<&str>) -> (b: bool)
    ensures
        b == gtk_theme_dark(crate::keyring::opt_view(out)),
{
    match out {
        Some(o) => {
            let v = gsettings_value_chars(o);
            let t = crate::text::to_ascii_lower(&v);
            let dark = chars_of("dark");
            let light = chars_of("light");
            let s = crate::text::string_from(&t);
            contains_chars(&t, &dark) || !(contains_chars(&t, &light) || str_eq(s.as_str(), "adwaita"))
        },
        None => true,
    }
}

/// Whether the panel is dark: the `color-scheme` preference when there is one, else the GTK
/// theme hint. `gtk_theme_out` is consulted only without a preference.
pub fn ui_prefers_dark(color_scheme_out: Option<&str>, gtk_theme_out: Option<&str>) -> (b: bool)
    ensures
        b == match scheme_preference(crate::keyring::opt_view(color_scheme_out)) {
            Some(d) => d,
            None => gtk_theme_dark(crate::keyring::opt_view(gtk_theme_out)),
        },
{
    match color_scheme_preference(color_scheme_out) {
        Some(d) => d,
        None => gtk_theme_implies_dark(gtk_theme_out),
    }
}

/// The last light/dark value the tray was told about.
#[derive(Debug, Clone, Copy, PartialEq, Eq)]
pub struct ThemeTracker {
    pub last_dark_ui: bool,
}

impl ThemeTracker {
    /// Starts out assuming a dark panel.
    pub fn new() -> (t: ThemeTracker)
        ensures
            t.last_dark_ui,
    {
        ThemeTracker { last_dark_ui: true }
    }

    /// Records `dark_ui`; true when it differs from the last value (the tray must redraw).
    pub fn notify_theme_change(&mut self, dark_ui: bool) -> (changed: bool)
        ensures
            final(self).last_dark_ui == dark_ui,
            changed == (old(self).last_dark_ui != dark_ui),
    {
        let prev = self.last_dark_ui;
        self.last_dark_ui = dark_ui;
        prev != dark_ui
    }
}

/// A portal `SettingChanged` signal about the colour scheme.
pub fn is_color_scheme_signal(namespace: &str, key: &str) -> (b: bool)
    ensures
        b == (namespace@ == "org.freedesktop.appearance"@ && key@ == "color-scheme"@),
{
    str_eq(namespace, "org.freedesktop.appearance") && str_eq(key, "color-scheme")
}

/// A `gsettings monitor` line about the colour scheme or the GTK theme.
pub fn is_theme_monitor_line(line: &str) -> (b: bool)
    ensures
        b == (contains(line@, "color-scheme"@) || contains(line@, "gtk-theme"@)),
{
    let l = chars_of(line);
    let a = chars_of("color-scheme");
    let g = chars_of("gtk-theme");
    contains_chars(&l, &a) || contains_chars(&l, &g)
}

} // verus!
