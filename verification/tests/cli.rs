use cosmic_scribe::cli::{cli_action, env_compat, CliAction};
use cosmic_scribe::cli_help::usage_text;

fn args(v: &[&str]) -> Vec<String> {
    v.iter().map(|s| s.to_string()).collect()
}

#[test]
fn help_documents_login_as_ordinary_path() {
    let t = usage_text();
    assert!(t.contains("--login"));
    assert!(t.contains("SuperGrok"));
    assert!(t.contains("X Premium+"));
    assert!(t.contains("--help"));
    assert!(t.contains("--cancel"));
}

#[test]
fn cli_actions_follow_flag_priority() {
    assert_eq!(cli_action(&args(&["prog"])), CliAction::Usage);
    assert_eq!(cli_action(&args(&["prog", "--login", "--no-browser"])), CliAction::Login { open_browser: false });
    assert_eq!(cli_action(&args(&["prog", "--login"])), CliAction::Login { open_browser: true });
    assert_eq!(cli_action(&args(&["prog", "--set-key", "abc"])), CliAction::SetKey("abc".into()));
    assert_eq!(cli_action(&args(&["prog", "--set-key"])), CliAction::SetKey("".into()));
    assert_eq!(cli_action(&args(&["prog", "--install-from=/x/y"])), CliAction::Install);
    assert_eq!(cli_action(&args(&["prog", "--quit"])), CliAction::Stop);
    assert_eq!(cli_action(&args(&["prog", "--uninstall", "--purge"])), CliAction::Uninstall { purge: true });
    assert_eq!(cli_action(&args(&["prog", "--ui-server"])), CliAction::UiServer { start_path: "/".into() });
    assert_eq!(cli_action(&args(&["prog", "--ui-server", "--path=/settings"])), CliAction::UiServer { start_path: "/settings".into() });
    assert_eq!(cli_action(&args(&["prog", "--file-input=a.raw"])), CliAction::FileInput("a.raw".into()));
    assert_eq!(cli_action(&args(&["prog", "--daemon", "--trigger"])), CliAction::Trigger);
    assert_eq!(cli_action(&args(&["prog", "--daemon"])), CliAction::Daemon);
}

#[test]
fn env_compat_prefers_new_name() {
    assert_eq!(env_compat(Some("a"), Some("b")), Some("a".to_string()));
    assert_eq!(env_compat(None, Some("b")), Some("b".to_string()));
    assert_eq!(env_compat(None, None), None);
}
