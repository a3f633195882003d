use rust_shell::prompt::prompt_text;
use rust_shell::session::{Effect, Session};

#[test]
fn new_session_defaults() {
    let s = Session::new();
    assert_eq!(s.prompt_symbol, "🦀");
    assert!(s.running);
}

#[test]
fn exit_stops_the_session() {
    let mut s = Session::new();
    let o = s.handle_line("exit");
    assert!(!s.running);
    assert!(o.message.is_none());
    assert!(matches!(o.effect, Effect::Quit));
}

#[test]
fn empty_line_is_a_no_op() {
    let mut s = Session::new();
    let o = s.handle_line("   ");
    assert_eq!(o.echo, "");
    assert!(o.message.is_none());
    assert!(matches!(o.effect, Effect::NoEffect));
    assert!(s.running);
}

#[test]
fn echo_is_the_trimmed_line() {
    let mut s = Session::new();
    let o = s.handle_line("  ls  ");
    assert_eq!(o.echo, "ls");
    assert!(matches!(o.effect, Effect::ListDir));
}

#[test]
fn help_prints_the_reference() {
    let mut s = Session::new();
    let o = s.handle_line("help");
    let text = o.message.expect("help prints");
    assert!(text.starts_with("Available commands:"));
    assert!(text.ends_with("Any other command is run in the system shell."));
}

#[test]
fn setenv_sets_and_confirms() {
    let mut s = Session::new();
    let o = s.handle_line("setenv FOO bar");
    assert_eq!(o.message.as_deref(), Some("Set FOO=bar"));
    match o.effect {
        Effect::SetVar { name, value } => {
            assert_eq!(name, "FOO");
            assert_eq!(value, "bar");
        },
        _ => panic!("expected a set-variable effect"),
    }
}

#[test]
fn setenv_usage_when_short() {
    let mut s = Session::new();
    let o = s.handle_line("setenv FOO");
    assert_eq!(o.message.as_deref(), Some("Usage: setenv VAR VALUE"));
    assert!(matches!(o.effect, Effect::NoEffect));
}

#[test]
fn getenv_queries_the_environment() {
    let mut s = Session::new();
    let o = s.handle_line("getenv FOO");
    assert!(o.message.is_none());
    match o.effect {
        Effect::QueryVar { name } => assert_eq!(name, "FOO"),
        _ => panic!("expected a query effect"),
    }
    let o2 = s.handle_line("getenv");
    assert_eq!(o2.message.as_deref(), Some("Usage: getenv VAR"));
}

#[test]
fn cd_delegates_and_keeps_session_state() {
    let mut s = Session::new();
    let before_symbol = s.prompt_symbol.clone();
    let o = s.handle_line("cd /nonexistent");
    match o.effect {
        Effect::ChangeDir { dir } => assert_eq!(dir, "/nonexistent"),
        _ => panic!("expected a change-directory effect"),
    }
    assert!(o.message.is_none());
    assert_eq!(s.prompt_symbol, before_symbol);
    assert!(s.running);
    let cwd = "/home/user";
    let prompt_before = prompt_text(&before_symbol, cwd, None);
    let prompt_after = prompt_text(&s.prompt_symbol, cwd, None);
    assert_eq!(prompt_before, prompt_after);
}

#[test]
fn cd_usage_when_missing_argument() {
    let mut s = Session::new();
    let o = s.handle_line("cd");
    assert_eq!(o.message.as_deref(), Some("Usage: cd <directory>"));
    assert!(matches!(o.effect, Effect::NoEffect));
}

#[test]
fn alias_sets_and_expands() {
    let mut s = Session::new();
    let o = s.handle_line("alias ll=ls -la");
    assert_eq!(o.message.as_deref(), Some("Alias set: ll='ls -la'"));
    assert!(matches!(o.effect, Effect::NoEffect));
    let o2 = s.handle_line("ll");
    assert!(matches!(o2.effect, Effect::ListDir));
    let direct = s.handle_line("ls -la");
    assert!(matches!(direct.effect, Effect::ListDir));
    s.handle_line("alias gs=git status");
    let o4 = s.handle_line("gs");
    match o4.effect {
        Effect::RunExternal { command } => assert_eq!(command, "git status"),
        _ => panic!("expected an external command"),
    }
    let o3 = s.handle_line("ll extra");
    match o3.effect {
        Effect::RunExternal { command } => assert_eq!(command, "ll extra"),
        _ => panic!("expected an external command"),
    }
}

#[test]
fn alias_usage_lines() {
    let mut s = Session::new();
    let o = s.handle_line("alias");
    assert_eq!(o.message.as_deref(), Some("Usage: alias name=command"));
    let o2 = s.handle_line("alias broken");
    assert_eq!(o2.message.as_deref(), Some("Usage: alias name=command"));
}

#[test]
fn setprompt_changes_the_symbol() {
    let mut s = Session::new();
    let o = s.handle_line("setprompt >");
    assert_eq!(o.message.as_deref(), Some("Prompt symbol set to '>'"));
    assert_eq!(s.prompt_symbol, ">");
    let o2 = s.handle_line("setprompt");
    assert_eq!(o2.message.as_deref(), Some("Usage: setprompt <symbol>"));
}

#[test]
fn whoami_prints_identity() {
    let mut s = Session::new();
    let o = s.handle_line("whoami-shell");
    assert_eq!(o.message.as_deref(), Some("🦀 You are running the custom Rust Shell!"));
}

#[test]
fn unknown_command_goes_to_the_host_shell() {
    let mut s = Session::new();
    let o = s.handle_line("echo hello");
    assert!(o.message.is_none());
    match o.effect {
        Effect::RunExternal { command } => assert_eq!(command, "echo hello"),
        _ => panic!("expected an external command"),
    }
}

#[test]
fn save_aliases_writes_the_rendered_table() {
    let mut s = Session::new();
    s.handle_line("alias ll=ls -la");
    let o = s.handle_line("save-aliases");
    match o.effect {
        Effect::WriteAliasFile { contents } => assert_eq!(contents, "ll=ls -la\n"),
        _ => panic!("expected a write effect"),
    }
}

#[test]
fn repeated_save_writes_identical_bytes() {
    let mut s = Session::new();
    s.handle_line("alias ll=ls -la");
    let first = match s.handle_line("save-aliases").effect {
        Effect::WriteAliasFile { contents } => contents,
        _ => panic!("expected a write effect"),
    };
    let second = match s.handle_line("save-aliases").effect {
        Effect::WriteAliasFile { contents } => contents,
        _ => panic!("expected a write effect"),
    };
    assert_eq!(first, second);
}

#[test]
fn load_aliases_requests_the_file() {
    let mut s = Session::new();
    let o = s.handle_line("load-aliases");
    assert!(o.message.is_none());
    assert!(matches!(o.effect, Effect::ReadAliasFile));
}

#[test]
fn saved_aliases_work_in_a_new_session() {
    let mut first = Session::new();
    first.handle_line("alias ll=ls -la");
    let contents = match first.handle_line("save-aliases").effect {
        Effect::WriteAliasFile { contents } => contents,
        _ => panic!("expected a write effect"),
    };
    let mut second = Session::new();
    second.absorb_alias_text(&contents);
    let via_alias = second.handle_line("ll");
    let direct = second.handle_line("ls -la");
    assert!(matches!(via_alias.effect, Effect::ListDir));
    assert!(matches!(direct.effect, Effect::ListDir));
}

#[test]
fn saved_external_alias_delegates_in_a_new_session() {
    let mut first = Session::new();
    first.handle_line("alias gs=git status");
    let contents = match first.handle_line("save-aliases").effect {
        Effect::WriteAliasFile { contents } => contents,
        _ => panic!("expected a write effect"),
    };
    let mut second = Session::new();
    second.absorb_alias_text(&contents);
    let via_alias = match second.handle_line("gs").effect {
        Effect::RunExternal { command } => command,
        _ => panic!("expected an external command"),
    };
    let direct = match second.handle_line("git status").effect {
        Effect::RunExternal { command } => command,
        _ => panic!("expected an external command"),
    };
    assert_eq!(via_alias, direct);
    assert_eq!(via_alias, "git status");
}
