use rust_shell::alias::AliasTable;
use rust_shell::router::{route, Directive};

#[test]
fn routes_plain_builtins() {
    assert!(matches!(route("exit"), Directive::Exit));
    assert!(matches!(route("help"), Directive::Help));
    assert!(matches!(route("ls"), Directive::Ls));
    assert!(matches!(route("save-aliases"), Directive::SaveAliases));
    assert!(matches!(route("load-aliases"), Directive::LoadAliases));
    assert!(matches!(route("shellinfo"), Directive::ShellInfo));
    assert!(matches!(route("whoami-shell"), Directive::Whoami));
}

#[test]
fn routes_empty_and_blank() {
    assert!(matches!(route(""), Directive::Empty));
    assert!(matches!(route("   \t  "), Directive::Empty));
}

#[test]
fn routes_cd() {
    match route("cd /tmp") {
        Directive::Cd { dir } => assert_eq!(dir, "/tmp"),
        _ => panic!("expected cd"),
    }
    assert!(matches!(route("cd"), Directive::CdUsage));
}

#[test]
fn routes_setenv() {
    match route("setenv FOO bar baz") {
        Directive::SetEnv { name, value } => {
            assert_eq!(name, "FOO");
            assert_eq!(value, "bar");
        },
        _ => panic!("expected setenv"),
    }
    assert!(matches!(route("setenv FOO"), Directive::SetEnvUsage));
    assert!(matches!(route("setenv"), Directive::SetEnvUsage));
}

#[test]
fn routes_getenv() {
    match route("getenv FOO") {
        Directive::GetEnv { name } => assert_eq!(name, "FOO"),
        _ => panic!("expected getenv"),
    }
    assert!(matches!(route("getenv"), Directive::GetEnvUsage));
}

#[test]
fn routes_alias_with_spaced_value() {
    match route("alias ll=ls -la") {
        Directive::Alias { name, value } => {
            assert_eq!(name, "ll");
            assert_eq!(value, "ls -la");
        },
        _ => panic!("expected alias"),
    }
}

#[test]
fn routes_alias_trims_sides() {
    match route("alias  greet = echo hi ") {
        Directive::Alias { name, value } => {
            assert_eq!(name, "greet");
            assert_eq!(value, "echo hi");
        },
        _ => panic!("expected alias"),
    }
}

#[test]
fn routes_alias_usage() {
    assert!(matches!(route("alias"), Directive::AliasUsage));
    assert!(matches!(route("alias noequals"), Directive::AliasUsage));
}

#[test]
fn routes_setprompt() {
    match route("setprompt >") {
        Directive::SetPrompt { symbol } => assert_eq!(symbol, ">"),
        _ => panic!("expected setprompt"),
    }
    assert!(matches!(route("setprompt"), Directive::SetPromptUsage));
}

#[test]
fn routes_unknown_to_external() {
    match route("echo hello") {
        Directive::External { command } => assert_eq!(command, "echo hello"),
        _ => panic!("expected external"),
    }
}

#[test]
fn builtin_name_with_arguments_still_routes_to_the_builtin() {
    assert!(matches!(route("ls -la"), Directive::Ls));
    assert!(matches!(route("exit now"), Directive::Exit));
}

#[test]
fn expansion_then_routing_is_deterministic() {
    let mut t = AliasTable::new();
    t.set("ll", "ls -la");
    let expanded = t.expand("ll");
    assert_eq!(expanded, "ls -la");
    assert!(matches!(route(&expanded), Directive::Ls));
    t.set("gs", "git status");
    match route(&t.expand("gs")) {
        Directive::External { command } => assert_eq!(command, "git status"),
        _ => panic!("expected external"),
    }
    let untouched = t.expand("ll extra");
    assert_eq!(untouched, "ll extra");
    match route(&untouched) {
        Directive::External { command } => assert_eq!(command, "ll extra"),
        _ => panic!("expected external"),
    }
}
