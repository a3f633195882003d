use rust_shell::facts::{fact_count, fun_fact, startup_fact};
use rust_shell::messages::{
    alias_file_name, alias_set_line, cd_error_line, duration_line, exec_error_line, fact_line,
    getenv_line, help_text, history_file_name, load_missing_line, load_ok_line, ls_entry_line,
    ls_error_line, no_history_line, reader_error_line, save_failed_line, save_ok_line,
    setenv_line, setprompt_line, shellinfo_text, welcome_line, whoami_line, window_title_seq,
    EntryKind,
};
use rust_shell::prompt::prompt_text;
use rust_shell::text::{space_char, str_eq, tokenize, trim, u64_to_string};

#[test]
fn getenv_lines() {
    assert_eq!(getenv_line("FOO", Some("bar")), "FOO=bar");
    assert_eq!(getenv_line("FOO", None), "FOO is not set");
}

#[test]
fn confirmation_lines() {
    assert_eq!(setenv_line("FOO", "bar"), "Set FOO=bar");
    assert_eq!(alias_set_line("ll", "ls -la"), "Alias set: ll='ls -la'");
    assert_eq!(setprompt_line(">"), "Prompt symbol set to '>'");
}

#[test]
fn error_lines() {
    assert_eq!(cd_error_line("No such file or directory (os error 2)"),
        "cd: No such file or directory (os error 2)");
    assert_eq!(exec_error_line("spawn failed"), "Error executing command: spawn failed");
    assert_eq!(reader_error_line("Io(Kind(BrokenPipe))"), "Error: Io(Kind(BrokenPipe))");
    assert_eq!(ls_error_line("denied"), "Error reading directory: denied");
}

#[test]
fn static_lines() {
    assert_eq!(alias_file_name(), "aliases.txt");
    assert_eq!(history_file_name(), "history.txt");
    assert_eq!(save_ok_line(), "Aliases saved to aliases.txt");
    assert_eq!(save_failed_line(), "Failed to save aliases.");
    assert_eq!(load_ok_line(), "Aliases loaded from aliases.txt");
    assert_eq!(load_missing_line(), "No alias file found.");
    assert_eq!(no_history_line(), "No previous history.");
    assert_eq!(whoami_line(), "🦀 You are running the custom Rust Shell!");
    assert_eq!(welcome_line(), "\n\u{1b}[1;36m🦀 Welcome to your custom Rust Shell! 🦀\u{1b}[0m");
}

#[test]
fn fact_and_title_lines() {
    assert_eq!(fact_line("Cargo is great."), "\u{1b}[1;33m💡 Fun fact: Cargo is great.\u{1b}[0m\n");
    assert_eq!(window_title_seq("Rust Shell 🦀"), "\u{1b}]0;Rust Shell 🦀\u{7}");
}

#[test]
fn help_text_is_the_command_reference() {
    let h = help_text();
    assert!(h.starts_with("Available commands:\n  ls"));
    assert!(h.contains("\n  exit               Exit the shell\n"));
    assert_eq!(h.lines().count(), 14);
}

#[test]
fn decimal_rendering() {
    assert_eq!(u64_to_string(0), "0");
    assert_eq!(u64_to_string(7), "7");
    assert_eq!(u64_to_string(42), "42");
    assert_eq!(u64_to_string(1234567890), "1234567890");
    assert_eq!(u64_to_string(u64::MAX), "18446744073709551615");
}

#[test]
fn duration_lines_pick_the_unit() {
    assert_eq!(duration_line(999), "\u{1b}[1;36m[Command completed in 999ns]\u{1b}[0m");
    assert_eq!(duration_line(1_000), "\u{1b}[1;36m[Command completed in 1.00µs]\u{1b}[0m");
    assert_eq!(duration_line(12_345), "\u{1b}[1;36m[Command completed in 12.34µs]\u{1b}[0m");
    assert_eq!(duration_line(1_234_567), "\u{1b}[1;36m[Command completed in 1.23ms]\u{1b}[0m");
    assert_eq!(duration_line(1_234_567_890), "\u{1b}[1;36m[Command completed in 1.23s]\u{1b}[0m");
    assert_eq!(duration_line(61_000_000_000), "\u{1b}[1;36m[Command completed in 61.00s]\u{1b}[0m");
}

#[test]
fn shellinfo_summary() {
    let text = shellinfo_text("1.75.0", "Linux", "6.1", "box", 16000, 8000, 8);
    assert_eq!(
        text,
        "🦀 Rust Shell Info:\n  Rust version: 1.75.0\n  OS: Linux 6.1\n  Hostname: box\n  Total memory: 16000 MB\n  Used memory: 8000 MB\n  CPUs: 8"
    );
}

#[test]
fn ls_entry_lines_by_kind() {
    assert_eq!(ls_entry_line("src", EntryKind::Directory), "\u{1b}[1;34msrc/\u{1b}[0m");
    assert_eq!(ls_entry_line("run.sh", EntryKind::Executable), "\u{1b}[1;32mrun.sh\u{1b}[0m");
    assert_eq!(ls_entry_line("notes.txt", EntryKind::Regular), "notes.txt");
    assert_eq!(ls_entry_line("pipe", EntryKind::Special), "pipe*");
    assert_eq!(ls_entry_line("odd", EntryKind::Unknown), "odd");
}

#[test]
fn prompt_with_and_without_branch() {
    let plain = prompt_text("🦀", "/home/user", None);
    assert_eq!(plain, "\u{1}\u{1b}[1;32m\u{2}🦀 RUST-SHELL [/home/user]\u{1}\u{1b}[0m\u{2}> ");
    let branched = prompt_text(">", "/src", Some("main"));
    assert_eq!(
        branched,
        "\u{1}\u{1b}[1;32m\u{2}> RUST-SHELL [/src]\u{1}\u{1b}[0m\u{2}\u{1}\u{1b}[1;35m\u{2}[main]\u{1}\u{1b}[0m\u{2}> "
    );
}

#[test]
fn facts_are_fixed_and_startup_picks_one() {
    assert_eq!(fact_count(), 5);
    assert!(fun_fact(2).contains("Ferris"));
    let all: Vec<String> = (0..5).map(fun_fact).collect();
    for _ in 0..20 {
        let f = startup_fact();
        assert!(all.contains(&f));
    }
}

#[test]
fn text_helpers() {
    assert_eq!(trim("  a b  "), "a b");
    assert_eq!(trim("\u{a0}x\u{a0}"), "x");
    assert_eq!(trim(""), "");
    assert_eq!(trim("   "), "");
    assert!(space_char(' '));
    assert!(space_char('\u{3000}'));
    assert!(!space_char('a'));
    assert!(str_eq("abc", "abc"));
    assert!(!str_eq("abc", "abd"));
    assert!(!str_eq("abc", "ab"));
    assert_eq!(tokenize("  one   two\tthree "), vec!["one", "two", "three"]);
    assert_eq!(tokenize(""), Vec::<String>::new());
}
