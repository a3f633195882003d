use rust_shell::alias::AliasTable;

#[test]
fn set_and_lookup() {
    let mut t = AliasTable::new();
    t.set("ll", "ls -la");
    assert_eq!(t.lookup("ll"), Some("ls -la".to_string()));
    assert_eq!(t.lookup("lll"), None);
}

#[test]
fn set_trims_both_sides() {
    let mut t = AliasTable::new();
    t.set("  ll  ", "  ls -la  ");
    assert_eq!(t.lookup("ll"), Some("ls -la".to_string()));
}

#[test]
fn last_set_wins() {
    let mut t = AliasTable::new();
    t.set("ll", "ls -l");
    t.set("ll", "ls -la");
    assert_eq!(t.lookup("ll"), Some("ls -la".to_string()));
    assert_eq!(t.len(), 1);
}

#[test]
fn serialize_one_pair_per_line() {
    let mut t = AliasTable::new();
    t.set("ll", "ls -la");
    t.set("gs", "git status");
    assert_eq!(t.serialize(), "ll=ls -la\ngs=git status\n");
}

#[test]
fn round_trip_restores_table() {
    let mut t = AliasTable::new();
    t.set("ll", "ls -la");
    t.set("cfg", "env FOO=bar make");
    t.set("gs", "git status");
    let text = t.serialize();
    let mut back = AliasTable::new();
    back.absorb_text(&text);
    assert_eq!(back.len(), 3);
    assert_eq!(back.lookup("ll"), Some("ls -la".to_string()));
    assert_eq!(back.lookup("cfg"), Some("env FOO=bar make".to_string()));
    assert_eq!(back.lookup("gs"), Some("git status".to_string()));
    assert_eq!(back.serialize(), text);
}

#[test]
fn value_keeps_later_equals_signs() {
    let mut t = AliasTable::new();
    t.absorb_text("v=a=b=c\n");
    assert_eq!(t.lookup("v"), Some("a=b=c".to_string()));
}

#[test]
fn absorb_skips_lines_without_equals() {
    let mut t = AliasTable::new();
    t.absorb_text("no equals here\nx=1\n\nplain\n");
    assert_eq!(t.len(), 1);
    assert_eq!(t.lookup("x"), Some("1".to_string()));
}

#[test]
fn absorb_trims_and_merges() {
    let mut t = AliasTable::new();
    t.set("keep", "me");
    t.absorb_text("  a  =  b  \nkeep=new\n");
    assert_eq!(t.lookup("a"), Some("b".to_string()));
    assert_eq!(t.lookup("keep"), Some("new".to_string()));
    assert_eq!(t.len(), 2);
}

#[test]
fn absorb_handles_missing_final_newline() {
    let mut t = AliasTable::new();
    t.absorb_text("a=1\nb=2");
    assert_eq!(t.lookup("a"), Some("1".to_string()));
    assert_eq!(t.lookup("b"), Some("2".to_string()));
}

#[test]
fn serialize_is_deterministic() {
    let mut t = AliasTable::new();
    t.set("ll", "ls -la");
    t.set("gs", "git status");
    let first = t.serialize();
    let second = t.serialize();
    assert_eq!(first, second);
}

#[test]
fn expand_exact_match_only() {
    let mut t = AliasTable::new();
    t.set("ll", "ls -la");
    assert_eq!(t.expand("ll"), "ls -la");
    assert_eq!(t.expand("  ll  "), "ls -la");
    assert_eq!(t.expand("ll extra"), "ll extra");
    assert_eq!(t.expand("other"), "other");
}
