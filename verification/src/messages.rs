//! Every message the shell prints, as verified string builders with exact
//! specifications, so the session loop around the library never composes
//! text of its own.
use vstd::prelude::*;

use crate::text::{dec_spec, digit_char, digit_char_x, push_char, u64_to_string};

verus! {

/// What `getenv` prints: `name=value` for a set variable, `name is not set`
/// otherwise.
pub open spec fn getenv_line_spec(name: Seq<char>, value: Option<Seq<char>>) -> Seq<char> {
    match value {
        Some(v) => name + "="@ + v,
        None => name + " is not set"@,
    }
}

/// Builds the `getenv` output line.
pub fn getenv_line(name: &str, value: Option<&str>) -> (r: String)
    ensures
        r@ == (match value {
            Some(v) => getenv_line_spec(name@, Some(v@)),
            None => getenv_line_spec(name@, None),
        }),
{
    let mut r = String::from_str(name);
    match value {
        Some(v) => {
            r.append("=");
            r.append(v);
        },
        None => {
            r.append(" is not set");
        },
    }
    r
}

/// What a successful `setenv` prints.
pub open spec fn setenv_line_spec(name: Seq<char>, value: Seq<char>) -> Seq<char> {
    "Set "@ + name + "="@ + value
}

/// Builds the `setenv` confirmation line.
pub fn setenv_line(name: &str, value: &str) -> (r: String)
    ensures
        r@ == setenv_line_spec(name@, value@),
{
    let mut r = String::from_str("Set ");
    r.append(name);
    r.append("=");
    r.append(value);
    r
}

/// What a successful `alias` prints.
pub open spec fn alias_set_line_spec(name: Seq<char>, value: Seq<char>) -> Seq<char> {
    "Alias set: "@ + name + "='"@ + value + "'"@
}

/// Builds the `alias` confirmation line.
pub fn alias_set_line(name: &str, value: &str) -> (r: String)
    ensures
        r@ == alias_set_line_spec(name@, value@),
{
    let mut r = String::from_str("Alias set: ");
    r.append(name);
    r.append("='");
    r.append(value);
    r.append("'");
    r
}

/// What a successful `setprompt` prints.
pub open spec fn setprompt_line_spec(symbol: Seq<char>) -> Seq<char> {
    "Prompt symbol set to '"@ + symbol + "'"@
}

/// Builds the `setprompt` confirmation line.
pub fn setprompt_line(symbol: &str) -> (r: String)
    ensures
        r@ == setprompt_line_spec(symbol@),
{
    let mut r = String::from_str("Prompt symbol set to '");
    r.append(symbol);
    r.append("'");
    r
}

/// What a failed `cd` prints, around the operating system's own message.
pub open spec fn cd_error_line_spec(err: Seq<char>) -> Seq<char> {
    "cd: "@ + err
}

/// Builds the `cd` failure line.
pub fn cd_error_line(err: &str) -> (r: String)
    ensures
        r@ == cd_error_line_spec(err@),
{
    let mut r = String::from_str("cd: ");
    r.append(err);
    r
}

/// What a failed spawn of an external command prints.
pub open spec fn exec_error_line_spec(err: Seq<char>) -> Seq<char> {
    "Error executing command: "@ + err
}

/// Builds the spawn-failure line.
pub fn exec_error_line(err: &str) -> (r: String)
    ensures
        r@ == exec_error_line_spec(err@),
{
    let mut r = String::from_str("Error executing command: ");
    r.append(err);
    r
}

/// What an unrecoverable line-reader failure prints, around the reader's
/// own message.
pub open spec fn reader_error_line_spec(err: Seq<char>) -> Seq<char> {
    "Error: "@ + err
}

/// Builds the reader-failure line.
pub fn reader_error_line(err: &str) -> (r: String)
    ensures
        r@ == reader_error_line_spec(err@),
{
    let mut r = String::from_str("Error: ");
    r.append(err);
    r
}

/// What a failed directory listing prints.
pub open spec fn ls_error_line_spec(err: Seq<char>) -> Seq<char> {
    "Error reading directory: "@ + err
}

/// Builds the directory-listing failure line.
pub fn ls_error_line(err: &str) -> (r: String)
    ensures
        r@ == ls_error_line_spec(err@),
{
    let mut r = String::from_str("Error reading directory: ");
    r.append(err);
    r
}

/// The name of the file the alias table is persisted to.
pub fn alias_file_name() -> (r: String)
    ensures
        r@ == "aliases.txt"@,
{
    String::from_str("aliases.txt")
}

/// The name of the file the input history is persisted to.
pub fn history_file_name() -> (r: String)
    ensures
        r@ == "history.txt"@,
{
    String::from_str("history.txt")
}

/// What a successful `save-aliases` prints.
pub fn save_ok_line() -> (r: String)
    ensures
        r@ == "Aliases saved to aliases.txt"@,
{
    String::from_str("Aliases saved to aliases.txt")
}

/// What a failed `save-aliases` prints.
pub fn save_failed_line() -> (r: String)
    ensures
        r@ == "Failed to save aliases."@,
{
    String::from_str("Failed to save aliases.")
}

/// What a successful `load-aliases` prints.
pub fn load_ok_line() -> (r: String)
    ensures
        r@ == "Aliases loaded from aliases.txt"@,
{
    String::from_str("Aliases loaded from aliases.txt")
}

/// What `load-aliases` prints when the file is missing.
pub fn load_missing_line() -> (r: String)
    ensures
        r@ == "No alias file found."@,
{
    String::from_str("No alias file found.")
}

/// What starting without a history file prints.
pub fn no_history_line() -> (r: String)
    ensures
        r@ == "No previous history."@,
{
    String::from_str("No previous history.")
}

/// What `whoami-shell` prints.
pub fn whoami_line() -> (r: String)
    ensures
        r@ == "🦀 You are running the custom Rust Shell!"@,
{
    String::from_str("🦀 You are running the custom Rust Shell!")
}

/// The banner printed at startup.
pub fn welcome_line() -> (r: String)
    ensures
        r@ == "\n\u{1b}[1;36m🦀 Welcome to your custom Rust Shell! 🦀\u{1b}[0m"@,
{
    String::from_str("\n\u{1b}[1;36m🦀 Welcome to your custom Rust Shell! 🦀\u{1b}[0m")
}

/// The line around the startup fact.
pub open spec fn fact_line_spec(fact: Seq<char>) -> Seq<char> {
    "\u{1b}[1;33m💡 Fun fact: "@ + fact + "\u{1b}[0m\n"@
}

/// Builds the startup fact line.
pub fn fact_line(fact: &str) -> (r: String)
    ensures
        r@ == fact_line_spec(fact@),
{
    let mut r = String::from_str("\u{1b}[1;33m💡 Fun fact: ");
    r.append(fact);
    r.append("\u{1b}[0m\n");
    r
}

/// The escape sequence that sets the terminal window title.
pub open spec fn window_title_spec(title: Seq<char>) -> Seq<char> {
    "\u{1b}]0;"@ + title + "\u{7}"@
}

/// Builds the window-title escape sequence.
pub fn window_title_seq(title: &str) -> (r: String)
    ensures
        r@ == window_title_spec(title@),
{
    let mut r = String::from_str("\u{1b}]0;");
    r.append(title);
    r.append("\u{7}");
    r
}

/// The static command reference `help` prints.
pub fn help_text() -> (r: String)
    ensures
        r@ == help_text_spec(),
{
    String::from_str(
        "Available commands:\n  ls                 List files in the current directory (with colors)\n  cd <dir>           Change current directory\n  setenv VAR VAL     Set environment variable\n  getenv VAR         Get environment variable\n  alias a=b          Set alias a for command b\n  save-aliases       Save current aliases to disk\n  load-aliases       Load aliases from disk\n  setprompt <sym>    Set custom prompt symbol\n  shellinfo          Show shell and system info\n  whoami-shell       Show shell identity\n  help               Show this help\n  exit               Exit the shell\n  Any other command is run in the system shell.",
    )
}

/// The text of the command reference.
pub open spec fn help_text_spec() -> Seq<char> {
    "Available commands:\n  ls                 List files in the current directory (with colors)\n  cd <dir>           Change current directory\n  setenv VAR VAL     Set environment variable\n  getenv VAR         Get environment variable\n  alias a=b          Set alias a for command b\n  save-aliases       Save current aliases to disk\n  load-aliases       Load aliases from disk\n  setprompt <sym>    Set custom prompt symbol\n  shellinfo          Show shell and system info\n  whoami-shell       Show shell identity\n  help               Show this help\n  exit               Exit the shell\n  Any other command is run in the system shell."@
}

/// What kind of directory entry a listing line describes.
#[derive(Clone, Copy, Debug, PartialEq, Eq, Structural)]
pub enum EntryKind {
    /// A directory: shown in blue with a trailing `/`.
    Directory,
    /// A file with an execute permission bit: shown in green.
    Executable,
    /// Any other plain file.
    Regular,
    /// Neither directory nor plain file: shown with a trailing `*`.
    Special,
    /// The entry's kind could not be read.
    Unknown,
}

/// The listing line for one directory entry.
pub open spec fn ls_entry_spec(name: Seq<char>, kind: EntryKind) -> Seq<char> {
    match kind {
        EntryKind::Directory => "\u{1b}[1;34m"@ + name + "/\u{1b}[0m"@,
        EntryKind::Executable => "\u{1b}[1;32m"@ + name + "\u{1b}[0m"@,
        EntryKind::Regular => name,
        EntryKind::Special => name + "*"@,
        EntryKind::Unknown => name,
    }
}

/// Builds the listing line for one directory entry.
pub fn ls_entry_line(name: &str, kind: EntryKind) -> (r: String)
    ensures
        r@ == ls_entry_spec(name@, kind),
{
    match kind {
        EntryKind::Directory => {
            let mut r = String::from_str("\u{1b}[1;34m");
            r.append(name);
            r.append("/\u{1b}[0m");
            r
        },
        EntryKind::Executable => {
            let mut r = String::from_str("\u{1b}[1;32m");
            r.append(name);
            r.append("\u{1b}[0m");
            r
        },
        EntryKind::Regular => String::from_str(name),
        EntryKind::Special => {
            let mut r = String::from_str(name);
            r.append("*");
            r
        },
        EntryKind::Unknown => String::from_str(name),
    }
}

/// The system summary `shellinfo` prints, from already gathered values
/// (memory in megabytes).
pub open spec fn shellinfo_spec(
    rust_version: Seq<char>,
    os_name: Seq<char>,
    os_version: Seq<char>,
    hostname: Seq<char>,
    total_mb: int,
    used_mb: int,
    cpus: int,
) -> Seq<char> {
    "🦀 Rust Shell Info:\n  Rust version: "@ + rust_version + "\n  OS: "@ + os_name + " "@
        + os_version + "\n  Hostname: "@ + hostname + "\n  Total memory: "@ + dec_spec(total_mb)
        + " MB\n  Used memory: "@ + dec_spec(used_mb) + " MB\n  CPUs: "@ + dec_spec(cpus)
}

/// Builds the `shellinfo` summary.
pub fn shellinfo_text(
    rust_version: &str,
    os_name: &str,
    os_version: &str,
    hostname: &str,
    total_mb: u64,
    used_mb: u64,
    cpus: u64,
) -> (r: String)
    ensures
        r@ == shellinfo_spec(
            rust_version@,
            os_name@,
            os_version@,
            hostname@,
            total_mb as int,
            used_mb as int,
            cpus as int,
        ),
{
    let mut r = String::from_str("🦀 Rust Shell Info:\n  Rust version: ");
    r.append(rust_version);
    r.append("\n  OS: ");
    r.append(os_name);
    r.append(" ");
    r.append(os_version);
    r.append("\n  Hostname: ");
    r.append(hostname);
    r.append("\n  Total memory: ");
    let t = u64_to_string(total_mb);
    r.append(t.as_str());
    r.append(" MB\n  Used memory: ");
    let u = u64_to_string(used_mb);
    r.append(u.as_str());
    r.append(" MB\n  CPUs: ");
    let c = u64_to_string(cpus);
    r.append(c.as_str());
    r
}

/// Two decimal digits, high digit first.
pub open spec fn frac2_spec(f: int) -> Seq<char> {
    seq![digit_char(f / 10), digit_char(f % 10)]
}

fn two_digits(f: u64) -> (r: String)
    requires
        f < 100,
    ensures
        r@ == frac2_spec(f as int),
{
    let mut r = String::new();
    push_char(&mut r, digit_char_x(f / 10));
    push_char(&mut r, digit_char_x(f % 10));
    proof {
        assert(r@ =~= frac2_spec(f as int));
    }
    r
}

/// A wall-clock duration in nanoseconds, rendered with the largest fitting
/// unit and two fractional digits (truncated) below seconds precision.
pub open spec fn duration_body_spec(n: int) -> Seq<char> {
    if n >= 1_000_000_000 {
        dec_spec(n / 1_000_000_000) + "."@ + frac2_spec((n % 1_000_000_000) / 10_000_000) + "s"@
    } else if n >= 1_000_000 {
        dec_spec(n / 1_000_000) + "."@ + frac2_spec((n % 1_000_000) / 10_000) + "ms"@
    } else if n >= 1_000 {
        dec_spec(n / 1_000) + "."@ + frac2_spec((n % 1_000) / 10) + "µs"@
    } else {
        dec_spec(n) + "ns"@
    }
}

/// The timing annotation printed after an external command.
pub open spec fn duration_line_spec(n: int) -> Seq<char> {
    "\u{1b}[1;36m[Command completed in "@ + duration_body_spec(n) + "]\u{1b}[0m"@
}

/// Builds the timing annotation for an elapsed wall-clock time in
/// nanoseconds.
pub fn duration_line(nanos: u64) -> (r: String)
    ensures
        r@ == duration_line_spec(nanos as int),
{
    let mut r = String::from_str("\u{1b}[1;36m[Command completed in ");
    if nanos >= 1_000_000_000 {
        let whole = u64_to_string(nanos / 1_000_000_000);
        r.append(whole.as_str());
        r.append(".");
        let frac = two_digits((nanos % 1_000_000_000) / 10_000_000);
        r.append(frac.as_str());
        r.append("s");
    } else if nanos >= 1_000_000 {
        let whole = u64_to_string(nanos / 1_000_000);
        r.append(whole.as_str());
        r.append(".");
        let frac = two_digits((nanos % 1_000_000) / 10_000);
        r.append(frac.as_str());
        r.append("ms");
    } else if nanos >= 1_000 {
        let whole = u64_to_string(nanos / 1_000);
        r.append(whole.as_str());
        r.append(".");
        let frac = two_digits((nanos % 1_000) / 10);
        r.append(frac.as_str());
        r.append("µs");
    } else {
        let whole = u64_to_string(nanos);
        r.append(whole.as_str());
        r.append("ns");
    }
    r.append("]\u{1b}[0m");
    r
}

} // verus!
