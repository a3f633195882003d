//! The command router: classifies one (already alias-expanded) input line
//! as empty, one of the built-in commands — with their argument checks — or
//! a delegation to the host shell.
use vstd::prelude::*;

use crate::text::{
    first_token_bounds, rest_after_cmd, split_eq_spec, split_first_eq, str_eq, tokenize, tokens,
    trim, trim_spec,
};

verus! {

/// The mathematical form of a routed line.
pub enum Route {
    /// Blank input: nothing happens.
    Empty,
    /// `exit`: the session ends.
    Exit,
    /// `help`: the command reference is printed.
    Help,
    /// `ls`: the current directory is listed.
    Ls,
    /// `cd <dir>`: the working directory changes.
    Cd { dir: Seq<char> },
    /// `cd` without a directory.
    CdUsage,
    /// `setenv VAR VALUE`: an environment variable is set.
    SetEnv { name: Seq<char>, value: Seq<char> },
    /// `setenv` with fewer than two arguments.
    SetEnvUsage,
    /// `getenv VAR`: an environment variable is printed.
    GetEnv { name: Seq<char> },
    /// `getenv` without an argument.
    GetEnvUsage,
    /// `alias name=value`: an alias is stored.
    Alias { name: Seq<char>, value: Seq<char> },
    /// `alias` without a `name=value` argument.
    AliasUsage,
    /// `save-aliases`: the alias table is persisted.
    SaveAliases,
    /// `load-aliases`: the alias file is read back in.
    LoadAliases,
    /// `setprompt <symbol>`: the prompt symbol changes.
    SetPrompt { symbol: Seq<char> },
    /// `setprompt` without an argument.
    SetPromptUsage,
    /// `shellinfo`: the system summary is printed.
    ShellInfo,
    /// `whoami-shell`: the identity line is printed.
    Whoami,
    /// Anything else: the whole line goes to the host shell.
    External { command: Seq<char> },
}

/// What the `alias` argument routes to: the text after the command name,
/// trimmed, split at its first `=`, both sides trimmed.
pub open spec fn alias_route_spec(line: Seq<char>) -> Route {
    let def = trim_spec(rest_after_cmd(line));
    if def.len() == 0 {
        Route::AliasUsage
    } else {
        match split_eq_spec(def) {
            Some((k, v)) => Route::Alias { name: trim_spec(k), value: trim_spec(v) },
            None => Route::AliasUsage,
        }
    }
}

/// How one input line routes.
pub open spec fn route_spec(line: Seq<char>) -> Route {
    let toks = tokens(line);
    if toks.len() == 0 {
        Route::Empty
    } else if toks[0] == "exit"@ {
        Route::Exit
    } else if toks[0] == "help"@ {
        Route::Help
    } else if toks[0] == "ls"@ {
        Route::Ls
    } else if toks[0] == "cd"@ {
        if toks.len() >= 2 {
            Route::Cd { dir: toks[1] }
        } else {
            Route::CdUsage
        }
    } else if toks[0] == "setenv"@ {
        if toks.len() >= 3 {
            Route::SetEnv { name: toks[1], value: toks[2] }
        } else {
            Route::SetEnvUsage
        }
    } else if toks[0] == "getenv"@ {
        if toks.len() >= 2 {
            Route::GetEnv { name: toks[1] }
        } else {
            Route::GetEnvUsage
        }
    } else if toks[0] == "alias"@ {
        alias_route_spec(line)
    } else if toks[0] == "save-aliases"@ {
        Route::SaveAliases
    } else if toks[0] == "load-aliases"@ {
        Route::LoadAliases
    } else if toks[0] == "setprompt"@ {
        if toks.len() >= 2 {
            Route::SetPrompt { symbol: toks[1] }
        } else {
            Route::SetPromptUsage
        }
    } else if toks[0] == "shellinfo"@ {
        Route::ShellInfo
    } else if toks[0] == "whoami-shell"@ {
        Route::Whoami
    } else {
        Route::External { command: line }
    }
}

/// Law: a non-blank line whose first token names no built-in command is
/// delegated whole, unchanged, to the host shell.
pub proof fn lemma_unknown_delegation(line: Seq<char>)
    requires
        tokens(line).len() > 0,
        tokens(line)[0] != "exit"@,
        tokens(line)[0] != "help"@,
        tokens(line)[0] != "ls"@,
        tokens(line)[0] != "cd"@,
        tokens(line)[0] != "setenv"@,
        tokens(line)[0] != "getenv"@,
        tokens(line)[0] != "alias"@,
        tokens(line)[0] != "save-aliases"@,
        tokens(line)[0] != "load-aliases"@,
        tokens(line)[0] != "setprompt"@,
        tokens(line)[0] != "shellinfo"@,
        tokens(line)[0] != "whoami-shell"@,
    ensures
        route_spec(line) == (Route::External { command: line }),
{
}

/// The two sides an `alias` argument routes to are already trimmed.
pub proof fn lemma_route_alias_trimmed(line: Seq<char>)
    ensures
        (match route_spec(line) {
            Route::Alias { name, value } => trim_spec(name) == name && trim_spec(value) == value,
            _ => true,
        }),
{
    let def = trim_spec(rest_after_cmd(line));
    match split_eq_spec(def) {
        Some((k, v)) => {
            crate::text::lemma_trim_idempotent(k);
            crate::text::lemma_trim_idempotent(v);
        },
        None => {},
    }
}

/// The routed form of one input line, carrying its argument strings.
pub enum Directive {
    Empty,
    Exit,
    Help,
    Ls,
    Cd { dir: String },
    CdUsage,
    SetEnv { name: String, value: String },
    SetEnvUsage,
    GetEnv { name: String },
    GetEnvUsage,
    Alias { name: String, value: String },
    AliasUsage,
    SaveAliases,
    LoadAliases,
    SetPrompt { symbol: String },
    SetPromptUsage,
    ShellInfo,
    Whoami,
    External { command: String },
}

impl View for Directive {
    type V = Route;

    open spec fn view(&self) -> Route {
        match self {
            Directive::Empty => Route::Empty,
            Directive::Exit => Route::Exit,
            Directive::Help => Route::Help,
            Directive::Ls => Route::Ls,
            Directive::Cd { dir } => Route::Cd { dir: dir@ },
            Directive::CdUsage => Route::CdUsage,
            Directive::SetEnv { name, value } => Route::SetEnv { name: name@, value: value@ },
            Directive::SetEnvUsage => Route::SetEnvUsage,
            Directive::GetEnv { name } => Route::GetEnv { name: name@ },
            Directive::GetEnvUsage => Route::GetEnvUsage,
            Directive::Alias { name, value } => Route::Alias { name: name@, value: value@ },
            Directive::AliasUsage => Route::AliasUsage,
            Directive::SaveAliases => Route::SaveAliases,
            Directive::LoadAliases => Route::LoadAliases,
            Directive::SetPrompt { symbol } => Route::SetPrompt { symbol: symbol@ },
            Directive::SetPromptUsage => Route::SetPromptUsage,
            Directive::ShellInfo => Route::ShellInfo,
            Directive::Whoami => Route::Whoami,
            Directive::External { command } => Route::External { command: command@ },
        }
    }
}

/// Routes one alias-expanded input line.
pub fn route(line: &str) -> (d: Directive)
    ensures
        d@ == route_spec(line@),
{
    let toks = tokenize(line);
    if toks.len() == 0 {
        return Directive::Empty;
    }
    proof {
        assert(tokens(line@)[0] == toks@.map_values(|t: String| t@)[0]);
    }
    let cmd = toks[0].as_str();
    if str_eq(cmd, "exit") {
        Directive::Exit
    } else if str_eq(cmd, "help") {
        Directive::Help
    } else if str_eq(cmd, "ls") {
        Directive::Ls
    } else if str_eq(cmd, "cd") {
        if toks.len() >= 2 {
            Directive::Cd { dir: toks[1].clone() }
        } else {
            Directive::CdUsage
        }
    } else if str_eq(cmd, "setenv") {
        if toks.len() >= 3 {
            Directive::SetEnv { name: toks[1].clone(), value: toks[2].clone() }
        } else {
            Directive::SetEnvUsage
        }
    } else if str_eq(cmd, "getenv") {
        if toks.len() >= 2 {
            Directive::GetEnv { name: toks[1].clone() }
        } else {
            Directive::GetEnvUsage
        }
    } else if str_eq(cmd, "alias") {
        let len = line.unicode_len();
        let (_, j) = first_token_bounds(line);
        let def = trim(line.substring_char(j, len));
        proof {
            assert(line@.skip(j as int) == rest_after_cmd(line@));
        }
        if def.unicode_len() == 0 {
            proof {
                assert(trim_spec(rest_after_cmd(line@)).len() == 0);
            }
            Directive::AliasUsage
        } else {
            match split_first_eq(def) {
                Some((k, v)) => Directive::Alias {
                    name: String::from_str(trim(k)),
                    value: String::from_str(trim(v)),
                },
                None => Directive::AliasUsage,
            }
        }
    } else if str_eq(cmd, "save-aliases") {
        Directive::SaveAliases
    } else if str_eq(cmd, "load-aliases") {
        Directive::LoadAliases
    } else if str_eq(cmd, "setprompt") {
        if toks.len() >= 2 {
            Directive::SetPrompt { symbol: toks[1].clone() }
        } else {
            Directive::SetPromptUsage
        }
    } else if str_eq(cmd, "shellinfo") {
        Directive::ShellInfo
    } else if str_eq(cmd, "whoami-shell") {
        Directive::Whoami
    } else {
        Directive::External { command: String::from_str(line) }
    }
}

} // verus!
