//! The session: the state the loop owns (alias table, prompt symbol,
//! running flag) and the single step that turns one input line into a state
//! change, an optional message, and at most one outside effect. The binary
//! around the library only reads lines, performs effects, and prints.
use vstd::prelude::*;

use crate::alias::{expand_spec, load_spec, render_spec, upsert_spec, AliasTable};
use crate::messages::{
    alias_set_line, alias_set_line_spec, getenv_line_spec, help_text, help_text_spec, setenv_line,
    setenv_line_spec, setprompt_line, setprompt_line_spec, whoami_line,
};
use crate::router::{route, route_spec, Directive, Route};
use crate::text::{trim, trim_spec};

verus! {

/// The one outside effect a step may ask the surrounding loop to perform.
pub enum Effect {
    /// Nothing to do outside the library.
    NoEffect,
    /// Change the process working directory.
    ChangeDir { dir: String },
    /// Set a process environment variable.
    SetVar { name: String, value: String },
    /// Look a process environment variable up and print the result line.
    QueryVar { name: String },
    /// List the current directory.
    ListDir,
    /// Gather and print the system summary.
    ShowInfo,
    /// Run the command in the host shell and report output and timing.
    RunExternal { command: String },
    /// Write this text to the alias file and report the result.
    WriteAliasFile { contents: String },
    /// Read the alias file back in and report the result.
    ReadAliasFile,
    /// End the session.
    Quit,
}

/// The mathematical form of an [`Effect`].
pub enum EffectV {
    NoEffect,
    ChangeDir { dir: Seq<char> },
    SetVar { name: Seq<char>, value: Seq<char> },
    QueryVar { name: Seq<char> },
    ListDir,
    ShowInfo,
    RunExternal { command: Seq<char> },
    WriteAliasFile { contents: Seq<char> },
    ReadAliasFile,
    Quit,
}

impl View for Effect {
    type V = EffectV;

    open spec fn view(&self) -> EffectV {
        match self {
            Effect::NoEffect => EffectV::NoEffect,
            Effect::ChangeDir { dir } => EffectV::ChangeDir { dir: dir@ },
            Effect::SetVar { name, value } => EffectV::SetVar { name: name@, value: value@ },
            Effect::QueryVar { name } => EffectV::QueryVar { name: name@ },
            Effect::ListDir => EffectV::ListDir,
            Effect::ShowInfo => EffectV::ShowInfo,
            Effect::RunExternal { command } => EffectV::RunExternal { command: command@ },
            Effect::WriteAliasFile { contents } => EffectV::WriteAliasFile { contents: contents@ },
            Effect::ReadAliasFile => EffectV::ReadAliasFile,
            Effect::Quit => EffectV::Quit,
        }
    }
}

/// What one step hands back to the loop.
pub struct Outcome {
    /// The trimmed input line, as the history records it.
    pub echo: String,
    /// A message to print, if the step produced one.
    pub message: Option<String>,
    /// The outside effect to perform, if any.
    pub effect: Effect,
}

/// The state the session loop owns.
pub struct Session {
    /// The alias table, live and mutable for the whole session.
    pub aliases: AliasTable,
    /// The prompt symbol `setprompt` overwrites.
    pub prompt_symbol: String,
    /// False once `exit` has run.
    pub running: bool,
}

impl Session {
    pub open spec fn wf(&self) -> bool {
        self.aliases.wf()
    }

    /// A fresh session: empty alias table, crab prompt, running.
    pub fn new() -> (s: Session)
        ensures
            s.aliases@ == Seq::<(Seq<char>, Seq<char>)>::empty(),
            s.prompt_symbol@ == "🦀"@,
            s.running,
            s.wf(),
    {
        Session { aliases: AliasTable::new(), prompt_symbol: String::from_str("🦀"), running: true }
    }

    /// The persisted text of the current alias table.
    pub fn serialize_aliases(&self) -> (r: String)
        ensures
            r@ == render_spec(self.aliases@),
    {
        self.aliases.serialize()
    }

    /// Reads a persisted alias text into the session's table.
    pub fn absorb_alias_text(&mut self, text: &str)
        requires
            old(self).wf(),
        ensures
            final(self).aliases@ == load_spec(old(self).aliases@, text@),
            final(self).prompt_symbol@ == old(self).prompt_symbol@,
            final(self).running == old(self).running,
            final(self).wf(),
    {
        self.aliases.absorb_text(text);
    }

    /// One step of the session loop: trims the line, expands it through the
    /// alias table, routes it, applies the state change, and names the
    /// message to print and the effect to perform.
    pub fn handle_line(&mut self, line: &str) -> (o: Outcome)
        requires
            old(self).wf(),
        ensures
            final(self).wf(),
            o.echo@ == trim_spec(line@),
            (match route_spec(expand_spec(old(self).aliases@, line@)) {
                Route::Empty => *final(self) == *old(self) && o.message is None && o.effect@
                    is NoEffect,
                Route::Exit => final(self).aliases@ == old(self).aliases@ && final(self).prompt_symbol@ == old(self).prompt_symbol@ && !final(self).running && o.message
                    is None && o.effect@ is Quit,
                Route::Help => *final(self) == *old(self) && (o.message matches Some(m) && m@
                    == help_text_spec()) && o.effect@ is NoEffect,
                Route::Ls => *final(self) == *old(self) && o.message is None && o.effect@ is ListDir,
                Route::Cd { dir } => *final(self) == *old(self) && o.message is None && (o.effect@
                    matches EffectV::ChangeDir { dir: d } && d == dir),
                Route::CdUsage => *final(self) == *old(self) && (o.message matches Some(m) && m@
                    == "Usage: cd <directory>"@) && o.effect@ is NoEffect,
                Route::SetEnv { name, value } => *final(self) == *old(self) && (o.message
                    matches Some(m) && m@ == setenv_line_spec(name, value)) && (o.effect@
                    matches EffectV::SetVar { name: n, value: v } && n == name && v == value),
                Route::SetEnvUsage => *final(self) == *old(self) && (o.message matches Some(m) && m@
                    == "Usage: setenv VAR VALUE"@) && o.effect@ is NoEffect,
                Route::GetEnv { name } => *final(self) == *old(self) && o.message is None && (
                o.effect@ matches EffectV::QueryVar { name: n } && n == name),
                Route::GetEnvUsage => *final(self) == *old(self) && (o.message matches Some(m) && m@
                    == "Usage: getenv VAR"@) && o.effect@ is NoEffect,
                Route::Alias { name, value } => final(self).aliases@ == upsert_spec(
                    old(self).aliases@,
                    name,
                    value,
                ) && final(self).prompt_symbol@ == old(self).prompt_symbol@ && final(self).running
                    == old(self).running && (o.message matches Some(m) && m@
                    == alias_set_line_spec(name, value)) && o.effect@ is NoEffect,
                Route::AliasUsage => *final(self) == *old(self) && (o.message matches Some(m) && m@
                    == "Usage: alias name=command"@) && o.effect@ is NoEffect,
                Route::SaveAliases => *final(self) == *old(self) && o.message is None && (o.effect@
                    matches EffectV::WriteAliasFile { contents } && contents == render_spec(
                    old(self).aliases@,
                )),
                Route::LoadAliases => *final(self) == *old(self) && o.message is None && o.effect@
                    is ReadAliasFile,
                Route::SetPrompt { symbol } => final(self).aliases@ == old(self).aliases@ && final(self).prompt_symbol@ == symbol && final(self).running == old(self).running && (
                o.message matches Some(m) && m@ == setprompt_line_spec(symbol)) && o.effect@
                    is NoEffect,
                Route::SetPromptUsage => *final(self) == *old(self) && (o.message matches Some(m)
                    && m@ == "Usage: setprompt <symbol>"@) && o.effect@ is NoEffect,
                Route::ShellInfo => *final(self) == *old(self) && o.message is None && o.effect@
                    is ShowInfo,
                Route::Whoami => *final(self) == *old(self) && (o.message matches Some(m) && m@
                    == "🦀 You are running the custom Rust Shell!"@) && o.effect@ is NoEffect,
                Route::External { command } => *final(self) == *old(self) && o.message is None && (
                o.effect@ matches EffectV::RunExternal { command: c } && c == command),
            }),
    {
        let trimmed = trim(line);
        let echo = String::from_str(trimmed);
        let expanded = self.aliases.expand(line);
        let d = route(expanded.as_str());
        match d {
            Directive::Empty => Outcome { echo, message: None, effect: Effect::NoEffect },
            Directive::Exit => {
                self.running = false;
                Outcome { echo, message: None, effect: Effect::Quit }
            },
            Directive::Help => Outcome {
                echo,
                message: Some(help_text()),
                effect: Effect::NoEffect,
            },
            Directive::Ls => Outcome { echo, message: None, effect: Effect::ListDir },
            Directive::Cd { dir } => Outcome {
                echo,
                message: None,
                effect: Effect::ChangeDir { dir },
            },
            Directive::CdUsage => Outcome {
                echo,
                message: Some(String::from_str("Usage: cd <directory>")),
                effect: Effect::NoEffect,
            },
            Directive::SetEnv { name, value } => {
                let msg = setenv_line(name.as_str(), value.as_str());
                Outcome { echo, message: Some(msg), effect: Effect::SetVar { name, value } }
            },
            Directive::SetEnvUsage => Outcome {
                echo,
                message: Some(String::from_str("Usage: setenv VAR VALUE")),
                effect: Effect::NoEffect,
            },
            Directive::GetEnv { name } => Outcome {
                echo,
                message: None,
                effect: Effect::QueryVar { name },
            },
            Directive::GetEnvUsage => Outcome {
                echo,
                message: Some(String::from_str("Usage: getenv VAR")),
                effect: Effect::NoEffect,
            },
            Directive::Alias { name, value } => {
                proof {
                    crate::router::lemma_route_alias_trimmed(expanded@);
                }
                self.aliases.set(name.as_str(), value.as_str());
                let msg = alias_set_line(name.as_str(), value.as_str());
                Outcome { echo, message: Some(msg), effect: Effect::NoEffect }
            },
            Directive::AliasUsage => Outcome {
                echo,
                message: Some(String::from_str("Usage: alias name=command")),
                effect: Effect::NoEffect,
            },
            Directive::SaveAliases => {
                let contents = self.aliases.serialize();
                Outcome { echo, message: None, effect: Effect::WriteAliasFile { contents } }
            },
            Directive::LoadAliases => Outcome {
                echo,
                message: None,
                effect: Effect::ReadAliasFile,
            },
            Directive::SetPrompt { symbol } => {
                let msg = setprompt_line(symbol.as_str());
                self.prompt_symbol = symbol;
                Outcome { echo, message: Some(msg), effect: Effect::NoEffect }
            },
            Directive::SetPromptUsage => Outcome {
                echo,
                message: Some(String::from_str("Usage: setprompt <symbol>")),
                effect: Effect::NoEffect,
            },
            Directive::ShellInfo => Outcome { echo, message: None, effect: Effect::ShowInfo },
            Directive::Whoami => Outcome {
                echo,
                message: Some(whoami_line()),
                effect: Effect::NoEffect,
            },
            Directive::External { command } => Outcome {
                echo,
                message: None,
                effect: Effect::RunExternal { command },
            },
        }
    }
}

/// How `setenv` changes the process environment, modelled as a map.
pub open spec fn env_set_spec(
    env: Map<Seq<char>, Seq<char>>,
    name: Seq<char>,
    value: Seq<char>,
) -> Map<Seq<char>, Seq<char>> {
    env.insert(name, value)
}

/// What `getenv` prints against a modelled environment.
pub open spec fn getenv_result_spec(env: Map<Seq<char>, Seq<char>>, name: Seq<char>) -> Seq<
    char,
> {
    if env.contains_key(name) {
        getenv_line_spec(name, Some(env[name]))
    } else {
        getenv_line_spec(name, None)
    }
}

/// Law: once `setenv NAME VALUE` has run, `getenv NAME` prints
/// `NAME=VALUE`; for a variable never set it prints `NAME is not set`.
pub proof fn lemma_env_round_trip(
    env: Map<Seq<char>, Seq<char>>,
    name: Seq<char>,
    value: Seq<char>,
)
    ensures
        getenv_result_spec(env_set_spec(env, name, value), name) == name + "="@ + value,
        !env.contains_key(name) ==> getenv_result_spec(env, name) == name + " is not set"@,
{
}

} // verus!
