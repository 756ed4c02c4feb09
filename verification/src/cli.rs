//! The command line's decisions: which interface runs, on which address,
//! and the arguments handed to the prompt-file runner.
use vstd::prelude::*;
use vstd::string::StringExecFns;
use crate::text::{decimal, usize_text};

use crate::json::{json_doc, parse_json, text_member, text_member_of};
verus! {

/// The interface the program runs.
#[derive(Clone, Copy, Debug, PartialEq, Eq, Structural)]
pub enum AppMode {
    Tui,
    Web,
    Config,
    Command,
}

/// The interface chosen by the flags: `--web`, then `--config`, then a
/// subcommand; the terminal interface otherwise.
pub open spec fn mode_for(web: bool, config: bool, has_command: bool) -> AppMode {
    if web {
        AppMode::Web
    } else if config {
        AppMode::Config
    } else if has_command {
        AppMode::Command
    } else {
        AppMode::Tui
    }
}

/// The interface chosen by the flags.
pub fn get_mode(web: bool, config: bool, has_command: bool) -> (r: AppMode)
    ensures
        r == mode_for(web, config, has_command),
{
    if web {
        AppMode::Web
    } else if config {
        AppMode::Config
    } else if has_command {
        AppMode::Command
    } else {
        AppMode::Tui
    }
}

/// The port to serve on: the `web` subcommand's, when it was given, else
/// the top-level one.
pub fn get_port(web_command_port: Option<u16>, port: u16) -> (r: u16)
    ensures
        r == match web_command_port {
            Some(p) => p,
            None => port,
        },
{
    match web_command_port {
        Some(p) => p,
        None => port,
    }
}

/// The host to serve on: the `web` subcommand's, when it was given, else
/// the top-level one.
pub fn get_host(web_command_host: Option<&str>, host: &str) -> (r: String)
    ensures
        r@ == match web_command_host {
            Some(h) => h@,
            None => host@,
        },
{
    match web_command_host {
        Some(h) => String::from_str(h),
        None => String::from_str(host),
    }
}

/// The arguments of `python` that run a prompt file: the module, the
/// file, the optional provider and output, the temperature (as given),
/// the token limit, the log level, and `--save` when asked.
pub open spec fn poml_args(
    file: Seq<char>,
    provider: Option<Seq<char>>,
    output: Option<Seq<char>>,
    temperature: Seq<char>,
    max_tokens: nat,
    log_level: Seq<char>,
    save: bool,
) -> Seq<Seq<char>> {
    seq!["-m"@, "poml"@, "-f"@, file] + match provider {
        Some(p) => seq!["--provider"@, p],
        None => Seq::empty(),
    } + match output {
        Some(o) => seq!["--output"@, o],
        None => Seq::empty(),
    } + seq!["--temperature"@, temperature, "--max-tokens"@, decimal(max_tokens), "--log-level"@, log_level]
        + if save {
        seq!["--save"@]
    } else {
        Seq::empty()
    }
}

/// The text of an optional argument.
pub open spec fn opt_text(o: Option<&str>) -> Option<Seq<char>> {
    match o {
        Some(t) => Some(t@),
        None => None,
    }
}

/// The arguments of `python` that run a prompt file.
pub fn poml_command_args(
    file: &str,
    provider: Option<&str>,
    output: Option<&str>,
    temperature: &str,
    max_tokens: u32,
    log_level: &str,
    save: bool,
) -> (r: Vec<String>)
    ensures
        r@.map_values(|s: String| s@) == poml_args(
            file@,
            opt_text(provider),
            opt_text(output),
            temperature@,
            max_tokens as nat,
            log_level@,
            save,
        ),
{
    let mut r: Vec<String> = Vec::new();
    r.push(String::from_str("-m"));
    r.push(String::from_str("poml"));
    r.push(String::from_str("-f"));
    r.push(String::from_str(file));
    match provider {
        Some(p) => {
            r.push(String::from_str("--provider"));
            r.push(String::from_str(p));
        },
        None => {},
    }
    match output {
        Some(o) => {
            r.push(String::from_str("--output"));
            r.push(String::from_str(o));
        },
        None => {},
    }
    r.push(String::from_str("--temperature"));
    r.push(String::from_str(temperature));
    r.push(String::from_str("--max-tokens"));
    r.push(usize_text(max_tokens as usize));
    r.push(String::from_str("--log-level"));
    r.push(String::from_str(log_level));
    if save {
        r.push(String::from_str("--save"));
    }
    assert(r@.map_values(|s: String| s@) =~= poml_args(
        file@,
        opt_text(provider),
        opt_text(output),
        temperature@,
        max_tokens as nat,
        log_level@,
        save,
    ));
    r
}


/// What `serde_json` reads in `text` as the string member `key` of a JSON
/// value: `None` when the text is not JSON, when the value has no member
/// `key`, or when that member is not a string.
pub open spec fn json_string_member(text: Seq<char>, key: Seq<char>) -> Option<Seq<char>> {
    match json_doc(text) {
        Some(d) => text_member(d, key),
        None => None,
    }
}

/// Reads `text` as JSON and, when it reads, takes its string member `key`.
fn string_member(text: &str, key: &str) -> (r: Option<String>)
    ensures
        match r {
            Some(s) => json_string_member(text@, key@) == Some(s@),
            None => json_string_member(text@, key@) is None,
        },
{
    match parse_json(text) {
        Some(d) => text_member_of(&d, key),
        None => None,
    }
}

/// The theme a configured name gives: the name, else `default`.
pub open spec fn theme_or(name: Option<Seq<char>>) -> Seq<char> {
    match name {
        Some(t) => t,
        None => "default"@,
    }
}

/// The theme a configured name gives: the name, else `default`.
pub fn theme_or_default(name: Option<String>) -> (r: String)
    ensures
        r@ == theme_or(
            match name {
                Some(t) => Some(t@),
                None => None,
            },
        ),
{
    match name {
        Some(t) => t,
        None => String::from_str("default"),
    }
}

/// The theme named by the theme configuration's text: its string member
/// `default_theme`, else `default`; `default` too without a configuration.
pub open spec fn theme_from(config: Option<Seq<char>>) -> Seq<char> {
    match config {
        Some(c) => theme_or(json_string_member(c, "default_theme"@)),
        None => "default"@,
    }
}

/// The theme the command line starts with, from the text of the theme
/// configuration when there is one.
pub fn default_theme(config: Option<&str>) -> (r: String)
    ensures
        r@ == theme_from(
            match config {
                Some(c) => Some(c@),
                None => None,
            },
        ),
{
    match config {
        Some(c) => theme_or_default(string_member(c, "default_theme")),
        None => String::from_str("default"),
    }
}

} // verus!
