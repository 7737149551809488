//! The settings of the interactive shell.

use vstd::prelude::*;
use vstd::string::StrSliceExecFns;
use vstd::string::StringExecFns;
use crate::table::is_text;
use crate::table::trim;
use crate::table::trimmed;

verus! {

/// How the rows of a query are shown.
#[derive(Debug, Clone, Copy, PartialEq, Eq)]
pub enum OutputMode {
    Tabbed,
    Table,
    Jsonline,
}

/// Why a setting of the shell is refused.
#[derive(Debug)]
pub enum ShellError {
    /// The text names no output mode.
    InvalidMode(String),
    /// The text names no dot command.
    UnknownCommand(String),
}

/// The settings of the shell.
#[derive(Debug, Clone, Copy)]
pub struct Config {
    pub output_mode: OutputMode,
}

/// The name of an output mode.
pub open spec fn mode_name(mode: OutputMode) -> Seq<char> {
    match mode {
        OutputMode::Tabbed => "tabbed"@,
        OutputMode::Table => "table"@,
        OutputMode::Jsonline => "jsonline"@,
    }
}

/// The output mode that a text names, if it names one.
pub open spec fn mode_of(s: Seq<char>) -> Option<OutputMode> {
    if s == "tabbed"@ {
        Some(OutputMode::Tabbed)
    } else if s == "table"@ {
        Some(OutputMode::Table)
    } else if s == "jsonline"@ {
        Some(OutputMode::Jsonline)
    } else {
        None
    }
}

impl Default for OutputMode {
    fn default() -> (res: Self)
        ensures
            res == OutputMode::Tabbed,
    {
        OutputMode::Tabbed
    }
}

impl OutputMode {
    /// The name of the mode.
    pub fn to_string(&self) -> (res: String)
        ensures
            res@ == mode_name(*self),
    {
        match self {
            OutputMode::Tabbed => "tabbed".to_owned(),
            OutputMode::Table => "table".to_owned(),
            OutputMode::Jsonline => "jsonline".to_owned(),
        }
    }

    /// The mode that a text names: `tabbed`, `table` or `jsonline`.
    pub fn from_str(s: &str) -> (res: Result<OutputMode, ShellError>)
        ensures
            match mode_of(s@) {
                Some(mode) => res == Ok::<OutputMode, ShellError>(mode),
                None => res matches Err(ShellError::InvalidMode(text)) && text@ == s@,
            },
    {
        let text = s.to_owned();
        if is_text(&text, "tabbed") {
            Ok(OutputMode::Tabbed)
        } else if is_text(&text, "table") {
            Ok(OutputMode::Table)
        } else if is_text(&text, "jsonline") {
            Ok(OutputMode::Jsonline)
        } else {
            Err(ShellError::InvalidMode(text))
        }
    }
}

/// Whether `text` begins with `prefix`.
pub open spec fn begins(text: Seq<char>, prefix: Seq<char>) -> bool {
    prefix.len() <= text.len() && text.subrange(0, prefix.len() as int) == prefix
}

/// Whether `text` ends with `suffix`.
pub open spec fn ends(text: Seq<char>, suffix: Seq<char>) -> bool {
    suffix.len() <= text.len() && text.subrange(text.len() - suffix.len(), text.len() as int)
        == suffix
}

/// The text that `str::to_lowercase` makes of `text`.
pub uninterp spec fn lowercase(text: Seq<char>) -> Seq<char>;

/// Calls `str::starts_with` with a text for the pattern: whether `text`
/// begins with `prefix`.
#[verifier::external_body]
fn starts_with(text: &str, prefix: &str) -> (res: bool)
    ensures
        res == begins(text@, prefix@),
{
    text.starts_with(prefix)
}

/// Calls `str::ends_with` with a text for the pattern: whether `text` ends
/// with `suffix`.
#[verifier::external_body]
fn ends_with(text: &str, suffix: &str) -> (res: bool)
    ensures
        res == ends(text@, suffix@),
{
    text.ends_with(suffix)
}

/// Calls `str::to_lowercase`. The contract only names the outcome.
#[verifier::external_body]
fn to_lowercase(text: &str) -> (res: String)
    ensures
        res@ == lowercase(text@),
{
    text.to_lowercase()
}

/// Calls `str::split_once` with a character for the delimiter: the text
/// before the first delimiter and the text behind it, or `None` where `text`
/// holds no delimiter.
#[verifier::external_body]
fn split_once(text: &str, delimiter: char) -> (res: Option<(String, String)>)
    ensures
        match res {
            Some((before, behind)) => text@ == before@ + seq![delimiter] + behind@
                && !before@.contains(delimiter),
            None => !text@.contains(delimiter),
        },
{
    text.split_once(delimiter).map(|(before, behind)| (before.to_string(), behind.to_string()))
}

/// What the shell says after a dot command.
#[derive(Debug, Clone, Copy, PartialEq, Eq)]
pub enum DotReply {
    /// The command was carried out.
    Done,
    /// A dot command requires a value.
    CommandNeedsValue,
    /// The command `.mode` requires a value.
    ModeNeedsValue,
}

/// Sets the output mode to the one that `expr` names. A text of nothing but
/// whitespace changes nothing.
pub fn process_dotmode(expr: &str, config: &mut Config) -> (res: Result<DotReply, ShellError>)
    ensures
        dotmode_outcome(expr@, *old(config), res, *final(config)),
{
    let value = trim(expr);
    if value.as_str().is_empty() {
        return Ok(DotReply::ModeNeedsValue);
    }
    match OutputMode::from_str(expr) {
        Ok(mode) => {
            config.output_mode = mode;
            Ok(DotReply::Done)
        },
        Err(e) => Err(e),
    }
}

/// Carries out a dot command, given without its dot: the name of the
/// command, a space and a value. The one command is `mode`.
pub fn process_dotcommand(expr: &str, config: &mut Config) -> (res: Result<DotReply, ShellError>)
    ensures
        !expr@.contains(' ') ==> res == Ok::<DotReply, ShellError>(DotReply::CommandNeedsValue)
            && *final(config) == *old(config),
        expr@.contains(' ') ==> exists|command: Seq<char>, value: Seq<char>|
            expr@ == command + seq![' '] + value && !command.contains(' ') && if command
                == "mode"@ {
                dotmode_outcome(value, *old(config), res, *final(config))
            } else {
                (res matches Err(ShellError::UnknownCommand(text)) && text@ == command)
                    && *final(config) == *old(config)
            },
{
    match split_once(expr, ' ') {
        Some((command, value)) => {
            assert(expr@[command@.len() as int] == ' ');
            if is_text(&command, "mode") {
                let res = process_dotmode(value.as_str(), config);
                assert(dotmode_outcome(value@, *old(config), res, *config));
                assert(expr@ == command@ + seq![' '] + value@ && !command@.contains(' '));
                res
            } else {
                assert(expr@ == command@ + seq![' '] + value@ && !command@.contains(' '));
                Err(ShellError::UnknownCommand(command))
            }
        },
        None => Ok(DotReply::CommandNeedsValue),
    }
}

/// What `.mode` with the value `expr` gives.
pub open spec fn dotmode_outcome(
    expr: Seq<char>,
    before: Config,
    res: Result<DotReply, ShellError>,
    after: Config,
) -> bool {
    if trimmed(expr).len() == 0 {
        res == Ok::<DotReply, ShellError>(DotReply::ModeNeedsValue) && after == before
    } else {
        match mode_of(expr) {
            Some(mode) => res == Ok::<DotReply, ShellError>(DotReply::Done) && after.output_mode
                == mode,
            None => (res matches Err(ShellError::InvalidMode(text)) && text@ == expr) && after
                == before,
        }
    }
}

/// What the shell is to do with a line that it has read.
#[derive(Debug, PartialEq, Eq)]
pub enum Action {
    /// Nothing: the line was blank, or it is kept until the expression ends.
    Nothing,
    /// Carry out the dot command that follows the dot.
    Dot(String),
    /// Run the expression as a query and show its rows.
    Query(String),
    /// Run the expression as a statement.
    Execute(String),
}

/// Whether the line ends an expression that is a query.
pub open spec fn selects(pending: Seq<char>, line: Seq<char>) -> bool {
    begins(lowercase(pending), "select"@) || begins(lowercase(line), "select"@)
}

/// What a line asks for, and what is kept of the expression so far.
pub open spec fn step_outcome(
    pending: Seq<char>,
    line: Seq<char>,
    action: Action,
    kept: Seq<char>,
) -> bool {
    if begins(line, "."@) {
        (action matches Action::Dot(rest) && rest@ == line.subrange(1, line.len() as int)) && kept
            == pending
    } else if trimmed(line).len() == 0 {
        action == Action::Nothing && kept == pending
    } else if !ends(line, ";"@) {
        action == Action::Nothing && kept == pending + line + "\n "@
    } else if selects(pending, line) {
        (action matches Action::Query(expr) && expr@ == pending + trimmed(line)) && kept.len() == 0
    } else {
        (action matches Action::Execute(expr) && expr@ == pending + trimmed(line)) && kept.len()
            == 0
    }
}

/// Decides what to do with a line, given the expression read so far.
///
/// A line that begins with a dot is a dot command. A blank line is passed
/// over. A line that does not end in a semicolon is kept, and the expression
/// goes on. A line that ends in one ends the expression, which is a query
/// where it, or its last line, begins with `select` in any case of letters,
/// and a statement otherwise; nothing is kept then.
pub fn step(pending: &mut String, line: &str) -> (res: Action)
    ensures
        step_outcome(old(pending)@, line@, res, final(pending)@),
{
    if starts_with(line, ".") {
        proof {
            reveal_strlit(".");
        }
        let n = line.unicode_len();
        return Action::Dot(line.substring_char(1, n).to_owned());
    }
    if trim(line).as_str().is_empty() {
        return Action::Nothing;
    }
    if !ends_with(line, ";") {
        pending.append(line);
        pending.append("\n ");
        return Action::Nothing;
    }
    let query = starts_with(to_lowercase(pending.as_str()).as_str(), "select") || starts_with(
        to_lowercase(line).as_str(),
        "select",
    );
    let mut expr = pending.clone();
    expr.append(trim(line).as_str());
    *pending = String::new();
    if query {
        Action::Query(expr)
    } else {
        Action::Execute(expr)
    }
}

impl Default for Config {
    fn default() -> (res: Self)
        ensures
            res.output_mode == OutputMode::Tabbed,
    {
        Config { output_mode: OutputMode::Tabbed }
    }
}

} // verus!
