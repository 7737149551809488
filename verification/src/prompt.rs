//! What to ask the user, and what to do with the answer.
//!
//! A field is asked for until it is answered. A required field is asked for
//! without end; an optional one is asked for once, or as often as a limit
//! allows, and may stay without an answer.

use vstd::prelude::*;
use vstd::string::StringExecFns;
use crate::table::trim;
use crate::table::trimmed;

verus! {

/// The text of a digit.
pub open spec fn digit_text(d: nat) -> Seq<char> {
    if d == 0 {
        "0"@
    } else if d == 1 {
        "1"@
    } else if d == 2 {
        "2"@
    } else if d == 3 {
        "3"@
    } else if d == 4 {
        "4"@
    } else if d == 5 {
        "5"@
    } else if d == 6 {
        "6"@
    } else if d == 7 {
        "7"@
    } else if d == 8 {
        "8"@
    } else {
        "9"@
    }
}

/// The text of a number in decimal digits.
pub open spec fn decimal(n: nat) -> Seq<char>
    decreases n,
{
    if n < 10 {
        digit_text(n)
    } else {
        decimal(n / 10) + digit_text(n % 10)
    }
}

/// Writes a number in decimal digits.
pub fn write_decimal(out: &mut String, n: u32)
    ensures
        final(out)@ == old(out)@ + decimal(n as nat),
    decreases n,
{
    if n >= 10 {
        write_decimal(out, n / 10);
    }
    let d = n % 10;
    if d == 0 {
        out.append("0");
    } else if d == 1 {
        out.append("1");
    } else if d == 2 {
        out.append("2");
    } else if d == 3 {
        out.append("3");
    } else if d == 4 {
        out.append("4");
    } else if d == 5 {
        out.append("5");
    } else if d == 6 {
        out.append("6");
    } else if d == 7 {
        out.append("7");
    } else if d == 8 {
        out.append("8");
    } else {
        out.append("9");
    }
    assert(out@ =~= old(out)@ + decimal(n as nat));
}

/// How often a field may still be asked for: the limit less the times it
/// was asked for, and never less than nothing.
pub open spec fn left(limit: u32, count: u32) -> nat {
    if count <= limit {
        (limit - count) as nat
    } else {
        0
    }
}

/// The prompt for a field: its name, and in brackets whether it is required,
/// optional, or how often it may still be asked for.
pub open spec fn prompt_text(field: Seq<char>, limit: Option<u32>, count: u32) -> Seq<char> {
    match limit {
        None => field + " (required): "@,
        Some(l) => if l == 0 {
            field + " (optional): "@
        } else {
            field + " ("@ + decimal(left(l, count)) + "): "@
        },
    }
}

/// The prompt for a field that was asked for `count` times, this time
/// included.
pub fn prompt(field: &str, limit: Option<u32>, count: u32) -> (res: String)
    ensures
        res@ == prompt_text(field@, limit, count),
{
    let mut out = field.to_owned();
    match limit {
        None => {
            out.append(" (required): ");
        },
        Some(l) => {
            if l == 0 {
                out.append(" (optional): ");
            } else {
                out.append(" (");
                write_decimal(
                    &mut out,
                    if count <= l {
                        l - count
                    } else {
                        0
                    },
                );
                out.append("): ");
                assert(out@ =~= field@ + " ("@ + decimal(left(l, count)) + "): "@);
            }
        },
    }
    out
}

/// What follows a line that the user gave.
#[derive(Debug, PartialEq, Eq)]
pub enum Reading {
    /// The line holds an answer: the line without the whitespace around it.
    Answer(String),
    /// The line was blank and the field is asked for again; the number tells
    /// how often a blank line was given under a limit.
    Again(u32),
    /// The line was blank and the field is not asked for again.
    Stop,
}

/// What follows a line, given the limit and the blank lines counted so far.
pub open spec fn reading_of(line: Seq<char>, limit: Option<u32>, count: u32, res: Reading) -> bool {
    if trimmed(line).len() != 0 {
        res matches Reading::Answer(text) && text@ == trimmed(line)
    } else {
        match limit {
            None => res == Reading::Again(count),
            Some(l) => if count >= l {
                res == Reading::Stop
            } else {
                res == Reading::Again((count + 1) as u32)
            },
        }
    }
}

/// Decides what follows a line that the user gave for a field.
///
/// A line that is not blank is the answer. After a blank line a required
/// field is asked for again; a field under a limit is asked for again until
/// as many blank lines were given as the limit allows.
pub fn after_line(line: &str, limit: Option<u32>, count: u32) -> (res: Reading)
    ensures
        reading_of(line@, limit, count, res),
{
    let text = trim(line);
    if !text.as_str().is_empty() {
        return Reading::Answer(text);
    }
    match limit {
        None => Reading::Again(count),
        Some(l) => {
            if count >= l {
                Reading::Stop
            } else {
                Reading::Again(count + 1)
            }
        },
    }
}

} // verus!
