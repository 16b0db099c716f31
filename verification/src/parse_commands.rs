//! Per-line command recognition and dispatch: `PRINT`, `GO TO`, `LET`, `REM`.
//! An unrecognized keyword is not a parse error provided a space follows: the
//! line then parses as a command with no effect.

use crate::commands::{Command, Line, PrintOutput, SpecCommand, SpecLine, SpecPrintOutput};
use crate::generic::{
    consume_line_at, line_end, lemma_line_end, lemma_string_body_bounds, read_string_at,
    spec_read_string, Expected, ParseError,
};
use crate::numbers::{lemma_digit_run_end, parse_usize_at, spec_parse_usize};
use crate::variables::{
    alnum_run_end, lemma_alnum_run_end, parse_int_variable_name_at, parse_str_variable_name_at,
    parse_var_at, spec_int_var_name, spec_parse_assignment, spec_parse_int, spec_parse_str,
    spec_parse_var, spec_str_var_name,
};
use vstd::prelude::*;
use vstd::string::StrSliceExecFns;

verus! {

/// The recognized command keywords.
#[derive(Debug, PartialEq, Eq, Clone, Copy)]
pub enum Keyword {
    Print,
    Go,
    Let,
    Rem,
}

/// The keyword literal standing at `i`: `PRINT`, `GO TO` (with its internal
/// space), `LET` or `REM`, matched exactly, case-sensitively, in this order.
pub open spec fn spec_match_command(s: Seq<char>, i: int) -> Option<(int, Keyword)> {
    if i + 5 <= s.len() && s[i] == 'P' && s[i + 1] == 'R' && s[i + 2] == 'I' && s[i + 3] == 'N'
        && s[i + 4] == 'T' {
        Some((i + 5, Keyword::Print))
    } else if i + 5 <= s.len() && s[i] == 'G' && s[i + 1] == 'O' && s[i + 2] == ' ' && s[i + 3]
        == 'T' && s[i + 4] == 'O' {
        Some((i + 5, Keyword::Go))
    } else if i + 3 <= s.len() && s[i] == 'L' && s[i + 1] == 'E' && s[i + 2] == 'T' {
        Some((i + 3, Keyword::Let))
    } else if i + 3 <= s.len() && s[i] == 'R' && s[i + 1] == 'E' && s[i + 2] == 'M' {
        Some((i + 3, Keyword::Rem))
    } else {
        None
    }
}

pub(crate) fn match_command_at(s: &str, i: usize) -> (r: Option<(usize, Keyword)>)
    requires
        i <= s@.len(),
    ensures
        match r {
            Some((j, k)) => spec_match_command(s@, i as int) == Some((j as int, k)) && i < j
                <= s@.len(),
            None => spec_match_command(s@, i as int) is None,
        },
{
    let n = s.unicode_len();
    if n - i >= 5 && s.get_char(i) == 'P' && s.get_char(i + 1) == 'R' && s.get_char(i + 2) == 'I'
        && s.get_char(i + 3) == 'N' && s.get_char(i + 4) == 'T' {
        Some((i + 5, Keyword::Print))
    } else if n - i >= 5 && s.get_char(i) == 'G' && s.get_char(i + 1) == 'O' && s.get_char(i + 2)
        == ' ' && s.get_char(i + 3) == 'T' && s.get_char(i + 4) == 'O' {
        Some((i + 5, Keyword::Go))
    } else if n - i >= 3 && s.get_char(i) == 'L' && s.get_char(i + 1) == 'E' && s.get_char(i + 2)
        == 'T' {
        Some((i + 3, Keyword::Let))
    } else if n - i >= 3 && s.get_char(i) == 'R' && s.get_char(i + 1) == 'E' && s.get_char(i + 2)
        == 'M' {
        Some((i + 3, Keyword::Rem))
    } else {
        None
    }
}

/// Recognizes which command keyword a line starts with.
pub fn match_command(s: &str) -> (r: Option<(usize, Keyword)>)
    ensures
        match r {
            Some((j, k)) => spec_match_command(s@, 0) == Some((j as int, k)),
            None => spec_match_command(s@, 0) is None,
        },
{
    match_command_at(s, 0)
}

/// A `PRINT` payload: a string-variable name, else an integer-variable name
/// (each yielding a variable reference), else a quoted-string literal.
pub open spec fn spec_print_payload(s: Seq<char>, i: int) -> Option<(int, SpecPrintOutput)> {
    if spec_str_var_name(s, i) is Some {
        match spec_str_var_name(s, i) {
            Some((j, name)) => Some((j, SpecPrintOutput::VariableRef(name))),
            None => None,
        }
    } else if spec_int_var_name(s, i) is Some {
        match spec_int_var_name(s, i) {
            Some((j, name)) => Some((j, SpecPrintOutput::VariableRef(name))),
            None => None,
        }
    } else {
        match spec_read_string(s, i) {
            Some((j, t)) => Some((j, SpecPrintOutput::Literal(t))),
            None => None,
        }
    }
}

pub(crate) fn parse_print_command_at(s: &str, i: usize) -> (r: Result<
    (usize, PrintOutput),
    ParseError,
>)
    requires
        i <= s@.len(),
    ensures
        match r {
            Ok((j, p)) => spec_print_payload(s@, i as int) == Some((j as int, p@)) && i < j
                <= s@.len(),
            Err(_) => spec_print_payload(s@, i as int) is None,
        },
{
    match parse_str_variable_name_at(s, i) {
        Ok((j, name)) => Ok((j, PrintOutput::VariableRef(name))),
        Err(_) => match parse_int_variable_name_at(s, i) {
            Ok((j, name)) => Ok((j, PrintOutput::VariableRef(name))),
            Err(_) => match read_string_at(s, i) {
                Ok((j, t)) => Ok((j, PrintOutput::Literal(t))),
                Err(_) => Err(ParseError { pos: i, expected: Expected::PrintArgument }),
            },
        },
    }
}

/// Reads a `PRINT` payload: `PRINT a$` yields a variable reference, while
/// `PRINT "a$"` yields a literal string.
pub fn parse_print_command(s: &str) -> (r: Result<(usize, PrintOutput), ParseError>)
    ensures
        match r {
            Ok((j, p)) => spec_print_payload(s@, 0) == Some((j as int, p@)),
            Err(_) => spec_print_payload(s@, 0) is None,
        },
{
    parse_print_command_at(s, 0)
}

/// A command: a keyword, a mandatory space, and the keyword's payload.  With
/// no recognized keyword the space alone is still required, and the command
/// has no effect.
pub open spec fn spec_parse_command(s: Seq<char>, i: int) -> Option<(int, SpecCommand)> {
    match spec_match_command(s, i) {
        Some((i2, k)) => if i2 < s.len() && s[i2] == ' ' {
            let i3 = i2 + 1;
            match k {
                Keyword::Print => match spec_print_payload(s, i3) {
                    Some((j, p)) => Some((j, SpecCommand::Print(p))),
                    None => None,
                },
                Keyword::Go => match spec_parse_usize(s, i3) {
                    Some((j, v)) => Some((j, SpecCommand::Jump(v))),
                    None => None,
                },
                Keyword::Let => match spec_parse_var(s, i3) {
                    Some((j, b)) => Some((j, SpecCommand::Assign(b.0, b.1))),
                    None => None,
                },
                Keyword::Rem => Some((line_end(s, i3), SpecCommand::Comment)),
            }
        } else {
            None
        },
        None => if i < s.len() && s[i] == ' ' {
            Some((i + 1, SpecCommand::Empty))
        } else {
            None
        },
    }
}

fn expect_space(s: &str, j: usize) -> (r: bool)
    requires
        j <= s@.len(),
    ensures
        r == (j < s@.len() && s@[j as int] == ' '),
        s@.len() <= usize::MAX,
{
    if j < s.unicode_len() {
        let c = s.get_char(j);
        c == ' '
    } else {
        false
    }
}

pub(crate) fn parse_command_at(s: &str, i: usize) -> (r: Result<(usize, Command), ParseError>)
    requires
        i <= s@.len(),
    ensures
        match r {
            Ok((j, c)) => spec_parse_command(s@, i as int) == Some((j as int, c@)) && i < j
                <= s@.len(),
            Err(_) => spec_parse_command(s@, i as int) is None,
        },
{
    match match_command_at(s, i) {
        Some((i2, k)) => {
            if expect_space(s, i2) {
                let i3 = i2 + 1;
                match k {
                    Keyword::Print => match parse_print_command_at(s, i3) {
                        Ok((j, p)) => Ok((j, Command::Print(p))),
                        Err(e) => Err(e),
                    },
                    Keyword::Go => match parse_usize_at(s, i3) {
                        Some((j, v)) => Ok((j, Command::Jump(v))),
                        None => Err(ParseError { pos: i3, expected: Expected::Number }),
                    },
                    Keyword::Let => match parse_var_at(s, i3) {
                        Ok((j, b)) => Ok((j, Command::Assign(b.0, b.1))),
                        Err(e) => Err(e),
                    },
                    Keyword::Rem => {
                        let (j, _comment) = consume_line_at(s, i3);
                        Ok((j, Command::Comment))
                    },
                }
            } else {
                Err(ParseError { pos: i2, expected: Expected::Space })
            }
        },
        None => {
            if expect_space(s, i) {
                Ok((i + 1, Command::Empty))
            } else {
                Err(ParseError { pos: i, expected: Expected::Space })
            }
        },
    }
}

/// Reads one command: a keyword, a mandatory space, and the payload the
/// keyword calls for.
pub fn parse_command(s: &str) -> (r: Result<(usize, Command), ParseError>)
    ensures
        match r {
            Ok((j, c)) => spec_parse_command(s@, 0) == Some((j as int, c@)),
            Err(_) => spec_parse_command(s@, 0) is None,
        },
{
    parse_command_at(s, 0)
}

/// A program line: a line number, a space, and a command.
pub open spec fn spec_parse_line(s: Seq<char>, i: int) -> Option<(int, SpecLine)> {
    match spec_parse_usize(s, i) {
        Some((j, num)) => if j < s.len() && s[j] == ' ' {
            match spec_parse_command(s, j + 1) {
                Some((k, c)) => Some((k, (num, c))),
                None => None,
            }
        } else {
            None
        },
        None => None,
    }
}

pub(crate) fn parse_line_at(s: &str, i: usize) -> (r: Result<(usize, Line), ParseError>)
    requires
        i <= s@.len(),
    ensures
        match r {
            Ok((j, l)) => spec_parse_line(s@, i as int) == Some(
                (j as int, crate::commands::line_view(l)),
            ) && i < j <= s@.len(),
            Err(_) => spec_parse_line(s@, i as int) is None,
        },
{
    match parse_usize_at(s, i) {
        Some((j, num)) => {
            if expect_space(s, j) {
                match parse_command_at(s, j + 1) {
                    Ok((k, c)) => Ok((k, (num, c))),
                    Err(e) => Err(e),
                }
            } else {
                Err(ParseError { pos: j, expected: Expected::Space })
            }
        },
        None => Err(ParseError { pos: i, expected: Expected::Number }),
    }
}

/// Reads one program line: `line_number ' ' command`.
pub fn parse_line(s: &str) -> (r: Result<(usize, Line), ParseError>)
    ensures
        match r {
            Ok((j, l)) => spec_parse_line(s@, 0) == Some((j as int, crate::commands::line_view(l))),
            Err(_) => spec_parse_line(s@, 0) is None,
        },
{
    parse_line_at(s, 0)
}

/// A successfully parsed line consumes at least one character and stays
/// within the input.
pub proof fn lemma_parse_line_bounds(s: Seq<char>, i: int)
    requires
        0 <= i <= s.len(),
    ensures
        spec_parse_line(s, i) matches Some((j, l)) ==> i < j <= s.len(),
{
    lemma_digit_run_end(s, i);
    match spec_parse_usize(s, i) {
        Some((j, num)) => {
            if j < s.len() && s[j] == ' ' {
                lemma_parse_command_bounds(s, j + 1);
            }
        },
        None => {},
    }
}

pub proof fn lemma_parse_command_bounds(s: Seq<char>, i: int)
    requires
        0 <= i <= s.len(),
    ensures
        spec_parse_command(s, i) matches Some((j, c)) ==> i < j <= s.len(),
{
    match spec_match_command(s, i) {
        Some((i2, k)) => {
            if i2 < s.len() && s[i2] == ' ' {
                let i3 = i2 + 1;
                match k {
                    Keyword::Print => {
                        lemma_print_payload_bounds(s, i3);
                    },
                    Keyword::Go => {
                        lemma_digit_run_end(s, i3);
                    },
                    Keyword::Let => {
                        crate::variables::lemma_parse_var_bounds(s, i3);
                    },
                    Keyword::Rem => {
                        lemma_line_end(s, i3);
                    },
                }
            }
        },
        None => {},
    }
}

pub proof fn lemma_print_payload_bounds(s: Seq<char>, i: int)
    requires
        0 <= i <= s.len(),
    ensures
        spec_print_payload(s, i) matches Some((j, p)) ==> i < j <= s.len(),
{
    lemma_alnum_run_end(s, i);
    if !(spec_str_var_name(s, i) is Some) && !(spec_int_var_name(s, i) is Some) {
        if i < s.len() && s[i] == '"' {
            lemma_string_body_bounds(s, i + 1);
        }
    }
}

} // verus!
