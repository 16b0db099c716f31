//! Value and variable-name grammar: integer variable names, single-letter
//! string variable names, and the three `LET` assignment forms, tried in the
//! load-bearing order integer, then string, then alias.

use crate::commands::{Primitive, SpecPrimitive};
use crate::generic::{
    consume_line_at, line_end, read_string_at, spec_read_string, Expected, ParseError,
};
use crate::numbers::{is_digit, is_digit_char, parse_i64_at, spec_parse_i64};
use crate::text::{char_alphabetic, is_alphabetic};
use vstd::prelude::*;
use vstd::string::StrSliceExecFns;
use vstd::string::StringExecFns;

verus! {

/// The ASCII alphanumeric characters.
pub open spec fn is_alnum_char(c: char) -> bool {
    (97 <= c as u32 && c as u32 <= 122) || (65 <= c as u32 && c as u32 <= 90) || (48 <= c as u32
        && c as u32 <= 57)
}

/// Position just past the run of ASCII alphanumeric characters starting at `i`.
pub open spec fn alnum_run_end(s: Seq<char>, i: int) -> int
    decreases s.len() - i
        when 0 <= i <= s.len()
{
    if i < s.len() && is_alnum_char(s[i]) {
        alnum_run_end(s, i + 1)
    } else {
        i
    }
}

pub proof fn lemma_alnum_run_end(s: Seq<char>, i: int)
    requires
        0 <= i <= s.len(),
    ensures
        i <= alnum_run_end(s, i) <= s.len(),
    decreases s.len() - i,
{
    if i < s.len() && is_alnum_char(s[i]) {
        lemma_alnum_run_end(s, i + 1);
    }
}

/// A successfully parsed assignment consumes at least one character and stays
/// within the input.
pub proof fn lemma_parse_var_bounds(s: Seq<char>, i: int)
    requires
        0 <= i <= s.len(),
    ensures
        spec_parse_var(s, i) matches Some((j, b)) ==> i < j <= s.len(),
{
    lemma_alnum_run_end(s, i);
    match spec_int_var_name(s, i) {
        Some((j0, name)) => {
            if j0 < s.len() && s[j0] == '=' {
                crate::numbers::lemma_digit_run_end(s, j0 + 1);
                if j0 + 2 <= s.len() {
                    crate::numbers::lemma_digit_run_end(s, j0 + 2);
                }
                crate::generic::lemma_line_end(s, j0 + 1);
            }
        },
        None => {},
    }
    match spec_str_var_name(s, i) {
        Some((j0, name)) => {
            if j0 < s.len() && s[j0] == '=' {
                if j0 + 1 < s.len() && s[j0 + 1] == '"' {
                    crate::generic::lemma_string_body_bounds(s, j0 + 2);
                }
                crate::generic::lemma_line_end(s, j0 + 1);
            }
        },
        None => {},
    }
}

fn is_alnum(c: char) -> (r: bool)
    ensures
        r == is_alnum_char(c),
{
    let u = c as u32;
    (97 <= u && u <= 122) || (65 <= u && u <= 90) || (48 <= u && u <= 57)
}

fn alnum_run_end_exec(s: &str, i: usize) -> (j: usize)
    requires
        i <= s@.len(),
    ensures
        j as int == alnum_run_end(s@, i as int),
        i <= j <= s@.len(),
    decreases s@.len() - i,
{
    let n = s.unicode_len();
    if i < n {
        let c = s.get_char(i);
        if is_alnum(c) {
            return alnum_run_end_exec(s, i + 1);
        }
    }
    i
}

/// An integer-variable name: one or more ASCII alphanumeric characters, not
/// starting with a decimal digit.
pub open spec fn spec_int_var_name(s: Seq<char>, i: int) -> Option<(int, Seq<char>)> {
    if i < s.len() && !is_digit_char(s[i]) {
        let j = alnum_run_end(s, i);
        if j == i {
            None
        } else {
            Some((j, s.subrange(i, j)))
        }
    } else {
        None
    }
}

/// A string-variable name: exactly one alphabetic character immediately
/// followed by a mandatory `$`.
pub open spec fn spec_str_var_name(s: Seq<char>, i: int) -> Option<(int, Seq<char>)> {
    if i + 2 <= s.len() && char_alphabetic(s[i]) && s[i + 1] == '$' {
        Some((i + 2, seq![s[i], '$']))
    } else {
        None
    }
}

/// An integer assignment: `name '=' signed-integer`.
pub open spec fn spec_parse_int(s: Seq<char>, i: int) -> Option<(int, (Seq<char>, SpecPrimitive))> {
    match spec_int_var_name(s, i) {
        Some((j, name)) => if j < s.len() && s[j] == '=' {
            match spec_parse_i64(s, j + 1) {
                Some((k, v)) => Some((k, (name, SpecPrimitive::Integer(v)))),
                None => None,
            }
        } else {
            None
        },
        None => None,
    }
}

/// A string assignment: `name$ '=' quoted-string`.
pub open spec fn spec_parse_str(s: Seq<char>, i: int) -> Option<(int, (Seq<char>, SpecPrimitive))> {
    match spec_str_var_name(s, i) {
        Some((j, name)) => if j < s.len() && s[j] == '=' {
            match spec_read_string(s, j + 1) {
                Some((k, t)) => Some((k, (name, SpecPrimitive::Text(t)))),
                None => None,
            }
        } else {
            None
        },
        None => None,
    }
}

/// An alias assignment: `name '=' rest-of-line`, the catch-all tried after the
/// integer and string forms have both failed.
pub open spec fn spec_parse_assignment(s: Seq<char>, i: int) -> Option<
    (int, (Seq<char>, SpecPrimitive)),
> {
    let name_r = if spec_str_var_name(s, i) is Some {
        spec_str_var_name(s, i)
    } else {
        spec_int_var_name(s, i)
    };
    match name_r {
        Some((j, name)) => if j < s.len() && s[j] == '=' {
            Some((line_end(s, j + 1), (name, SpecPrimitive::Alias(s.subrange(j + 1, line_end(s, j + 1))))))
        } else {
            None
        },
        None => None,
    }
}

/// A `LET` payload: the integer, string and alias forms in that order.  The
/// order is load-bearing: `a=5` is an integer assignment even though it also
/// matches the alias shape.
pub open spec fn spec_parse_var(s: Seq<char>, i: int) -> Option<(int, (Seq<char>, SpecPrimitive))> {
    if spec_parse_int(s, i) is Some {
        spec_parse_int(s, i)
    } else if spec_parse_str(s, i) is Some {
        spec_parse_str(s, i)
    } else {
        spec_parse_assignment(s, i)
    }
}

pub(crate) fn parse_int_variable_name_at(s: &str, i: usize) -> (r: Result<
    (usize, String),
    ParseError,
>)
    requires
        i <= s@.len(),
    ensures
        match r {
            Ok((j, name)) => spec_int_var_name(s@, i as int) == Some((j as int, name@)) && i < j
                <= s@.len(),
            Err(_) => spec_int_var_name(s@, i as int) is None,
        },
{
    let n = s.unicode_len();
    if i < n {
        let c = s.get_char(i);
        if !is_digit(c) {
            let j = alnum_run_end_exec(s, i);
            if j > i {
                let sub = s.substring_char(i, j);
                return Ok((j, String::from_str(sub)));
            }
        }
    }
    Err(ParseError { pos: i, expected: Expected::IntVarName })
}

/// Reads an integer-variable name: one or more alphanumeric characters, not
/// starting with a digit.
pub fn parse_int_variable_name(s: &str) -> (r: Result<(usize, String), ParseError>)
    ensures
        match r {
            Ok((j, name)) => spec_int_var_name(s@, 0) == Some((j as int, name@)),
            Err(_) => spec_int_var_name(s@, 0) is None,
        },
{
    parse_int_variable_name_at(s, 0)
}

pub(crate) fn parse_str_variable_name_at(s: &str, i: usize) -> (r: Result<
    (usize, String),
    ParseError,
>)
    requires
        i <= s@.len(),
    ensures
        match r {
            Ok((j, name)) => spec_str_var_name(s@, i as int) == Some((j as int, name@)) && i < j
                <= s@.len(),
            Err(_) => spec_str_var_name(s@, i as int) is None,
        },
{
    let n = s.unicode_len();
    if i < n && i + 1 < n {
        let c = s.get_char(i);
        if is_alphabetic(c) {
            let d = s.get_char(i + 1);
            if d == '$' {
                let sub = s.substring_char(i, i + 2);
                proof {
                    assert(s@.subrange(i as int, i as int + 2) =~= seq![s@[i as int], '$']);
                }
                return Ok((i + 2, String::from_str(sub)));
            }
        }
    }
    Err(ParseError { pos: i, expected: Expected::StrVarName })
}

/// Reads a string-variable name: a single alphabetic character immediately
/// followed by `$`; no other shape is accepted.
pub fn parse_str_variable_name(s: &str) -> (r: Result<(usize, String), ParseError>)
    ensures
        match r {
            Ok((j, name)) => spec_str_var_name(s@, 0) == Some((j as int, name@)),
            Err(_) => spec_str_var_name(s@, 0) is None,
        },
{
    parse_str_variable_name_at(s, 0)
}

fn expect_equals(s: &str, j: usize) -> (r: bool)
    requires
        j <= s@.len(),
    ensures
        r == (j < s@.len() && s@[j as int] == '='),
        s@.len() <= usize::MAX,
{
    if j < s.unicode_len() {
        let c = s.get_char(j);
        c == '='
    } else {
        false
    }
}

pub(crate) fn parse_int_at(s: &str, i: usize) -> (r: Result<
    (usize, (String, Primitive)),
    ParseError,
>)
    requires
        i <= s@.len(),
    ensures
        match r {
            Ok((j, b)) => spec_parse_int(s@, i as int) == Some((j as int, (b.0@, b.1@))) && i < j
                <= s@.len(),
            Err(_) => spec_parse_int(s@, i as int) is None,
        },
{
    match parse_int_variable_name_at(s, i) {
        Ok((j, name)) => {
            if expect_equals(s, j) {
                match parse_i64_at(s, j + 1) {
                    Some((k, v)) => Ok((k, (name, Primitive::Integer(v)))),
                    None => Err(ParseError { pos: j + 1, expected: Expected::Number }),
                }
            } else {
                Err(ParseError { pos: j, expected: Expected::Equals })
            }
        },
        Err(e) => Err(e),
    }
}

/// Reads an integer assignment `name=value`.
pub fn parse_int(s: &str) -> (r: Result<(usize, (String, Primitive)), ParseError>)
    ensures
        match r {
            Ok((j, b)) => spec_parse_int(s@, 0) == Some((j as int, (b.0@, b.1@))),
            Err(_) => spec_parse_int(s@, 0) is None,
        },
{
    parse_int_at(s, 0)
}

pub(crate) fn parse_str_at(s: &str, i: usize) -> (r: Result<
    (usize, (String, Primitive)),
    ParseError,
>)
    requires
        i <= s@.len(),
    ensures
        match r {
            Ok((j, b)) => spec_parse_str(s@, i as int) == Some((j as int, (b.0@, b.1@))) && i < j
                <= s@.len(),
            Err(_) => spec_parse_str(s@, i as int) is None,
        },
{
    match parse_str_variable_name_at(s, i) {
        Ok((j, name)) => {
            if expect_equals(s, j) {
                match read_string_at(s, j + 1) {
                    Ok((k, t)) => Ok((k, (name, Primitive::Text(t)))),
                    Err(e) => Err(e),
                }
            } else {
                Err(ParseError { pos: j, expected: Expected::Equals })
            }
        },
        Err(e) => Err(e),
    }
}

/// Reads a string assignment `name$="text"`.
pub fn parse_str(s: &str) -> (r: Result<(usize, (String, Primitive)), ParseError>)
    ensures
        match r {
            Ok((j, b)) => spec_parse_str(s@, 0) == Some((j as int, (b.0@, b.1@))),
            Err(_) => spec_parse_str(s@, 0) is None,
        },
{
    parse_str_at(s, 0)
}

pub(crate) fn parse_assignment_at(s: &str, i: usize) -> (r: Result<
    (usize, (String, Primitive)),
    ParseError,
>)
    requires
        i <= s@.len(),
    ensures
        match r {
            Ok((j, b)) => spec_parse_assignment(s@, i as int) == Some((j as int, (b.0@, b.1@)))
                && i < j <= s@.len(),
            Err(_) => spec_parse_assignment(s@, i as int) is None,
        },
{
    let name_r = match parse_str_variable_name_at(s, i) {
        Ok(ok) => Ok(ok),
        Err(_) => parse_int_variable_name_at(s, i),
    };
    match name_r {
        Ok((j, name)) => {
            if expect_equals(s, j) {
                let (k, rest) = consume_line_at(s, j + 1);
                Ok((k, (name, Primitive::Alias(rest))))
            } else {
                Err(ParseError { pos: j, expected: Expected::Equals })
            }
        },
        Err(e) => Err(e),
    }
}

/// Reads an alias assignment `name=other`, taking the rest of the line as the
/// referenced identifier.
pub fn parse_assignment(s: &str) -> (r: Result<(usize, (String, Primitive)), ParseError>)
    ensures
        match r {
            Ok((j, b)) => spec_parse_assignment(s@, 0) == Some((j as int, (b.0@, b.1@))),
            Err(_) => spec_parse_assignment(s@, 0) is None,
        },
{
    parse_assignment_at(s, 0)
}

pub(crate) fn parse_var_at(s: &str, i: usize) -> (r: Result<
    (usize, (String, Primitive)),
    ParseError,
>)
    requires
        i <= s@.len(),
    ensures
        match r {
            Ok((j, b)) => spec_parse_var(s@, i as int) == Some((j as int, (b.0@, b.1@))) && i < j
                <= s@.len(),
            Err(_) => spec_parse_var(s@, i as int) is None,
        },
{
    match parse_int_at(s, i) {
        Ok(ok) => Ok(ok),
        Err(_) => match parse_str_at(s, i) {
            Ok(ok) => Ok(ok),
            Err(_) => parse_assignment_at(s, i),
        },
    }
}

/// Reads a `LET` payload, trying the integer, string and alias assignment
/// forms in that order.
pub fn parse_var(s: &str) -> (r: Result<(usize, (String, Primitive)), ParseError>)
    ensures
        match r {
            Ok((j, b)) => spec_parse_var(s@, 0) == Some((j as int, (b.0@, b.1@))),
            Err(_) => spec_parse_var(s@, 0) is None,
        },
{
    parse_var_at(s, 0)
}

} // verus!
