//! Grammar primitives: rest-of-line consumption and escaped quoted strings,
//! together with the round-trip law between parsing and re-escaping.

use crate::text::push_char;
use vstd::prelude::*;
use vstd::string::StrSliceExecFns;
use vstd::string::StringExecFns;

verus! {

/// What a failed parse expected at the failure position.
#[derive(Debug, PartialEq, Eq, Clone)]
pub enum Expected {
    Number,
    Space,
    Quote,
    Escape,
    IntVarName,
    StrVarName,
    Equals,
    PrintArgument,
    Operator,
}

/// A structured parse failure: the position reached, and what was expected
/// there.
#[derive(Debug, PartialEq, Eq, Clone)]
pub struct ParseError {
    pub pos: usize,
    pub expected: Expected,
}

/// Position of the next line separator at or after `i`, or the end of input.
pub open spec fn line_end(s: Seq<char>, i: int) -> int
    decreases s.len() - i
        when 0 <= i <= s.len()
{
    if i < s.len() && s[i] != '\n' {
        line_end(s, i + 1)
    } else {
        i
    }
}

pub proof fn lemma_line_end(s: Seq<char>, i: int)
    requires
        0 <= i <= s.len(),
    ensures
        i <= line_end(s, i) <= s.len(),
        forall|k: int| i <= k < line_end(s, i) ==> #[trigger] s[k] != '\n',
        line_end(s, i) < s.len() ==> s[line_end(s, i)] == '\n',
    decreases s.len() - i,
{
    if i < s.len() && s[i] != '\n' {
        lemma_line_end(s, i + 1);
    }
}

fn line_end_exec(s: &str, i: usize) -> (j: usize)
    requires
        i <= s@.len(),
    ensures
        j as int == line_end(s@, i as int),
        i <= j <= s@.len(),
    decreases s@.len() - i,
{
    let n = s.unicode_len();
    if i < n {
        let c = s.get_char(i);
        if c != '\n' {
            return line_end_exec(s, i + 1);
        }
    }
    i
}

/// Takes every character up to, but excluding, the next line separator.
pub(crate) fn consume_line_at(s: &str, i: usize) -> (r: (usize, String))
    requires
        i <= s@.len(),
    ensures
        r.0 as int == line_end(s@, i as int),
        i <= r.0 <= s@.len(),
        r.1@ == s@.subrange(i as int, line_end(s@, i as int)),
{
    let j = line_end_exec(s, i);
    let content = s.substring_char(i, j);
    (j, String::from_str(content))
}

/// Takes every character up to, but excluding, the next line separator; the
/// returned position is where the separator (or the end of input) stands.
pub fn consume_line(s: &str) -> (r: (usize, String))
    ensures
        r.0 as int == line_end(s@, 0),
        r.1@ == s@.subrange(0, line_end(s@, 0)),
{
    consume_line_at(s, 0)
}

/// Scan of the body of a quoted string starting at `i`, just after the opening
/// quote.  The body ends at an unescaped quote; a backslash must be followed
/// by a backslash or a quote and stands for that character; anything else is
/// taken verbatim.  Running out of input is a failure.
pub open spec fn spec_string_body(s: Seq<char>, i: int) -> Option<(int, Seq<char>)>
    decreases s.len() - i
        when 0 <= i <= s.len()
{
    if i >= s.len() {
        None
    } else if s[i] == '"' {
        Some((i + 1, seq![]))
    } else if s[i] == '\\' {
        if i + 2 <= s.len() && (s[i + 1] == '\\' || s[i + 1] == '"') {
            match spec_string_body(s, i + 2) {
                Some((j, t)) => Some((j, seq![s[i + 1]] + t)),
                None => None,
            }
        } else {
            None
        }
    } else {
        match spec_string_body(s, i + 1) {
            Some((j, t)) => Some((j, seq![s[i]] + t)),
            None => None,
        }
    }
}

/// A quoted string literal at `i`: delimiting quotes around an escaped body,
/// yielding the unescaped body.
pub open spec fn spec_read_string(s: Seq<char>, i: int) -> Option<(int, Seq<char>)> {
    if i < s.len() && s[i] == '"' {
        spec_string_body(s, i + 1)
    } else {
        None
    }
}

pub proof fn lemma_string_body_bounds(s: Seq<char>, i: int)
    requires
        0 <= i <= s.len(),
    ensures
        spec_string_body(s, i) matches Some((j, t)) ==> i < j <= s.len(),
    decreases s.len() - i,
{
    if i < s.len() && s[i] != '"' {
        if s[i] == '\\' {
            if i + 2 <= s.len() && (s[i + 1] == '\\' || s[i + 1] == '"') {
                lemma_string_body_bounds(s, i + 2);
            }
        } else {
            lemma_string_body_bounds(s, i + 1);
        }
    }
}

fn string_body(s: &str, i: usize) -> (r: Result<(usize, String), ParseError>)
    requires
        i <= s@.len(),
    ensures
        match r {
            Ok((j, t)) => spec_string_body(s@, i as int) == Some((j as int, t@)) && i < j
                <= s@.len(),
            Err(_) => spec_string_body(s@, i as int) is None,
        },
    decreases s@.len() - i,
{
    let n = s.unicode_len();
    if i >= n {
        return Err(ParseError { pos: i, expected: Expected::Quote });
    }
    let c = s.get_char(i);
    if c == '"' {
        Ok((i + 1, String::new()))
    } else if c == '\\' {
        if i + 1 < n {
            let e = s.get_char(i + 1);
            if e == '\\' || e == '"' {
                match string_body(s, i + 2) {
                    Ok((j, t)) => {
                        let mut out = String::new();
                        push_char(&mut out, e);
                        out.append(t.as_str());
                        proof {
                            assert(out@ =~= seq![s@[i + 1]] + t@);
                        }
                        Ok((j, out))
                    },
                    Err(err) => Err(err),
                }
            } else {
                Err(ParseError { pos: i + 1, expected: Expected::Escape })
            }
        } else {
            Err(ParseError { pos: i + 1, expected: Expected::Escape })
        }
    } else {
        match string_body(s, i + 1) {
            Ok((j, t)) => {
                let mut out = String::new();
                push_char(&mut out, c);
                out.append(t.as_str());
                proof {
                    assert(out@ =~= seq![s@[i as int]] + t@);
                }
                Ok((j, out))
            },
            Err(err) => Err(err),
        }
    }
}

pub(crate) fn read_string_at(s: &str, i: usize) -> (r: Result<(usize, String), ParseError>)
    requires
        i <= s@.len(),
    ensures
        match r {
            Ok((j, t)) => spec_read_string(s@, i as int) == Some((j as int, t@)) && i < j
                <= s@.len(),
            Err(_) => spec_read_string(s@, i as int) is None,
        },
{
    let n = s.unicode_len();
    if i < n {
        let c = s.get_char(i);
        if c == '"' {
            return string_body(s, i + 1);
        }
    }
    Err(ParseError { pos: i, expected: Expected::Quote })
}

/// Reads a quoted string literal and unescapes its body: within the quotes a
/// backslash followed by a backslash or a quote stands for that character.
/// An unterminated string is a parse failure.
pub fn read_string(s: &str) -> (r: Result<(usize, String), ParseError>)
    ensures
        match r {
            Ok((j, t)) => spec_read_string(s@, 0) == Some((j as int, t@)),
            Err(_) => spec_read_string(s@, 0) is None,
        },
{
    read_string_at(s, 0)
}

/// The source form of a body: a backslash or a quote is written with a leading
/// backslash, any other character as itself.
pub open spec fn spec_escape(body: Seq<char>) -> Seq<char>
    decreases body.len(),
{
    if body.len() == 0 {
        seq![]
    } else if body[0] == '"' || body[0] == '\\' {
        seq!['\\', body[0]] + spec_escape(body.drop_first())
    } else {
        seq![body[0]] + spec_escape(body.drop_first())
    }
}

/// The full quoted source form of a body.
pub open spec fn spec_quoted(body: Seq<char>) -> Seq<char> {
    seq!['"'] + spec_escape(body) + seq!['"']
}

fn escape_body(s: &str, i: usize) -> (r: String)
    requires
        i <= s@.len(),
    ensures
        r@ == spec_escape(s@.skip(i as int)),
    decreases s@.len() - i,
{
    let n = s.unicode_len();
    if i >= n {
        proof {
            assert(s@.skip(i as int) =~= Seq::<char>::empty());
        }
        String::new()
    } else {
        proof {
            assert(s@.skip(i as int)[0] == s@[i as int]);
            assert(s@.skip(i as int).drop_first() =~= s@.skip(i as int + 1));
        }
        let c = s.get_char(i);
        let rest = escape_body(s, i + 1);
        let mut out = String::new();
        if c == '"' || c == '\\' {
            push_char(&mut out, '\\');
            push_char(&mut out, c);
            out.append(rest.as_str());
            proof {
                assert(out@ =~= seq!['\\', s@[i as int]] + rest@);
            }
        } else {
            push_char(&mut out, c);
            out.append(rest.as_str());
            proof {
                assert(out@ =~= seq![s@[i as int]] + rest@);
            }
        }
        out
    }
}

/// Writes `s` as a quoted string literal, escaping every backslash and quote.
pub fn escape_string(s: &str) -> (r: String)
    ensures
        r@ == spec_quoted(s@),
{
    let body = escape_body(s, 0);
    let mut out = String::new();
    push_char(&mut out, '"');
    out.append(body.as_str());
    push_char(&mut out, '"');
    proof {
        assert(s@.skip(0) =~= s@);
        assert(out@ =~= spec_quoted(s@));
    }
    out
}

proof fn lemma_body_round_trip(s: Seq<char>, i: int)
    requires
        0 <= i <= s.len(),
    ensures
        spec_string_body(s, i) matches Some((j, t)) ==> i < j <= s.len() && s.subrange(i, j)
            == spec_escape(t) + seq!['"'],
    decreases s.len() - i,
{
    lemma_string_body_bounds(s, i);
    if i < s.len() {
        if s[i] == '"' {
            assert(s.subrange(i, i + 1) =~= seq![s[i]]);
            assert(spec_escape(seq![]) + seq!['"'] =~= seq![s[i]]);
        } else if s[i] == '\\' {
            if i + 2 <= s.len() && (s[i + 1] == '\\' || s[i + 1] == '"') {
                lemma_body_round_trip(s, i + 2);
                match spec_string_body(s, i + 2) {
                    Some((j, t2)) => {
                        let t = seq![s[i + 1]] + t2;
                        assert(t[0] == s[i + 1]);
                        assert(t.drop_first() =~= t2);
                        assert(s.subrange(i, j) =~= seq![s[i], s[i + 1]] + s.subrange(i + 2, j));
                        assert(spec_escape(t) + seq!['"'] =~= seq!['\\', s[i + 1]] + (spec_escape(
                            t2,
                        ) + seq!['"']));
                        assert(s.subrange(i, j) =~= spec_escape(t) + seq!['"']);
                    },
                    None => {},
                }
            }
        } else {
            lemma_body_round_trip(s, i + 1);
            match spec_string_body(s, i + 1) {
                Some((j, t2)) => {
                    let t = seq![s[i]] + t2;
                    assert(t[0] == s[i]);
                    assert(t.drop_first() =~= t2);
                    assert(s.subrange(i, j) =~= seq![s[i]] + s.subrange(i + 1, j));
                    assert(spec_escape(t) + seq!['"'] =~= seq![s[i]] + (spec_escape(t2)
                        + seq!['"']));
                },
                None => {},
            }
        }
    }
}

/// Round trip, read direction: parsing a quoted string literal and then
/// re-escaping the parsed body reproduces the consumed source exactly.
pub proof fn lemma_string_round_trip(s: Seq<char>, i: int)
    requires
        0 <= i <= s.len(),
    ensures
        spec_read_string(s, i) matches Some((j, body)) ==> s.subrange(i, j) == spec_quoted(body),
{
    if i < s.len() && s[i] == '"' {
        lemma_body_round_trip(s, i + 1);
        match spec_string_body(s, i + 1) {
            Some((j, body)) => {
                assert(s.subrange(i, j) =~= seq![s[i]] + s.subrange(i + 1, j));
                assert(s.subrange(i, j) =~= spec_quoted(body));
            },
            None => {},
        }
    }
}

proof fn lemma_escaped_scans(s: Seq<char>, i: int, body: Seq<char>)
    requires
        0 <= i,
        i + spec_escape(body).len() + 1 <= s.len(),
        s.subrange(i, i + spec_escape(body).len() + 1) == spec_escape(body) + seq!['"'],
    ensures
        spec_string_body(s, i) == Some((i + spec_escape(body).len() + 1, body)),
    decreases body.len(),
{
    let e = spec_escape(body);
    if body.len() == 0 {
        assert(s[i] == (e + seq!['"'])[0]);
        assert(s[i] == '"');
        assert(body =~= Seq::<char>::empty());
    } else {
        let c = body[0];
        let rest = body.drop_first();
        let er = spec_escape(rest);
        if c == '"' || c == '\\' {
            assert(e =~= seq!['\\', c] + er);
            assert(s[i] == (e + seq!['"'])[0]);
            assert(s[i + 1] == (e + seq!['"'])[1]);
            assert(s[i] == '\\');
            assert(s[i + 1] == c);
            assert(s.subrange(i + 2, i + 2 + er.len() + 1) =~= (e + seq!['"']).subrange(
                2,
                e.len() as int + 1,
            ));
            assert(s.subrange(i + 2, i + 2 + er.len() + 1) =~= er + seq!['"']);
            lemma_escaped_scans(s, i + 2, rest);
            assert(seq![s[i + 1]] + rest =~= body);
        } else {
            assert(e =~= seq![c] + er);
            assert(s[i] == (e + seq!['"'])[0]);
            assert(s[i] == c);
            assert(s.subrange(i + 1, i + 1 + er.len() + 1) =~= (e + seq!['"']).subrange(
                1,
                e.len() as int + 1,
            ));
            assert(s.subrange(i + 1, i + 1 + er.len() + 1) =~= er + seq!['"']);
            lemma_escaped_scans(s, i + 1, rest);
            assert(seq![s[i]] + rest =~= body);
        }
    }
}

/// Round trip, write direction: the quoted source form of any body parses
/// back to exactly that body, consuming exactly the quoted form.
pub proof fn lemma_quoted_parses(s: Seq<char>, i: int, body: Seq<char>)
    requires
        0 <= i,
        i + spec_quoted(body).len() <= s.len(),
        s.subrange(i, i + spec_quoted(body).len()) == spec_quoted(body),
    ensures
        spec_read_string(s, i) == Some((i + spec_quoted(body).len(), body)),
{
    let q = spec_quoted(body);
    let e = spec_escape(body);
    assert(s[i] == q[0]);
    assert(s[i] == '"');
    assert(s.subrange(i + 1, i + 1 + e.len() + 1) =~= q.subrange(1, q.len() as int));
    assert(q.subrange(1, q.len() as int) =~= e + seq!['"']);
    lemma_escaped_scans(s, i + 1, body);
}

} // verus!
