//! Decimal integers: the digit grammar shared by line numbers and integer
//! literals, and the decimal rendering used when an integer variable is
//! printed.

use vstd::prelude::*;
use vstd::string::StrSliceExecFns;
use vstd::string::StringExecFns;

verus! {

/// The ten decimal digit characters.
pub open spec fn is_digit_char(c: char) -> bool {
    48 <= c as u32 && c as u32 <= 57
}

/// Numeric value of a decimal digit character.
pub open spec fn digit_val(c: char) -> nat {
    (c as u32 - 48) as nat
}

/// Position just past the run of decimal digits that starts at `i`.
pub open spec fn digit_run_end(s: Seq<char>, i: int) -> int
    decreases s.len() - i
        when 0 <= i <= s.len()
{
    if i < s.len() && is_digit_char(s[i]) {
        digit_run_end(s, i + 1)
    } else {
        i
    }
}

pub proof fn lemma_digit_run_end(s: Seq<char>, i: int)
    requires
        0 <= i <= s.len(),
    ensures
        i <= digit_run_end(s, i) <= s.len(),
        forall|k: int| i <= k < digit_run_end(s, i) ==> is_digit_char(#[trigger] s[k]),
        digit_run_end(s, i) < s.len() ==> !is_digit_char(s[digit_run_end(s, i)]),
    decreases s.len() - i,
{
    if i < s.len() && is_digit_char(s[i]) {
        lemma_digit_run_end(s, i + 1);
    }
}

/// Value of the digit run `s[i..j)`, read left to right.
pub open spec fn digits_val(s: Seq<char>, i: int, j: int) -> nat
    decreases j - i
        when i <= j
{
    if i >= j {
        0
    } else {
        digits_val(s, i, j - 1) * 10 + digit_val(s[j - 1])
    }
}

/// Appending further digits can only increase the value of the run.
pub proof fn lemma_digits_val_mono(s: Seq<char>, i: int, j1: int, j2: int)
    requires
        i <= j1 <= j2,
    ensures
        digits_val(s, i, j1) <= digits_val(s, i, j2),
    decreases j2 - j1,
{
    if j1 < j2 {
        lemma_digits_val_mono(s, i, j1, j2 - 1);
    }
}

/// An unsigned line number: a nonempty digit run whose value fits in `usize`.
pub open spec fn spec_parse_usize(s: Seq<char>, i: int) -> Option<(int, nat)> {
    let j = digit_run_end(s, i);
    if j == i {
        None
    } else if digits_val(s, i, j) > usize::MAX as nat {
        None
    } else {
        Some((j, digits_val(s, i, j)))
    }
}

/// A signed integer literal: an optional sign, then a nonempty digit run,
/// with a value that fits in `i64`.
pub open spec fn spec_parse_i64(s: Seq<char>, i: int) -> Option<(int, int)> {
    let neg = i < s.len() && s[i] == '-';
    let signed = i < s.len() && (s[i] == '-' || s[i] == '+');
    let i1 = if signed {
        i + 1
    } else {
        i
    };
    let j = digit_run_end(s, i1);
    if j == i1 {
        None
    } else {
        let m = digits_val(s, i1, j) as int;
        let v = if neg {
            -m
        } else {
            m
        };
        if i64::MIN <= v <= i64::MAX {
            Some((j, v))
        } else {
            None
        }
    }
}

pub(crate) fn is_digit(c: char) -> (r: bool)
    ensures
        r == is_digit_char(c),
{
    let u = c as u32;
    48 <= u && u <= 57
}

fn digit_run_end_exec(s: &str, i: usize) -> (j: usize)
    requires
        i <= s@.len(),
    ensures
        j as int == digit_run_end(s@, i as int),
        i <= j <= s@.len(),
    decreases s@.len() - i,
{
    let n = s.unicode_len();
    if i < n {
        let c = s.get_char(i);
        if is_digit(c) {
            return digit_run_end_exec(s, i + 1);
        }
    }
    i
}

/// Value of the digit run `s[i..j)` if it is at most `bound`.
fn digits_value_upto(s: &str, i: usize, j: usize, bound: u64) -> (r: Option<u64>)
    requires
        i <= j <= s@.len(),
        10 <= bound,
        forall|k: int| i <= k < j ==> is_digit_char(#[trigger] s@[k]),
    ensures
        match r {
            Some(v) => v as nat == digits_val(s@, i as int, j as int) && v <= bound,
            None => digits_val(s@, i as int, j as int) > bound,
        },
    decreases j - i,
{
    if i >= j {
        return Some(0);
    }
    let prev = digits_value_upto(s, i, j - 1, bound);
    match prev {
        None => {
            proof {
                lemma_digits_val_mono(s@, i as int, j as int - 1, j as int);
            }
            None
        },
        Some(p) => {
            let c = s.get_char(j - 1);
            proof {
                assert(is_digit_char(s@[j as int - 1]));
            }
            let d = (c as u32 - 48) as u64;
            if p <= (bound - d) / 10 {
                Some(p * 10 + d)
            } else {
                None
            }
        },
    }
}

/// Reads an unsigned integer that fits in `usize`, as a line number is read.
pub fn parse_usize_at(s: &str, i: usize) -> (r: Option<(usize, usize)>)
    requires
        i <= s@.len(),
    ensures
        match r {
            Some((j, v)) => spec_parse_usize(s@, i as int) == Some((j as int, v as nat)) && i < j
                <= s@.len(),
            None => spec_parse_usize(s@, i as int) is None,
        },
{
    let j = digit_run_end_exec(s, i);
    if j == i {
        return None;
    }
    proof {
        lemma_digit_run_end(s@, i as int);
    }
    match digits_value_upto(s, i, j, usize::MAX as u64) {
        Some(v) => Some((j, v as usize)),
        None => None,
    }
}

/// Reads a signed integer literal that fits in `i64`.
pub fn parse_i64_at(s: &str, i: usize) -> (r: Option<(usize, i64)>)
    requires
        i <= s@.len(),
    ensures
        match r {
            Some((j, v)) => spec_parse_i64(s@, i as int) == Some((j as int, v as int)) && i < j
                <= s@.len(),
            None => spec_parse_i64(s@, i as int) is None,
        },
{
    let n = s.unicode_len();
    let mut neg = false;
    let mut i1 = i;
    if i < n {
        let c = s.get_char(i);
        if c == '-' {
            neg = true;
            i1 = i + 1;
        } else if c == '+' {
            i1 = i + 1;
        }
    }
    let j = digit_run_end_exec(s, i1);
    if j == i1 {
        return None;
    }
    proof {
        lemma_digit_run_end(s@, i1 as int);
    }
    let bound: u64 = if neg {
        9223372036854775808u64
    } else {
        9223372036854775807u64
    };
    match digits_value_upto(s, i1, j, bound) {
        Some(m) => {
            if neg {
                if m == 9223372036854775808u64 {
                    Some((j, i64::MIN))
                } else {
                    Some((j, -(m as i64)))
                }
            } else {
                Some((j, m as i64))
            }
        },
        None => None,
    }
}

/// Decimal digit character for a value below ten.
pub open spec fn digit_char(d: nat) -> char {
    ((48 + d) as u8) as char
}

/// Decimal rendering of a natural number, most significant digit first.
pub open spec fn dec_rep(n: nat) -> Seq<char>
    decreases n,
{
    if n < 10 {
        seq![digit_char(n)]
    } else {
        dec_rep(n / 10).push(digit_char(n % 10))
    }
}

/// Decimal rendering of an integer, with a leading minus sign if negative.
pub open spec fn spec_int_seq(v: int) -> Seq<char> {
    if v < 0 {
        seq!['-'] + dec_rep((-v) as nat)
    } else {
        dec_rep(v as nat)
    }
}

fn dec_chars(n: u64) -> (r: Vec<char>)
    ensures
        r@ == dec_rep(n as nat),
    decreases n,
{
    if n < 10 {
        let c = ((48 + n as u8)) as char;
        let mut v: Vec<char> = Vec::new();
        v.push(c);
        proof {
            assert(v@ =~= seq![digit_char(n as nat)]);
        }
        v
    } else {
        let mut v = dec_chars(n / 10);
        let c = ((48 + (n % 10) as u8)) as char;
        v.push(c);
        v
    }
}

/// Renders an unsigned integer in decimal.
pub fn uint_to_string(n: u64) -> (r: String)
    ensures
        r@ == dec_rep(n as nat),
{
    let chars = dec_chars(n);
    let mut out = String::new();
    let mut k: usize = 0;
    while k < chars.len()
        invariant
            k <= chars.len(),
            chars@ == dec_rep(n as nat),
            out@ == chars@.take(k as int),
        decreases chars.len() - k,
    {
        crate::text::push_char(&mut out, chars[k]);
        k = k + 1;
    }
    proof {
        assert(chars@.take(chars@.len() as int) =~= chars@);
    }
    out
}

/// Renders a signed integer in decimal, as an integer variable is printed.
pub fn int_to_string(v: i64) -> (r: String)
    ensures
        r@ == spec_int_seq(v as int),
{
    if v < 0 {
        let m: u64 = if v == i64::MIN {
            9223372036854775808u64
        } else {
            (-v) as u64
        };
        let digits = uint_to_string(m);
        let mut out = String::new();
        crate::text::push_char(&mut out, '-');
        out.append(digits.as_str());
        proof {
            assert(out@ =~= seq!['-'] + dec_rep(m as nat));
        }
        out
    } else {
        uint_to_string(v as u64)
    }
}

} // verus!
