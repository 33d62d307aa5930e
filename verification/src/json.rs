//! JSON scanning primitives shared by the two resource decoders: whitespace,
//! punctuation, literals, unsigned numbers, strings, booleans, and a skipper
//! for whole values whose content does not matter.
//!
//! Each construct is specified by a spec function over the character sequence
//! of the input; the executable scanners, which work on the character vector
//! of the response body, are proved to return exactly what the spec functions
//! describe.

use crate::text::{char_at, char_from_scalar, char_of_scalar, lemma_char_of_scalar, push_char,
    str_len};
use vstd::prelude::*;

verus! {

broadcast use vstd::utf8::char_is_scalar;

/// JSON insignificant whitespace.
pub open spec fn is_ws_char(c: char) -> bool {
    c == ' ' || c == '\t' || c == '\n' || c == '\r'
}

/// The first position at or after `i` that does not hold whitespace.
pub open spec fn skip_ws(s: Seq<char>, i: int) -> int
    decreases s.len() - i,
{
    if 0 <= i < s.len() && is_ws_char(s[i]) {
        skip_ws(s, i + 1)
    } else {
        i
    }
}

/// Advances past whitespace, returning `skip_ws` of the start position.
pub fn ws_end(s: &Vec<char>, i: usize) -> (j: usize)
    requires
        i <= s@.len(),
    ensures
        j == skip_ws(s@, i as int),
        i <= j <= s@.len(),
{
    let n = s.len();
    let mut k = i;
    while k < n
        invariant
            n == s@.len(),
            i <= k <= n,
            skip_ws(s@, i as int) == skip_ws(s@, k as int),
        decreases n - k,
    {
        let c = s[k];
        if !(c == ' ' || c == '\t' || c == '\n' || c == '\r') {
            proof {
                assert(skip_ws(s@, k as int) == k);
            }
            return k;
        }
        k = k + 1;
    }
    proof {
        assert(skip_ws(s@, k as int) == k);
    }
    k
}

/// True when `lit` occurs in `s` starting exactly at position `i`.
pub open spec fn match_lit(s: Seq<char>, i: int, lit: Seq<char>) -> bool {
    0 <= i && i + lit.len() <= s.len() && s.subrange(i, i + lit.len()) == lit
}

/// Consumes the exact text `lit` at position `i`.
pub fn eat_lit(s: &Vec<char>, i: usize, lit: &str) -> (r: Option<usize>)
    requires
        lit.is_ascii(),
        i <= s@.len(),
    ensures
        match r {
            Some(j) => match_lit(s@, i as int, lit@) && j == i + lit@.len() && j <= s@.len(),
            None => !match_lit(s@, i as int, lit@),
        },
{
    let n = s.len();
    let m = str_len(lit);
    if m > n - i {
        proof {
            assert(!match_lit(s@, i as int, lit@));
        }
        return None;
    }
    let mut k: usize = 0;
    while k < m
        invariant
            lit.is_ascii(),
            n == s@.len(),
            m == lit@.len(),
            i + m <= n,
            0 <= k <= m,
            forall|q: int| 0 <= q < k ==> s@[i + q] == lit@[q],
        decreases m - k,
    {
        let a = s[i + k];
        let b = char_at(lit, k);
        if a != b {
            proof {
                assert(s@.subrange(i as int, i + lit@.len())[k as int] != lit@[k as int]);
            }
            return None;
        }
        k = k + 1;
    }
    proof {
        assert(s@.subrange(i as int, i + lit@.len()) =~= lit@);
    }
    Some(i + m)
}

/// Whitespace, then one expected punctuation character: the position just
/// after that character.
pub open spec fn eat_sym(s: Seq<char>, i: int, c: char) -> Option<int> {
    let j = skip_ws(s, i);
    if j < s.len() && s[j] == c {
        Some(j + 1)
    } else {
        None
    }
}

/// Consumes whitespace and the expected character `c`.
pub fn sym_at(s: &Vec<char>, i: usize, c: char) -> (r: Option<usize>)
    requires
        i <= s@.len(),
    ensures
        match r {
            Some(j) => eat_sym(s@, i as int, c) == Some(j as int) && i < j <= s@.len(),
            None => eat_sym(s@, i as int, c) is None,
        },
{
    let n = s.len();
    let j = ws_end(s, i);
    if j < n {
        let ch = s[j];
        if ch == c {
            return Some(j + 1);
        }
    }
    None
}

/// A decimal digit.
pub open spec fn is_digit(c: char) -> bool {
    '0' <= c <= '9'
}

/// The numeric value of a decimal digit character.
pub open spec fn digit_val(c: char) -> nat
    recommends
        is_digit(c),
{
    (c as nat - '0' as nat) as nat
}

/// The code of a decimal digit character.
proof fn lemma_digit_cast(c: char)
    requires
        '0' <= c <= '9',
    ensures
        48 <= c as u32 <= 57,
        (c as u32 - 48) as nat == digit_val(c),
{
}

/// The first position at or after `i` that does not hold a digit.
pub open spec fn digits_end(s: Seq<char>, i: int) -> int
    decreases s.len() - i,
{
    if 0 <= i < s.len() && is_digit(s[i]) {
        digits_end(s, i + 1)
    } else {
        i
    }
}

/// The value of the digit run `s[i..j)`, most significant digit first.
pub open spec fn digits_val(s: Seq<char>, i: int, j: int) -> nat
    decreases j - i,
{
    if i < j {
        digits_val(s, i, j - 1) * 10 + digit_val(s[j - 1])
    } else {
        0
    }
}

/// A longer digit run never has a smaller value.
proof fn lemma_digits_val_monotone(s: Seq<char>, i: int, k: int, j: int)
    requires
        i <= k <= j,
    ensures
        digits_val(s, i, k) <= digits_val(s, i, j),
    decreases j - k,
{
    if k < j {
        lemma_digits_val_monotone(s, i, k, j - 1);
        assert(digits_val(s, i, j - 1) <= digits_val(s, i, j - 1) * 10);
    }
}

/// A JSON unsigned integer: a non-empty digit run with no superfluous
/// leading zero, whose value fits in `u32`.
pub open spec fn parse_u32(s: Seq<char>, i: int) -> Option<(u32, int)> {
    let j = digits_end(s, i);
    if i < j && (s[i] != '0' || j == i + 1) && digits_val(s, i, j) <= u32::MAX {
        Some((digits_val(s, i, j) as u32, j))
    } else {
        None
    }
}

/// Advances past decimal digits, returning `digits_end` of the start position.
fn digits_run_end(s: &Vec<char>, i: usize) -> (j: usize)
    requires
        i <= s@.len(),
    ensures
        j == digits_end(s@, i as int),
        i <= j <= s@.len(),
{
    let n = s.len();
    let mut k = i;
    while k < n
        invariant
            n == s@.len(),
            i <= k <= n,
            digits_end(s@, i as int) == digits_end(s@, k as int),
        decreases n - k,
    {
        let c = s[k];
        if !('0' <= c && c <= '9') {
            proof {
                assert(!is_digit(s@[k as int]));
                assert(digits_end(s@, k as int) == k);
            }
            return k;
        }
        proof {
            assert(is_digit(s@[k as int]));
        }
        k = k + 1;
    }
    proof {
        assert(digits_end(s@, k as int) == k);
    }
    k
}

/// Scans the digit run at `i` and returns its value, or `None` when there is
/// no digit at `i`, the run has a superfluous leading zero, or the value
/// does not fit in `u32`.
pub fn u32_at(s: &Vec<char>, i: usize) -> (r: Option<(u32, usize)>)
    requires
        i <= s@.len(),
    ensures
        match r {
            Some((v, j)) => parse_u32(s@, i as int) == Some((v, j as int)) && i < j <= s@.len(),
            None => parse_u32(s@, i as int) is None,
        },
{
    let n = s.len();
    let j = digits_run_end(s, i);
    if j == i {
        return None;
    }
    let c0 = s[i];
    if c0 == '0' && j > i + 1 {
        return None;
    }
    // accumulate the value, watching for overflow
    let mut acc: u32 = 0;
    let mut p = i;
    while p < j
        invariant
            n == s@.len(),
            i <= p <= j <= n,
            j == digits_end(s@, i as int),
            acc == digits_val(s@, i as int, p as int),
        decreases j - p,
    {
        let c = s[p];
        proof {
            lemma_digits_end_in_run(s@, i as int, p as int);
            assert(is_digit(s@[p as int]));
            lemma_digit_cast(c);
        }
        let u = c as u32;
        let d = u - 48;
        let wide: u64 = acc as u64 * 10 + d as u64;
        if wide > u32::MAX as u64 {
            proof {
                lemma_digits_val_monotone(s@, i as int, p + 1, j as int);
            }
            return None;
        }
        acc = wide as u32;
        p = p + 1;
    }
    Some((acc, j))
}

/// Every position strictly inside a digit run holds a digit.
proof fn lemma_digits_end_in_run(s: Seq<char>, i: int, p: int)
    requires
        0 <= i <= p,
        p < digits_end(s, i),
    ensures
        p < s.len() && is_digit(s[p]),
    decreases p - i,
{
    if i < s.len() && is_digit(s[i]) {
        if p > i {
            lemma_digits_end_in_run(s, i + 1, p);
        }
    } else {
        assert(digits_end(s, i) == i);
    }
}

/// A hexadecimal digit.
pub open spec fn is_hex(c: char) -> bool {
    '0' <= c <= '9' || 'a' <= c <= 'f' || 'A' <= c <= 'F'
}

/// The numeric value of a hexadecimal digit character.
pub open spec fn hex_val(c: char) -> nat
    recommends
        is_hex(c),
{
    if '0' <= c <= '9' {
        (c as nat - '0' as nat) as nat
    } else if 'a' <= c <= 'f' {
        (c as nat - 'a' as nat + 10) as nat
    } else {
        (c as nat - 'A' as nat + 10) as nat
    }
}

/// The code of a hexadecimal digit character.
proof fn lemma_hex_cast(c: char)
    requires
        is_hex(c),
    ensures
        '0' <= c <= '9' ==> 48 <= c as u32 <= 57 && (c as u32 - 48) as nat == hex_val(c),
        'a' <= c <= 'f' ==> 97 <= c as u32 <= 102 && (c as u32 - 87) as nat == hex_val(c),
        'A' <= c <= 'F' ==> 65 <= c as u32 <= 70 && (c as u32 - 55) as nat == hex_val(c),
{
}

/// The value of the four hexadecimal digits at `i`, when all four are there.
pub open spec fn hex4_val(s: Seq<char>, i: int) -> Option<u32> {
    if 0 <= i && i + 4 <= s.len() && is_hex(s[i]) && is_hex(s[i + 1]) && is_hex(s[i + 2]) && is_hex(
        s[i + 3],
    ) {
        Some(
            ((hex_val(s[i]) * 0x1000 + hex_val(s[i + 1]) * 0x100 + hex_val(s[i + 2]) * 0x10
                + hex_val(s[i + 3]))) as u32,
        )
    } else {
        None
    }
}

/// Scans one hexadecimal digit.
fn hex_val_at(s: &Vec<char>, k: usize) -> (r: Option<u32>)
    requires
        k < s@.len(),
    ensures
        match r {
            Some(u) => is_hex(s@[k as int]) && u == hex_val(s@[k as int]) && u <= 15,
            None => !is_hex(s@[k as int]),
        },
{
    let c = s[k];
    if '0' <= c && c <= '9' {
        proof {
            lemma_hex_cast(c);
        }
        Some(c as u32 - 48)
    } else if 'a' <= c && c <= 'f' {
        proof {
            lemma_hex_cast(c);
        }
        Some(c as u32 - 87)
    } else if 'A' <= c && c <= 'F' {
        proof {
            lemma_hex_cast(c);
        }
        Some(c as u32 - 55)
    } else {
        None
    }
}

/// Scans the four hexadecimal digits at `i`.
fn hex4_at(s: &Vec<char>, i: usize) -> (r: Option<u32>)
    requires
        i <= s@.len(),
    ensures
        match r {
            Some(u) => hex4_val(s@, i as int) == Some(u) && u <= 0xFFFF && i + 4 <= s@.len(),
            None => hex4_val(s@, i as int) is None,
        },
{
    let n = s.len();
    if n - i < 4 {
        return None;
    }
    let d0 = match hex_val_at(s, i) {
        Some(u) => u,
        None => {
            return None;
        },
    };
    let d1 = match hex_val_at(s, i + 1) {
        Some(u) => u,
        None => {
            return None;
        },
    };
    let d2 = match hex_val_at(s, i + 2) {
        Some(u) => u,
        None => {
            return None;
        },
    };
    let d3 = match hex_val_at(s, i + 3) {
        Some(u) => u,
        None => {
            return None;
        },
    };
    Some(d0 * 0x1000 + d1 * 0x100 + d2 * 0x10 + d3)
}

/// A `\u` escape at position `i`, where `s[i]` is the backslash and
/// `s[i + 1]` is the `u`: the character it denotes and the position after
/// the escape. A high surrogate must be followed by a low surrogate escape,
/// the pair denoting one supplementary character; a lone surrogate denotes
/// nothing.
pub open spec fn u_escape(s: Seq<char>, i: int) -> Option<(char, int)> {
    match hex4_val(s, i + 2) {
        Some(code) => if 0xD800 <= code && code < 0xDC00 {
            if i + 8 <= s.len() && s[i + 6] == '\\' && s[i + 7] == 'u' {
                match hex4_val(s, i + 8) {
                    Some(lo) => if 0xDC00 <= lo && lo < 0xE000 {
                        Some(
                            (
                                char_of_scalar(
                                    (0x10000 + (code - 0xD800) * 0x400 + (lo - 0xDC00)) as u32,
                                ),
                                i + 12,
                            ),
                        )
                    } else {
                        None
                    },
                    None => None,
                }
            } else {
                None
            }
        } else if 0xDC00 <= code && code < 0xE000 {
            None
        } else {
            Some((char_of_scalar(code), i + 6))
        },
        None => None,
    }
}

/// Scans the `\u` escape at `i` (the backslash position).
fn u_escape_at(s: &Vec<char>, i: usize) -> (r: Option<(char, usize)>)
    requires
        i + 2 <= s@.len(),
    ensures
        match r {
            Some((c, j)) => u_escape(s@, i as int) == Some((c, j as int)) && i < j <= s@.len(),
            None => u_escape(s@, i as int) is None,
        },
{
    let n = s.len();
    let code = match hex4_at(s, i + 2) {
        Some(u) => u,
        None => {
            return None;
        },
    };
    if 0xD800 <= code && code < 0xDC00 {
        if n - i < 8 {
            return None;
        }
        if !(s[i + 6] == '\\' && s[i + 7] == 'u') {
            return None;
        }
        let lo = match hex4_at(s, i + 8) {
            Some(u) => u,
            None => {
                return None;
            },
        };
        if !(0xDC00 <= lo && lo < 0xE000) {
            return None;
        }
        let scalar: u32 = 0x10000 + (code - 0xD800) * 0x400 + (lo - 0xDC00);
        let c = char_from_scalar(scalar);
        proof {
            lemma_char_of_scalar(c, scalar);
        }
        Some((c, i + 12))
    } else if 0xDC00 <= code && code < 0xE000 {
        None
    } else {
        let c = char_from_scalar(code);
        proof {
            lemma_char_of_scalar(c, code);
        }
        Some((c, i + 6))
    }
}

/// A character that may stand unescaped inside a JSON string: any character
/// at or above the space, apart from the quote and the backslash.
pub open spec fn is_content_char(c: char) -> bool {
    ' ' <= c && c != '"' && c != '\\'
}

/// The character denoted by a single-character escape sequence.
pub open spec fn unescape(c: char) -> Option<char> {
    if c == '"' {
        Some('"')
    } else if c == '\\' {
        Some('\\')
    } else if c == '/' {
        Some('/')
    } else if c == 'n' {
        Some('\n')
    } else if c == 't' {
        Some('\t')
    } else if c == 'r' {
        Some('\r')
    } else if c == 'b' {
        Some('\u{8}')
    } else if c == 'f' {
        Some('\u{c}')
    } else {
        None
    }
}

/// Decides the character denoted by a single-character escape sequence.
fn unescape_char(c: char) -> (r: Option<char>)
    ensures
        r == unescape(c),
{
    if c == '"' {
        Some('"')
    } else if c == '\\' {
        Some('\\')
    } else if c == '/' {
        Some('/')
    } else if c == 'n' {
        Some('\n')
    } else if c == 't' {
        Some('\t')
    } else if c == 'r' {
        Some('\r')
    } else if c == 'b' {
        Some('\u{8}')
    } else if c == 'f' {
        Some('\u{c}')
    } else {
        None
    }
}

/// The decoded content of a string body that starts just after the opening
/// quote, together with the position just after the closing quote.
pub open spec fn parse_str_body(s: Seq<char>, i: int) -> Option<(Seq<char>, int)>
    decreases s.len() - i,
{
    if !(0 <= i < s.len()) {
        None
    } else if s[i] == '"' {
        Some((Seq::empty(), i + 1))
    } else if s[i] == '\\' {
        if i + 1 < s.len() && s[i + 1] == 'u' {
            match u_escape(s, i) {
                Some((c, j)) => if i < j <= s.len() {
                    match parse_str_body(s, j) {
                        Some((t, k)) => Some((seq![c] + t, k)),
                        None => None,
                    }
                } else {
                    None
                },
                None => None,
            }
        } else if i + 2 <= s.len() && unescape(s[i + 1]) is Some {
            match parse_str_body(s, i + 2) {
                Some((t, j)) => Some((seq![unescape(s[i + 1])->0] + t, j)),
                None => None,
            }
        } else {
            None
        }
    } else if is_content_char(s[i]) {
        match parse_str_body(s, i + 1) {
            Some((t, j)) => Some((seq![s[i]] + t, j)),
            None => None,
        }
    } else {
        None
    }
}

/// A quoted JSON string at position `i`: its decoded content and the
/// position just after the closing quote.
pub open spec fn parse_string(s: Seq<char>, i: int) -> Option<(Seq<char>, int)> {
    if 0 <= i < s.len() && s[i] == '"' {
        parse_str_body(s, i + 1)
    } else {
        None
    }
}

/// Relates the decode of the whole string body to the decode of the part
/// that is still to be read: what was read so far stands in `out`.
spec fn str_body_rel(s: Seq<char>, start: int, i: int, out: Seq<char>) -> bool {
    match parse_str_body(s, start) {
        Some((t, j)) => parse_str_body(s, i) matches Some((t2, j2)) && t == out + t2 && j == j2,
        None => parse_str_body(s, i) is None,
    }
}

/// Scans the quoted string at `i` and returns its decoded content, or `None`
/// when no well-formed string starts there.
pub fn string_at(s: &Vec<char>, i: usize) -> (r: Option<(String, usize)>)
    requires
        i <= s@.len(),
    ensures
        match r {
            Some((t, j)) => parse_string(s@, i as int) == Some((t@, j as int)) && i < j
                <= s@.len(),
            None => parse_string(s@, i as int) is None,
        },
{
    let n = s.len();
    if i == n {
        return None;
    }
    let q = s[i];
    if q != '"' {
        return None;
    }
    let ghost start = i as int + 1;
    let mut out = String::new();
    let mut k = i + 1;
    proof {
        assert(out@ =~= Seq::<char>::empty());
        match parse_str_body(s@, start) {
            Some((t, j)) => {
                assert(t =~= out@ + t);
            },
            None => {},
        }
    }
    loop
        invariant
            n == s@.len(),
            i + 1 <= k <= n,
            str_body_rel(s@, start, k as int, out@),
            start == i + 1,
            i < n,
            s@[i as int] == '"',
        decreases n - k,
    {
        if k == n {
            // the input ends before the closing quote
            proof {
                assert(parse_str_body(s@, k as int) is None);
            }
            return None;
        }
        let c = s[k];
        if c == '"' {
            proof {
                assert(parse_str_body(s@, k as int) == Some((Seq::<char>::empty(), k + 1int)));
                if parse_str_body(s@, start) is Some {
                    let (t, j) = parse_str_body(s@, start)->0;
                    assert(t == out@ + Seq::<char>::empty());
                    assert(t =~= out@);
                }
            }
            return Some((out, k + 1));
        } else if c == '\\' {
            if k + 1 == n {
                proof {
                    assert(parse_str_body(s@, k as int) is None);
                }
                return None;
            }
            let e = s[k + 1];
            if e == 'u' {
                match u_escape_at(s, k) {
                    Some((c2, j)) => {
                        let ghost old_out = out@;
                        push_char(&mut out, c2);
                        proof {
                            assert(out@ =~= old_out + seq![c2]);
                            if parse_str_body(s@, start) is Some {
                                let (t, j0) = parse_str_body(s@, start)->0;
                                let (t2, j2) = parse_str_body(s@, k as int)->0;
                                assert(parse_str_body(s@, j as int) matches Some((t3, j3)) && t2
                                    == seq![c2] + t3 && j2 == j3);
                                let (t3, j3) = parse_str_body(s@, j as int)->0;
                                assert(t =~= out@ + t3);
                            }
                        }
                        k = j;
                    },
                    None => {
                        proof {
                            assert(parse_str_body(s@, k as int) is None);
                        }
                        return None;
                    },
                }
            } else {
                match unescape_char(e) {
                    Some(rep) => {
                        let ghost old_out = out@;
                        push_char(&mut out, rep);
                        proof {
                            let ec = unescape(s@[k + 1])->0;
                            assert(out@ =~= old_out + seq![ec]);
                            if parse_str_body(s@, start) is Some {
                                let (t, j) = parse_str_body(s@, start)->0;
                                let (t2, j2) = parse_str_body(s@, k as int)->0;
                                assert(parse_str_body(s@, k + 2) matches Some((t3, j3)) && t2
                                    == seq![ec] + t3 && j2 == j3);
                                let (t3, j3) = parse_str_body(s@, k + 2)->0;
                                assert(t =~= out@ + t3);
                            }
                        }
                        k = k + 2;
                    },
                    None => {
                        proof {
                            assert(parse_str_body(s@, k as int) is None);
                        }
                        return None;
                    },
                }
            }
        } else {
            if !(' ' <= c) {
                proof {
                    assert(!is_content_char(s@[k as int]));
                    assert(parse_str_body(s@, k as int) is None);
                }
                return None;
            }
            proof {
                assert(is_content_char(s@[k as int]));
            }
            let ghost old_out = out@;
            push_char(&mut out, c);
            proof {
                assert(out@ =~= old_out + seq![s@[k as int]]);
                if parse_str_body(s@, start) is Some {
                    let (t, j) = parse_str_body(s@, start)->0;
                    let (t2, j2) = parse_str_body(s@, k as int)->0;
                    assert(parse_str_body(s@, k + 1) matches Some((t3, j3)) && t2 == seq![
                        s@[k as int],
                    ] + t3 && j2 == j3);
                    let (t3, j3) = parse_str_body(s@, k + 1)->0;
                    assert(t =~= out@ + t3);
                }
            }
            k = k + 1;
        }
    }
}

/// A JSON boolean literal at position `i`.
pub open spec fn parse_bool(s: Seq<char>, i: int) -> Option<(bool, int)> {
    if match_lit(s, i, "true"@) {
        Some((true, i + "true"@.len()))
    } else if match_lit(s, i, "false"@) {
        Some((false, i + "false"@.len()))
    } else {
        None
    }
}

/// Scans the boolean literal at `i`.
pub fn bool_at(s: &Vec<char>, i: usize) -> (r: Option<(bool, usize)>)
    requires
        i <= s@.len(),
    ensures
        match r {
            Some((v, j)) => parse_bool(s@, i as int) == Some((v, j as int)) && i < j <= s@.len(),
            None => parse_bool(s@, i as int) is None,
        },
{
    proof {
        reveal_strlit("true");
        reveal_strlit("false");
        assert("true".is_ascii());
        assert("false".is_ascii());
    }
    match eat_lit(s, i, "true") {
        Some(j) => Some((true, j)),
        None => match eat_lit(s, i, "false") {
            Some(j) => Some((false, j)),
            None => None,
        },
    }
}

/// The optional fraction part of a JSON number at `i`: a point and at least
/// one digit, or nothing.
pub open spec fn skip_frac(s: Seq<char>, i: int) -> Option<int> {
    if 0 <= i < s.len() && s[i] == '.' {
        let f = digits_end(s, i + 1);
        if i + 1 < f {
            Some(f)
        } else {
            None
        }
    } else {
        Some(i)
    }
}

/// The optional exponent part of a JSON number at `i`: an `e` or `E`, an
/// optional sign, and at least one digit, or nothing.
pub open spec fn skip_exp(s: Seq<char>, i: int) -> Option<int> {
    if 0 <= i < s.len() && (s[i] == 'e' || s[i] == 'E') {
        let a = if i + 1 < s.len() && (s[i + 1] == '+' || s[i + 1] == '-') {
            i + 2
        } else {
            i + 1
        };
        let f = digits_end(s, a);
        if a < f {
            Some(f)
        } else {
            None
        }
    } else {
        Some(i)
    }
}

/// Any JSON number at `i`, of which only the extent matters: an optional
/// minus, an integer part with no superfluous leading zero, an optional
/// fraction and an optional exponent.
pub open spec fn skip_number(s: Seq<char>, i: int) -> Option<int> {
    let a = if 0 <= i < s.len() && s[i] == '-' {
        i + 1
    } else {
        i
    };
    let j = digits_end(s, a);
    if a < j && (s[a] != '0' || j == a + 1) {
        match skip_frac(s, j) {
            Some(k) => skip_exp(s, k),
            None => None,
        }
    } else {
        None
    }
}

/// Passes over the JSON number at `i`.
fn skip_number_at(s: &Vec<char>, i: usize) -> (r: Option<usize>)
    requires
        i <= s@.len(),
    ensures
        match r {
            Some(j) => skip_number(s@, i as int) == Some(j as int) && i < j <= s@.len(),
            None => skip_number(s@, i as int) is None,
        },
{
    let n = s.len();
    let a = if i < n && s[i] == '-' {
        i + 1
    } else {
        i
    };
    let j = digits_run_end(s, a);
    if j == a {
        return None;
    }
    let c0 = s[a];
    if c0 == '0' && j > a + 1 {
        return None;
    }
    let k = if j < n && s[j] == '.' {
        let f = digits_run_end(s, j + 1);
        if f == j + 1 {
            return None;
        }
        f
    } else {
        j
    };
    proof {
        assert(skip_frac(s@, j as int) == Some(k as int));
    }
    if k < n {
        let e = s[k];
        if e == 'e' || e == 'E' {
            let b = if k + 1 < n && (s[k + 1] == '+' || s[k + 1] == '-') {
                k + 2
            } else {
                k + 1
            };
            let f = digits_run_end(s, b);
            if f == b {
                return None;
            }
            proof {
                assert(skip_exp(s@, k as int) == Some(f as int));
            }
            return Some(f);
        }
    }
    proof {
        assert(skip_exp(s@, k as int) == Some(k as int));
    }
    Some(k)
}

/// Any JSON value at `i`, of which only the extent matters: the position
/// just after it. The decoders pass over members
/// outside the known record shapes with this, reading the value only to
/// find its end.
pub open spec fn skip_value(s: Seq<char>, i: int) -> Option<int>
    decreases s.len() - i,
{
    let a = skip_ws(s, i);
    if !(i <= a && a < s.len()) {
        None
    } else if s[a] == '"' {
        match parse_string(s, a) {
            Some((t, j)) => Some(j),
            None => None,
        }
    } else if s[a] == '{' {
        match eat_sym(s, a + 1, '}') {
            Some(j) => Some(j),
            None => match skip_member(s, a + 1) {
                Some(j) => if a + 1 < j && j <= s.len() {
                    skip_members_tail(s, j)
                } else {
                    None
                },
                None => None,
            },
        }
    } else if s[a] == '[' {
        match eat_sym(s, a + 1, ']') {
            Some(j) => Some(j),
            None => match skip_value(s, a + 1) {
                Some(j) => if a + 1 < j && j <= s.len() {
                    skip_elems_tail(s, j)
                } else {
                    None
                },
                None => None,
            },
        }
    } else if s[a] == 't' || s[a] == 'f' {
        match parse_bool(s, a) {
            Some((b, j)) => Some(j),
            None => None,
        }
    } else if match_lit(s, a, "null"@) {
        Some(a + "null"@.len())
    } else {
        skip_number(s, a)
    }
}

/// One member of an object being passed over: its key, the colon, its value.
pub open spec fn skip_member(s: Seq<char>, i: int) -> Option<int>
    decreases s.len() - i,
{
    match parse_string(s, skip_ws(s, i)) {
        Some((key, j)) => match eat_sym(s, j, ':') {
            Some(c) => if i < c && c <= s.len() {
                skip_value(s, c)
            } else {
                None
            },
            None => None,
        },
        None => None,
    }
}

/// After a member of an object being passed over: the closing brace, or a
/// comma and a further member.
pub open spec fn skip_members_tail(s: Seq<char>, i: int) -> Option<int>
    decreases s.len() - i,
{
    if !(0 <= i <= s.len()) {
        None
    } else {
        match eat_sym(s, i, '}') {
            Some(j) => Some(j),
            None => match eat_sym(s, i, ',') {
                Some(a) => if i < a {
                    match skip_member(s, a) {
                        Some(j) => if i < j && j <= s.len() {
                            skip_members_tail(s, j)
                        } else {
                            None
                        },
                        None => None,
                    }
                } else {
                    None
                },
                None => None,
            },
        }
    }
}

/// After an element of an array being passed over: the closing bracket, or
/// a comma and a further element.
pub open spec fn skip_elems_tail(s: Seq<char>, i: int) -> Option<int>
    decreases s.len() - i,
{
    if !(0 <= i <= s.len()) {
        None
    } else {
        match eat_sym(s, i, ']') {
            Some(j) => Some(j),
            None => match eat_sym(s, i, ',') {
                Some(a) => if i < a {
                    match skip_value(s, a) {
                        Some(j) => if i < j && j <= s.len() {
                            skip_elems_tail(s, j)
                        } else {
                            None
                        },
                        None => None,
                    }
                } else {
                    None
                },
                None => None,
            },
        }
    }
}

/// Passes over the JSON value at `i`.
pub fn skip_value_at(s: &Vec<char>, i: usize) -> (r: Option<usize>)
    requires
        i <= s@.len(),
    ensures
        match r {
            Some(j) => skip_value(s@, i as int) == Some(j as int) && i < j <= s@.len(),
            None => skip_value(s@, i as int) is None,
        },
    decreases s@.len() - i,
{
    let n = s.len();
    let a = ws_end(s, i);
    if a == n {
        return None;
    }
    let c = s[a];
    if c == '"' {
        match string_at(s, a) {
            Some((t, j)) => Some(j),
            None => None,
        }
    } else if c == '{' {
        match sym_at(s, a + 1, '}') {
            Some(j) => Some(j),
            None => match skip_member_at(s, a + 1) {
                Some(j) => skip_members_tail_at(s, j),
                None => None,
            },
        }
    } else if c == '[' {
        match sym_at(s, a + 1, ']') {
            Some(j) => Some(j),
            None => match skip_value_at(s, a + 1) {
                Some(j) => skip_elems_tail_at(s, j),
                None => None,
            },
        }
    } else if c == 't' || c == 'f' {
        match bool_at(s, a) {
            Some((b, j)) => Some(j),
            None => None,
        }
    } else {
        proof {
            reveal_strlit("null");
            assert("null".is_ascii());
        }
        match eat_lit(s, a, "null") {
            Some(j) => Some(j),
            None => skip_number_at(s, a),
        }
    }
}

/// Passes over the object member at `i`.
fn skip_member_at(s: &Vec<char>, i: usize) -> (r: Option<usize>)
    requires
        i <= s@.len(),
    ensures
        match r {
            Some(j) => skip_member(s@, i as int) == Some(j as int) && i < j <= s@.len(),
            None => skip_member(s@, i as int) is None,
        },
    decreases s@.len() - i,
{
    let k0 = ws_end(s, i);
    match string_at(s, k0) {
        Some((key, j)) => match sym_at(s, j, ':') {
            Some(c) => skip_value_at(s, c),
            None => None,
        },
        None => None,
    }
}

/// Passes over what follows a member of an object being skipped.
fn skip_members_tail_at(s: &Vec<char>, i: usize) -> (r: Option<usize>)
    requires
        i <= s@.len(),
    ensures
        match r {
            Some(j) => skip_members_tail(s@, i as int) == Some(j as int) && i < j <= s@.len(),
            None => skip_members_tail(s@, i as int) is None,
        },
    decreases s@.len() - i,
{
    match sym_at(s, i, '}') {
        Some(j) => Some(j),
        None => match sym_at(s, i, ',') {
            Some(a) => match skip_member_at(s, a) {
                Some(j) => skip_members_tail_at(s, j),
                None => None,
            },
            None => None,
        },
    }
}

/// Passes over what follows an element of an array being skipped.
fn skip_elems_tail_at(s: &Vec<char>, i: usize) -> (r: Option<usize>)
    requires
        i <= s@.len(),
    ensures
        match r {
            Some(j) => skip_elems_tail(s@, i as int) == Some(j as int) && i < j <= s@.len(),
            None => skip_elems_tail(s@, i as int) is None,
        },
    decreases s@.len() - i,
{
    match sym_at(s, i, ']') {
        Some(j) => Some(j),
        None => match sym_at(s, i, ',') {
            Some(a) => match skip_value_at(s, a) {
                Some(j) => skip_elems_tail_at(s, j),
                None => None,
            },
            None => None,
        },
    }
}

} // verus!
