//! Character access for the decoders: one conversion from text to its
//! character sequence, constant-time access for ASCII literals, and the two
//! character operations that vstd's string API does not cover.

use vstd::prelude::*;
use vstd::std_specs::iter::IteratorSpec;
use vstd::string::{StrSliceExecFns, StringExecFns, StringSliceAdditionalSpecFns};

verus! {

broadcast use vstd::string::group_string_axioms;

/// The characters of a string, in order, with constant-time access.
pub fn str_chars(s: &str) -> (v: Vec<char>)
    ensures
        v@ == s@,
{
    let mut it = s.chars();
    let mut v: Vec<char> = Vec::new();
    proof {
        assert(v@ + it.remaining() =~= s@);
    }
    loop
        invariant
            it.obeys_prophetic_iter_laws(),
            it.decrease() is Some,
            v@ + it.remaining() == s@,
        decreases it.decrease()->0,
    {
        let ghost prev = v@;
        match it.next() {
            Some(c) => {
                v.push(c);
                proof {
                    assert(v@ + it.remaining() =~= s@);
                }
            },
            None => {
                proof {
                    assert(v@ + it.remaining() =~= v@);
                }
                return v;
            },
        }
    }
}

/// Reads the character at position `i` of an ASCII string in constant time.
pub fn char_at(s: &str, i: usize) -> (c: char)
    requires
        s.is_ascii(),
        i < s@.len(),
    ensures
        c == s@[i as int],
{
    let b = s.get_ascii(i);
    let c = b as char;
    proof {
        assert('\0' <= s@[i as int] <= '\u{7f}');
        assert(s@[i as int] as u8 == b);
        assert(c == s@[i as int]);
    }
    c
}

/// The character count of an ASCII string, in constant time: each ASCII
/// character occupies one byte, so the byte length is the character length.
pub fn str_len(s: &str) -> (n: usize)
    requires
        s.is_ascii(),
    ensures
        n == s@.len(),
{
    proof {
        vstd::utf8::is_ascii_chars_encode_utf8(s@);
        assert(s.spec_bytes().len() == s@.len());
    }
    s.as_bytes().len()
}

/// Whether a string holds exactly the given text.
pub fn string_eq_lit(a: &String, lit: &str) -> (r: bool)
    ensures
        r == (a@ == lit@),
{
    let other = String::from_str(lit);
    a.eq(&other)
}

/// Relies on `String::push`: it appends the given character to the end of
/// the string.
#[verifier::external_body]
pub(crate) fn push_char(s: &mut String, c: char)
    ensures
        final(s)@ == old(s)@ + seq![c],
{
    s.push(c)
}

/// A Unicode scalar value: a code point outside the surrogate range.
pub open spec fn is_scalar_value(u: u32) -> bool {
    u < 0xD800 || (0xE000 <= u && u <= 0x10FFFF)
}

/// The character with the scalar value `u`.
pub open spec fn char_of_scalar(u: u32) -> char
    recommends
        is_scalar_value(u),
{
    choose|c: char| (#[trigger] (c as u32)) == u
}

/// Relies on `char::from_u32`: it returns the character with the given
/// value, and is `Some` exactly on Unicode scalar values, which the
/// precondition restricts it to.
#[verifier::external_body]
pub(crate) fn char_from_scalar(u: u32) -> (c: char)
    requires
        is_scalar_value(u),
    ensures
        c as u32 == u,
{
    char::from_u32(u).unwrap()
}

/// Two characters with one scalar value are one character, so the one with
/// the value of a scalar is the one `char_of_scalar` names.
pub proof fn lemma_char_of_scalar(c: char, u: u32)
    requires
        c as u32 == u,
    ensures
        char_of_scalar(u) == c,
{
    assert(exists|x: char| (#[trigger] (x as u32)) == u) by {
        assert(c as u32 == u);
    }
    let x = choose|x: char| (#[trigger] (x as u32)) == u;
    assert(x as u32 == u);
}

} // verus!
