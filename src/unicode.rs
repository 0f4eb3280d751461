//! Characters as Unicode scalar values and their UTF-8 bytes.
use vstd::prelude::*;
use vstd::std_specs::iter::IteratorSpec;
use vstd::utf8::*;

verus! {

broadcast use {char_is_scalar, char_u32_cast};

/// The number of Unicode scalar values: every code point but the surrogates.
pub const SCALAR_COUNT: u32 = 0x10F800;

/// The UTF-8 bytes of one character.
pub open spec fn char_bytes(c: char) -> Seq<u8> {
    encode_scalar(c as u32)
}

/// The position of scalar value `v` among all scalar values in ascending
/// order (the surrogate gap closed up).
pub open spec fn scalar_rank(v: u32) -> int {
    if v < 0xD800 {
        v as int
    } else {
        v - 0x800
    }
}

/// The scalar value at position `i` among all scalar values, the inverse of
/// [`scalar_rank`].
pub open spec fn scalar_at_rank(i: int) -> int {
    if i < 0xD800 {
        i
    } else {
        i + 0x800
    }
}

/// Relies on `char::from_u32`: `Some` exactly for Unicode scalar values,
/// holding the character with that value.
#[verifier::external_body]
fn std_char_from_u32(v: u32) -> (r: Option<char>)
    ensures
        r is Some <==> is_scalar(v),
        r matches Some(c) ==> c as u32 == v,
{
    char::from_u32(v)
}

/// The character with value `v`, where `v` is a Unicode scalar value.
pub fn char_of_scalar(v: u32) -> (c: char)
    requires
        is_scalar(v),
    ensures
        c as u32 == v,
{
    match std_char_from_u32(v) {
        Some(c) => c,
        None => {
            proof {
                assert(false);
            }
            '\0'
        },
    }
}

/// The character with value `v`, or `None` where `v` is no Unicode scalar
/// value (a surrogate, or above `0x10FFFF`).
pub fn char_from_u32(v: u32) -> (r: Option<char>)
    ensures
        r is Some <==> is_scalar(v),
        r matches Some(c) ==> c as u32 == v,
{
    std_char_from_u32(v)
}

/// The rank of a character among all scalar values.
pub fn rank_of(c: char) -> (r: u32)
    ensures
        r as int == scalar_rank(c as u32),
        r < SCALAR_COUNT,
        scalar_at_rank(r as int) == c as u32,
{
    let v = c as u32;
    if v < 0xD800 {
        v
    } else {
        v - 0x800
    }
}

/// The character of the given rank among all scalar values.
pub fn char_at_rank(i: u32) -> (c: char)
    requires
        i < SCALAR_COUNT,
    ensures
        c as u32 == scalar_at_rank(i as int),
        scalar_rank(c as u32) == i,
{
    let v = if i < 0xD800 {
        i
    } else {
        i + 0x800
    };
    char_of_scalar(v)
}

/// The UTF-8 encoding of `c`.
pub fn char_utf8(c: char) -> (r: Vec<u8>)
    ensures
        r@ == char_bytes(c),
{
    let v = c as u32;
    let mut r: Vec<u8> = Vec::new();
    if v <= 0x7F {
        r.push((v & 0x7F) as u8);
    } else if v <= 0x7FF {
        r.push(0xC0u8 | ((v >> 6) & 0x1F) as u8);
        r.push(0x80u8 | (v & 0x3F) as u8);
    } else if v <= 0xFFFF {
        r.push(0xE0u8 | ((v >> 12) & 0x0F) as u8);
        r.push(0x80u8 | ((v >> 6) & 0x3F) as u8);
        r.push(0x80u8 | (v & 0x3F) as u8);
    } else {
        r.push(0xF0u8 | ((v >> 18) & 0x7) as u8);
        r.push(0x80u8 | ((v >> 12) & 0x3F) as u8);
        r.push(0x80u8 | ((v >> 6) & 0x3F) as u8);
        r.push(0x80u8 | (v & 0x3F) as u8);
    }
    assert(r@ =~= char_bytes(c));
    r
}

/// The characters of `s`, in order.
pub fn chars_of(s: &str) -> (r: Vec<char>)
    ensures
        r@ == s@,
{
    let mut it = s.chars();
    let mut r: Vec<char> = Vec::new();
    loop
        invariant
            r@ + it.remaining() == s@,
            it.decrease() is Some,
        ensures
            r@ == s@,
        decreases it.decrease()->0,
    {
        match it.next() {
            Some(c) => {
                r.push(c);
            },
            None => {
                assert(r@ + it.remaining() =~= r@);
                break;
            },
        }
    }
    r
}

/// The first character of `s`, if it has one.
pub fn first_char(s: &str) -> (r: Option<char>)
    ensures
        r == (if s@.len() > 0 {
            Some(s@[0])
        } else {
            None::<char>
        }),
{
    let mut it = s.chars();
    it.next()
}

/// Whether two byte strings are equal.
pub fn bytes_equal(a: &[u8], b: &[u8]) -> (r: bool)
    ensures
        r == (a@ == b@),
{
    if a.len() != b.len() {
        return false;
    }
    let mut i: usize = 0;
    while i < a.len()
        invariant
            i <= a@.len() == b@.len(),
            forall|j: int| 0 <= j < i ==> a@[j] == b@[j],
        decreases a@.len() - i,
    {
        if a[i] != b[i] {
            return false;
        }
        i = i + 1;
    }
    assert(a@ =~= b@);
    true
}

/// Whether two strings hold the same characters.
pub fn same_text(a: &str, b: &str) -> (r: bool)
    ensures
        r == (a@ == b@),
{
    let r = bytes_equal(a.as_bytes(), b.as_bytes());
    proof {
        encode_utf8_decode_utf8(a@);
        encode_utf8_decode_utf8(b@);
    }
    r
}

/// Two encodings of a character are equal only for equal characters.
pub proof fn lemma_char_bytes_injective(a: char, b: char)
    ensures
        char_bytes(a) == char_bytes(b) ==> a == b,
{
    lemma_char_bytes_is_encoding(a);
    lemma_char_bytes_is_encoding(b);
    encode_utf8_decode_utf8(seq![a]);
    encode_utf8_decode_utf8(seq![b]);
    if char_bytes(a) == char_bytes(b) {
        assert(seq![a][0] == seq![b][0]);
    }
}

/// The bytes of one character are the UTF-8 encoding of a one-character
/// sequence.
pub proof fn lemma_char_bytes_is_encoding(c: char)
    ensures
        encode_utf8(seq![c]) == char_bytes(c),
{
    let s = seq![c];
    assert(s.drop_first() =~= Seq::<char>::empty());
    assert(encode_utf8(Seq::<char>::empty()) =~= Seq::<u8>::empty());
    assert(encode_utf8(s) =~= char_bytes(c));
}

} // verus!
