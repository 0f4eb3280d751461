//! Literal nodes: fixed characters, strings and bytes, character ranges,
//! and any alphanumeric character.
use vstd::prelude::*;
use vstd::slice::slice_to_vec;
use vstd::utf8::encode_utf8;

use crate::combinator::{BuildError, Generator};
use crate::entropy::{is_alphanumeric, Entropy};
use crate::unicode::{bytes_equal, char_at_rank, char_bytes, char_utf8, rank_of, scalar_rank, SCALAR_COUNT};

verus! {

broadcast use {vstd::utf8::char_is_scalar, vstd::utf8::char_u32_cast};

/// The longest negation of a string literal is one character shorter.
pub const STRING_MAX: usize = 12;

/// Always the UTF-8 bytes of `ch`.
#[derive(Debug)]
pub struct CharLiteral {
    pub ch: char,
}

/// Always the UTF-8 bytes of `s`.
#[derive(Debug)]
pub struct StringLiteral {
    pub s: String,
}

/// Always the single byte `byte`.
#[derive(Debug)]
pub struct ByteLiteral {
    pub byte: u8,
}

/// One character whose value lies between those of `n` and `m`, both
/// included.
#[derive(Debug)]
pub struct CharRange {
    pub n: char,
    pub m: char,
}

/// One ASCII letter or digit.
#[derive(Debug)]
pub struct Any {}

/// True of the bytes of ASCII letters and digits.
pub open spec fn is_alphanumeric_byte(b: u8) -> bool {
    ||| (0x30 <= b && b <= 0x39)
    ||| (0x41 <= b && b <= 0x5A)
    ||| (0x61 <= b && b <= 0x7A)
}

/// `c` lies between `n` and `m`, both included.
pub open spec fn in_char_range(c: char, n: char, m: char) -> bool {
    n as u32 <= c as u32 && c as u32 <= m as u32
}

pub fn ch(c: char) -> (r: Generator)
    ensures
        r == Generator::Char(CharLiteral { ch: c }),
        r.wf(),
{
    Generator::Char(CharLiteral { ch: c })
}

pub fn string(s: &str) -> (r: Generator)
    ensures
        r matches Generator::Str(x) && x.s@ == s@,
        r.wf(),
{
    Generator::Str(StringLiteral { s: s.to_owned() })
}

pub fn byte(b: u8) -> (r: Generator)
    ensures
        r == Generator::Byte(ByteLiteral { byte: b }),
        r.wf(),
{
    Generator::Byte(ByteLiteral { byte: b })
}

/// A character between `n` and `m`; a low end above the high end is
/// refused.
pub fn char_range(n: char, m: char) -> (r: Result<Generator, BuildError>)
    ensures
        n as u32 <= m as u32 ==> r == Ok::<Generator, BuildError>(
            Generator::CharRange(CharRange { n, m }),
        ),
        n as u32 > m as u32 ==> r == Err::<Generator, BuildError>(
            BuildError::InvertedCharRange(n, m),
        ),
        r matches Ok(g) ==> g.wf(),
{
    if n <= m {
        Ok(Generator::CharRange(CharRange { n, m }))
    } else {
        Err(BuildError::InvertedCharRange(n, m))
    }
}

pub fn any() -> (r: Generator)
    ensures
        r == Generator::Any(Any {}),
        r.wf(),
{
    Generator::Any(Any {})
}

/// A character drawn uniformly from those whose rank lies outside
/// `[lo, hi]`, where that leaves some.
fn sample_outside(rng: &mut Entropy, lo: u32, hi: u32) -> (c: char)
    requires
        lo <= hi < SCALAR_COUNT,
        hi - lo + 1 < SCALAR_COUNT,
    ensures
        scalar_rank(c as u32) < lo || scalar_rank(c as u32) > hi,
{
    let width = hi - lo + 1;
    let k = rng.below((SCALAR_COUNT - width) as usize) as u32;
    let i = if k < lo {
        k
    } else {
        k + width
    };
    char_at_rank(i)
}

/// Ranks order characters as their values do.
proof fn lemma_rank_monotone(a: char, b: char)
    ensures
        a as u32 <= b as u32 <==> scalar_rank(a as u32) <= scalar_rank(b as u32),
{
}

impl CharLiteral {
    pub fn generate(&self) -> (r: Vec<u8>)
        ensures
            r@ == char_bytes(self.ch),
    {
        char_utf8(self.ch)
    }

    /// The bytes of a character other than `ch`, drawn uniformly.
    pub fn negate(&self, rng: &mut Entropy) -> (r: Vec<u8>)
        ensures
            exists|d: char| d != self.ch && r@ == #[trigger] char_bytes(d),
    {
        let rank = rank_of(self.ch);
        let d = sample_outside(rng, rank, rank);
        let r = char_utf8(d);
        assert(d != self.ch && r@ == char_bytes(d));
        r
    }
}

impl StringLiteral {
    pub fn generate(&self) -> (r: Vec<u8>)
        ensures
            r@ == encode_utf8(self.s@),
    {
        slice_to_vec(self.s.as_str().as_bytes())
    }

    /// An alphanumeric string shorter than `STRING_MAX` characters that
    /// differs from `s`.
    pub fn negate(&self, rng: &mut Entropy) -> (r: Vec<u8>)
        ensures
            r@.len() < STRING_MAX,
            forall|i: int| 0 <= i < r@.len() ==> is_alphanumeric_byte(#[trigger] r@[i]),
            r@ != encode_utf8(self.s@),
    {
        let own = self.s.as_str().as_bytes();
        let len = rng.below(STRING_MAX);
        let mut r: Vec<u8> = Vec::new();
        let mut i: usize = 0;
        while i < len
            invariant
                i <= len < STRING_MAX,
                r@.len() == i,
                forall|j: int| 0 <= j < r@.len() ==> is_alphanumeric_byte(#[trigger] r@[j]),
            decreases len - i,
        {
            let c = rng.alphanumeric();
            r.push(c as u8);
            i = i + 1;
        }
        if bytes_equal(r.as_slice(), own) {
            if r.len() > 0 {
                r.pop();
            } else {
                r.push(0x61u8);
            }
        }
        r
    }
}

impl ByteLiteral {
    pub fn generate(&self) -> (r: Vec<u8>)
        ensures
            r@ == seq![self.byte],
    {
        let mut r: Vec<u8> = Vec::new();
        r.push(self.byte);
        r
    }

    /// A byte other than `byte`, drawn uniformly.
    pub fn negate(&self, rng: &mut Entropy) -> (r: Vec<u8>)
        ensures
            r@.len() == 1,
            r@[0] != self.byte,
    {
        let k = rng.below(255) as u8;
        let b = if k < self.byte {
            k
        } else {
            k + 1
        };
        let mut r: Vec<u8> = Vec::new();
        r.push(b);
        r
    }
}

impl CharRange {
    /// A character between `n` and `m`, drawn uniformly.
    pub fn generate(&self, rng: &mut Entropy) -> (r: Vec<u8>)
        requires
            self.n as u32 <= self.m as u32,
        ensures
            exists|d: char| in_char_range(d, self.n, self.m) && r@ == #[trigger] char_bytes(d),
    {
        let lo = rank_of(self.n);
        let hi = rank_of(self.m);
        proof {
            lemma_rank_monotone(self.n, self.m);
        }
        let k = rng.below((hi - lo + 1) as usize) as u32;
        let d = char_at_rank(lo + k);
        proof {
            lemma_rank_monotone(self.n, d);
            lemma_rank_monotone(d, self.m);
        }
        let r = char_utf8(d);
        assert(in_char_range(d, self.n, self.m) && r@ == char_bytes(d));
        r
    }

    /// A character outside the range, drawn uniformly; `None` where the
    /// range holds every character.
    pub fn negate(&self, rng: &mut Entropy) -> (r: Option<Vec<u8>>)
        requires
            self.n as u32 <= self.m as u32,
        ensures
            r is None <==> (self.n as u32 == 0 && self.m as u32 == 0x10FFFF),
            r matches Some(v) ==> exists|d: char|
                !in_char_range(d, self.n, self.m) && v@ == #[trigger] char_bytes(d),
    {
        let lo = rank_of(self.n);
        let hi = rank_of(self.m);
        proof {
            lemma_rank_monotone(self.n, self.m);
        }
        if lo == 0 && hi == SCALAR_COUNT - 1 {
            return None;
        }
        let d = sample_outside(rng, lo, hi);
        proof {
            lemma_rank_monotone(self.n, d);
            lemma_rank_monotone(d, self.m);
        }
        let r = char_utf8(d);
        assert(!in_char_range(d, self.n, self.m) && r@ == char_bytes(d));
        Some(r)
    }
}

impl Any {
    /// An ASCII letter or digit, drawn uniformly.
    pub fn generate(&self, rng: &mut Entropy) -> (r: Vec<u8>)
        ensures
            exists|d: char| is_alphanumeric(d) && r@ == #[trigger] char_bytes(d),
    {
        let d = rng.alphanumeric();
        let r = char_utf8(d);
        assert(is_alphanumeric(d) && r@ == char_bytes(d));
        r
    }
}

} // verus!
