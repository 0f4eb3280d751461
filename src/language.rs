//! What a generator tree may produce, and which errors generation may
//! report, stated over whole outputs.
use vstd::prelude::*;
use vstd::utf8::encode_utf8;

use crate::combinator::Generator;
use crate::entropy::is_alphanumeric;
use crate::unicode::char_bytes;
use crate::value::{in_char_range, is_alphanumeric_byte, STRING_MAX};

verus! {

/// Repetitions of `Many` and `Many1` stay below this count.
pub const MANY_MAX: usize = 20;

/// Repetitions of `SepBy` and `SepBy1` stay below this count.
pub const SEP_BY_MAX: usize = 20;

/// The negation of `RepeatN` repeats at most this many times.
pub const REPEAT_MAX: usize = 20;

/// How many rule references deep [`Generator::generate`] follows before it
/// gives up.
pub const MAX_DEPTH: usize = 64;

/// Why generation stopped without an output.
#[derive(Debug, PartialEq, Eq)]
pub enum GenerateError {
    /// A `Rule` node names a rule that is not registered.
    UnknownRule(String),
    /// Negation was asked of a node that has none: a sequence, a join, a
    /// counted range, a separated repetition, `Any`, a choice among two or
    /// more generators, or a character range holding every character.
    NegationUnsupported,
    /// Rule references nested deeper than the depth allowed.
    DepthExhausted,
}

/// The number of separators between `n` items.
pub open spec fn gaps(n: int) -> int {
    if n > 0 {
        n - 1
    } else {
        0
    }
}

/// The items in order, with `seps[i]` between `items[i]` and `items[i + 1]`.
pub open spec fn interleave(items: Seq<Seq<u8>>, seps: Seq<Seq<u8>>) -> Seq<u8> {
    Seq::new(items.len(), |i: int| if i == 0 { items[0] } else { seps[i - 1] + items[i] }).flatten()
}

/// `out` is an output that `g` may give: its generation, or with `neg` its
/// negation, following at most `depth` rule references looked up in `rules`.
pub open spec fn yields(
    g: Generator,
    rules: Map<Seq<char>, Generator>,
    depth: nat,
    neg: bool,
    out: Seq<u8>,
) -> bool
    decreases depth, g,
{
    match g {
        Generator::Char(c) => if neg {
            exists|d: char| d != c.ch && out == #[trigger] char_bytes(d)
        } else {
            out == char_bytes(c.ch)
        },
        Generator::Str(s) => if neg {
            &&& out.len() < STRING_MAX
            &&& forall|i: int| 0 <= i < out.len() ==> is_alphanumeric_byte(#[trigger] out[i])
            &&& out != encode_utf8(s.s@)
        } else {
            out == encode_utf8(s.s@)
        },
        Generator::Byte(b) => if neg {
            out.len() == 1 && out[0] != b.byte
        } else {
            out == seq![b.byte]
        },
        Generator::CharRange(r) => exists|d: char|
            in_char_range(d, r.n, r.m) != neg && out == #[trigger] char_bytes(d),
        Generator::Any(_) => !neg && exists|d: char| is_alphanumeric(d) && out == #[trigger] char_bytes(d),
        Generator::Choice(c) => if neg {
            c.choices.len() == 1 && yields(c.choices[0], rules, depth, true, out)
        } else {
            exists|i: int| 0 <= i < c.choices.len() && yields(#[trigger] c.choices[i], rules, depth, false, out)
        },
        Generator::Many(x) => exists|parts: Seq<Seq<u8>>|
            {
                &&& parts.len() < MANY_MAX
                &&& #[trigger] parts.flatten() == out
                &&& forall|i: int| 0 <= i < parts.len() ==> yields(*x.generator, rules, depth, neg, #[trigger] parts[i])
            },
        Generator::Many1(x) => exists|parts: Seq<Seq<u8>>|
            {
                &&& (neg || 1 <= parts.len()) && parts.len() < MANY_MAX
                &&& #[trigger] parts.flatten() == out
                &&& forall|i: int| 0 <= i < parts.len() ==> yields(*x.generator, rules, depth, neg, #[trigger] parts[i])
            },
        Generator::Optional(x) => out.len() == 0 || yields(*x.generator, rules, depth, neg, out),
        Generator::Rule(r) => {
            &&& depth > 0
            &&& rules.contains_key(r.name@)
            &&& yields(rules[r.name@], rules, (depth - 1) as nat, neg, out)
        },
        Generator::Sequence(s) => !neg && exists|parts: Seq<Seq<u8>>|
            {
                &&& parts.len() == s.generators.len()
                &&& #[trigger] parts.flatten() == out
                &&& forall|i: int| 0 <= i < s.generators.len() ==> yields(s.generators[i], rules, depth, false, #[trigger] parts[i])
            },
        Generator::RepeatN(x) => exists|parts: Seq<Seq<u8>>|
            {
                &&& if neg {
                    parts.len() <= REPEAT_MAX && parts.len() != x.n
                } else {
                    parts.len() == x.n
                }
                &&& #[trigger] parts.flatten() == out
                &&& forall|i: int| 0 <= i < parts.len() ==> yields(*x.generator, rules, depth, neg, #[trigger] parts[i])
            },
        Generator::Range(x) => !neg && exists|parts: Seq<Seq<u8>>|
            {
                &&& x.n <= parts.len() < x.m
                &&& #[trigger] parts.flatten() == out
                &&& forall|i: int| 0 <= i < parts.len() ==> yields(*x.generator, rules, depth, false, #[trigger] parts[i])
            },
        Generator::JoinWith(j) => !neg && exists|parts: Seq<Seq<u8>>, delims: Seq<Seq<u8>>|
            {
                &&& parts.len() == j.generators.len()
                &&& delims.len() == gaps(parts.len() as int)
                &&& #[trigger] interleave(parts, delims) == out
                &&& forall|i: int| 0 <= i < j.generators.len() ==> yields(j.generators[i], rules, depth, false, #[trigger] parts[i])
                &&& forall|i: int| 0 <= i < delims.len() ==> yields(*j.delimiter, rules, depth, false, #[trigger] delims[i])
            },
        Generator::SepBy(x) => !neg && exists|items: Seq<Seq<u8>>, seps: Seq<Seq<u8>>|
            {
                &&& items.len() < SEP_BY_MAX
                &&& seps.len() == gaps(items.len() as int)
                &&& #[trigger] interleave(items, seps) == out
                &&& forall|i: int| 0 <= i < items.len() ==> yields(*x.generator, rules, depth, false, #[trigger] items[i])
                &&& forall|i: int| 0 <= i < seps.len() ==> yields(*x.separator, rules, depth, false, #[trigger] seps[i])
            },
        Generator::SepBy1(x) => !neg && exists|items: Seq<Seq<u8>>, seps: Seq<Seq<u8>>|
            {
                &&& 1 <= items.len() < SEP_BY_MAX
                &&& seps.len() == gaps(items.len() as int)
                &&& #[trigger] interleave(items, seps) == out
                &&& forall|i: int| 0 <= i < items.len() ==> yields(*x.generator, rules, depth, false, #[trigger] items[i])
                &&& forall|i: int| 0 <= i < seps.len() ==> yields(*x.separator, rules, depth, false, #[trigger] seps[i])
            },
        Generator::Not(x) => yields(*x.generator, rules, depth, !neg, out),
    }
}

/// `e` is an error that generating `g` (or with `neg` negating it) may
/// report: a rule reference that finds no rule, or finds the depth used up,
/// or a negation that the node it reaches does not have.
pub open spec fn may_fail(
    g: Generator,
    rules: Map<Seq<char>, Generator>,
    depth: nat,
    neg: bool,
    e: GenerateError,
) -> bool
    decreases depth, g,
{
    match g {
        Generator::CharRange(r) => neg && r.n as u32 == 0 && r.m as u32 == 0x10FFFF && e
            == GenerateError::NegationUnsupported,
        Generator::Any(_) => neg && e == GenerateError::NegationUnsupported,
        Generator::Choice(c) => if neg {
            if c.choices.len() == 1 {
                may_fail(c.choices[0], rules, depth, true, e)
            } else {
                e == GenerateError::NegationUnsupported
            }
        } else {
            exists|i: int| 0 <= i < c.choices.len() && may_fail(#[trigger] c.choices[i], rules, depth, false, e)
        },
        Generator::Many(x) => may_fail(*x.generator, rules, depth, neg, e),
        Generator::Many1(x) => may_fail(*x.generator, rules, depth, neg, e),
        Generator::Optional(x) => may_fail(*x.generator, rules, depth, neg, e),
        Generator::Rule(r) => if depth == 0 {
            e == GenerateError::DepthExhausted
        } else if !rules.contains_key(r.name@) {
            e == GenerateError::UnknownRule(r.name)
        } else {
            may_fail(rules[r.name@], rules, (depth - 1) as nat, neg, e)
        },
        Generator::Sequence(s) => if neg {
            e == GenerateError::NegationUnsupported
        } else {
            exists|i: int| 0 <= i < s.generators.len() && may_fail(#[trigger] s.generators[i], rules, depth, false, e)
        },
        Generator::RepeatN(x) => (neg || x.n > 0) && may_fail(*x.generator, rules, depth, neg, e),
        Generator::Range(x) => if neg {
            e == GenerateError::NegationUnsupported
        } else {
            x.m >= 2 && may_fail(*x.generator, rules, depth, false, e)
        },
        Generator::JoinWith(j) => if neg {
            e == GenerateError::NegationUnsupported
        } else {
            ||| exists|i: int| 0 <= i < j.generators.len() && may_fail(#[trigger] j.generators[i], rules, depth, false, e)
            ||| j.generators.len() >= 2 && may_fail(*j.delimiter, rules, depth, false, e)
        },
        Generator::SepBy(x) => if neg {
            e == GenerateError::NegationUnsupported
        } else {
            may_fail(*x.generator, rules, depth, false, e) || may_fail(*x.separator, rules, depth, false, e)
        },
        Generator::SepBy1(x) => if neg {
            e == GenerateError::NegationUnsupported
        } else {
            may_fail(*x.generator, rules, depth, false, e) || may_fail(*x.separator, rules, depth, false, e)
        },
        Generator::Not(x) => may_fail(*x.generator, rules, depth, !neg, e),
        _ => false,
    }
}

/// `r` is a possible result of generating `g` (or with `neg` negating it):
/// an output that `g` may give, or an error that it may report.
pub open spec fn outcome(
    g: Generator,
    rules: Map<Seq<char>, Generator>,
    depth: nat,
    neg: bool,
    r: Result<Vec<u8>, GenerateError>,
) -> bool {
    match r {
        Ok(out) => yields(g, rules, depth, neg, out@),
        Err(e) => may_fail(g, rules, depth, neg, e),
    }
}

/// Every part is an output that `g` may give.
pub open spec fn all_yield(
    g: Generator,
    rules: Map<Seq<char>, Generator>,
    depth: nat,
    neg: bool,
    parts: Seq<Seq<u8>>,
) -> bool {
    forall|i: int| 0 <= i < parts.len() ==> yields(g, rules, depth, neg, #[trigger] parts[i])
}

/// No items interleave to nothing.
pub proof fn lemma_interleave_empty()
    ensures
        interleave(Seq::empty(), Seq::empty()) == Seq::<u8>::empty(),
{
    assert(Seq::new(0, |i: int| if i == 0 { Seq::<Seq<u8>>::empty()[0] } else { Seq::<Seq<u8>>::empty()[i - 1] + Seq::<Seq<u8>>::empty()[i] }) =~= Seq::<Seq<u8>>::empty());
    assert(Seq::<Seq<u8>>::empty().flatten() =~= Seq::<u8>::empty());
}

/// One item interleaves to itself.
pub proof fn lemma_interleave_one(x: Seq<u8>)
    ensures
        interleave(seq![x], Seq::empty()) == x,
{
    let s = Seq::new(1, |i: int| if i == 0 { seq![x][0] } else { Seq::<Seq<u8>>::empty()[i - 1] + seq![x][i] });
    assert(s =~= seq![x]);
    assert(s.len() == 1);
    assert(s.drop_first() =~= Seq::<Seq<u8>>::empty());
    assert(s.flatten() == s[0] + s.drop_first().flatten());
    assert(s.flatten() =~= x);
}

/// Another separator and item extend the interleaving at its end.
pub proof fn lemma_interleave_push(items: Seq<Seq<u8>>, seps: Seq<Seq<u8>>, s: Seq<u8>, x: Seq<u8>)
    requires
        items.len() >= 1,
        seps.len() == items.len() - 1,
    ensures
        interleave(items.push(x), seps.push(s)) == interleave(items, seps) + (s + x),
{
    let n = items.len() as int;
    let a = Seq::new(items.len(), |i: int| if i == 0 { items[0] } else { seps[i - 1] + items[i] });
    let b = Seq::new(
        items.push(x).len(),
        |i: int| if i == 0 { items.push(x)[0] } else { seps.push(s)[i - 1] + items.push(x)[i] },
    );
    assert(b =~= a.push(s + x));
    a.lemma_flatten_push(s + x);
}

} // verus!
