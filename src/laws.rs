//! Laws that relate the outputs of generator trees.
use vstd::prelude::*;
use vstd::utf8::encode_utf8;

use crate::combinator::{Choice, Generator, Many, Many1, Not, Optional, RepeatN, Rule};
use crate::language::{all_yield, may_fail, yields, GenerateError, MANY_MAX};
use crate::unicode::{char_bytes, lemma_char_bytes_injective};
use crate::value::ByteLiteral;

verus! {

/// The literal nodes: characters, strings and bytes.
pub open spec fn is_literal(g: Generator) -> bool {
    g is Char || g is Str || g is Byte
}

/// The bytes a literal node stands for.
pub open spec fn literal_bytes(g: Generator) -> Seq<u8> {
    match g {
        Generator::Char(c) => char_bytes(c.ch),
        Generator::Str(s) => encode_utf8(s.s@),
        Generator::Byte(b) => seq![b.byte],
        _ => Seq::empty(),
    }
}

/// A literal generates exactly the bytes it stands for, whatever the rules
/// and depth, and its negation never gives them.
pub proof fn lemma_literal_exact(
    g: Generator,
    rules: Map<Seq<char>, Generator>,
    depth: nat,
    out: Seq<u8>,
)
    requires
        is_literal(g),
    ensures
        yields(g, rules, depth, false, out) <==> out == literal_bytes(g),
        yields(g, rules, depth, true, out) ==> out != literal_bytes(g),
{
    if let Generator::Char(c) = g {
        if yields(g, rules, depth, true, out) {
            let d = choose|d: char| d != c.ch && out == #[trigger] char_bytes(d);
            lemma_char_bytes_injective(d, c.ch);
        }
    }
}

/// Every output of `Many` is fewer than `MANY_MAX` outputs of its
/// generator (of its negation when negated), concatenated.
pub proof fn lemma_many_count(
    x: Many,
    rules: Map<Seq<char>, Generator>,
    depth: nat,
    neg: bool,
    out: Seq<u8>,
)
    requires
        yields(Generator::Many(x), rules, depth, neg, out),
    ensures
        exists|parts: Seq<Seq<u8>>|
            {
                &&& 0 <= parts.len() < MANY_MAX
                &&& #[trigger] parts.flatten() == out
                &&& all_yield(*x.generator, rules, depth, neg, parts)
            },
{
}

/// Every output of `Many1` is at least one and fewer than `MANY_MAX`
/// outputs of its generator, concatenated.
pub proof fn lemma_many1_count(
    x: Many1,
    rules: Map<Seq<char>, Generator>,
    depth: nat,
    out: Seq<u8>,
)
    requires
        yields(Generator::Many1(x), rules, depth, false, out),
    ensures
        exists|parts: Seq<Seq<u8>>|
            {
                &&& 1 <= parts.len() < MANY_MAX
                &&& #[trigger] parts.flatten() == out
                &&& all_yield(*x.generator, rules, depth, false, parts)
            },
{
}

/// Every output of `RepeatN` is exactly `n` outputs of its generator,
/// concatenated; every output of its negation is some other number of
/// outputs of the generator's negation.
pub proof fn lemma_repeat_n_count(
    x: RepeatN,
    rules: Map<Seq<char>, Generator>,
    depth: nat,
    neg: bool,
    out: Seq<u8>,
)
    requires
        yields(Generator::RepeatN(x), rules, depth, neg, out),
    ensures
        exists|parts: Seq<Seq<u8>>|
            {
                &&& (parts.len() == x.n) != neg
                &&& #[trigger] parts.flatten() == out
                &&& all_yield(*x.generator, rules, depth, neg, parts)
            },
{
}

/// Repeating a byte `n` times gives `n` copies of it; the negation gives a
/// string of another length that holds no copy of it.
pub proof fn lemma_repeat_n_byte(
    b: u8,
    n: usize,
    rules: Map<Seq<char>, Generator>,
    depth: nat,
    neg: bool,
    out: Seq<u8>,
)
    requires
        yields(
            Generator::RepeatN(
                RepeatN { n, generator: Box::new(Generator::Byte(ByteLiteral { byte: b })) },
            ),
            rules,
            depth,
            neg,
            out,
        ),
    ensures
        !neg ==> out == Seq::new(n as nat, |i: int| b),
        neg ==> out.len() != n && forall|i: int| 0 <= i < out.len() ==> #[trigger] out[i] != b,
{
    let child = Generator::Byte(ByteLiteral { byte: b });
    let parts = choose|parts: Seq<Seq<u8>>|
        {
            &&& if neg {
                parts.len() <= crate::language::REPEAT_MAX && parts.len() != n
            } else {
                parts.len() == n
            }
            &&& #[trigger] parts.flatten() == out
            &&& forall|i: int| 0 <= i < parts.len() ==> yields(child, rules, depth, neg, #[trigger] parts[i])
        };
    lemma_flatten_of_single_bytes(parts, b, neg);
}

/// Concatenating single bytes that are all `b` (or, with `neg`, all other
/// than `b`) gives one byte per part.
proof fn lemma_flatten_of_single_bytes(parts: Seq<Seq<u8>>, b: u8, neg: bool)
    requires
        forall|i: int|
            0 <= i < parts.len() ==> (#[trigger] parts[i]).len() == 1 && (parts[i][0] == b) != neg,
    ensures
        parts.flatten().len() == parts.len(),
        forall|i: int| 0 <= i < parts.len() ==> #[trigger] parts.flatten()[i] == parts[i][0],
        !neg ==> parts.flatten() == Seq::new(parts.len(), |i: int| b),
    decreases parts.len(),
{
    if parts.len() > 0 {
        let rest = parts.drop_first();
        assert forall|i: int| 0 <= i < rest.len() implies (#[trigger] rest[i]).len() == 1 && (rest[i][0]
            == b) != neg by {
            assert(rest[i] == parts[i + 1]);
        }
        lemma_flatten_of_single_bytes(rest, b, neg);
        assert(parts.flatten() == parts[0] + rest.flatten());
        assert forall|i: int| 0 <= i < parts.len() implies #[trigger] parts.flatten()[i] == parts[i][0] by {
            if i > 0 {
                assert(parts.flatten()[i] == rest.flatten()[i - 1]);
                assert(rest[i - 1] == parts[i]);
            }
        }
        if !neg {
            assert(parts.flatten() =~= Seq::new(parts.len(), |i: int| b));
        }
    } else {
        assert(parts.flatten() =~= Seq::new(parts.len(), |i: int| b));
    }
}

/// Every output of `Optional` is empty or an output of its generator.
pub proof fn lemma_optional_shape(
    x: Optional,
    rules: Map<Seq<char>, Generator>,
    depth: nat,
    neg: bool,
    out: Seq<u8>,
)
    requires
        yields(Generator::Optional(x), rules, depth, neg, out),
    ensures
        out.len() == 0 || yields(*x.generator, rules, depth, neg, out),
{
}

/// Every output of a `Choice` is an output of one of its choices.
pub proof fn lemma_choice_member(
    x: Choice,
    rules: Map<Seq<char>, Generator>,
    depth: nat,
    out: Seq<u8>,
)
    requires
        yields(Generator::Choice(x), rules, depth, false, out),
    ensures
        exists|i: int| 0 <= i < x.choices.len() && yields(#[trigger] x.choices[i], rules, depth, false, out),
{
}

/// Negating twice changes nothing: `Not(Not(g))` gives exactly the outputs
/// and the errors of `g`, for generation and for negation.
pub proof fn lemma_double_negation(
    g: Generator,
    rules: Map<Seq<char>, Generator>,
    depth: nat,
    neg: bool,
    out: Seq<u8>,
    e: GenerateError,
)
    ensures
        yields(
            Generator::Not(Not { generator: Box::new(Generator::Not(Not { generator: Box::new(g) })) }),
            rules,
            depth,
            neg,
            out,
        ) == yields(g, rules, depth, neg, out),
        may_fail(
            Generator::Not(Not { generator: Box::new(Generator::Not(Not { generator: Box::new(g) })) }),
            rules,
            depth,
            neg,
            e,
        ) == may_fail(g, rules, depth, neg, e),
{
    let inner = Generator::Not(Not { generator: Box::new(g) });
    assert(yields(inner, rules, depth, !neg, out) == yields(g, rules, depth, neg, out));
    assert(may_fail(inner, rules, depth, !neg, e) == may_fail(g, rules, depth, neg, e));
}

/// A reference to a registered rule behaves as the rule's tree does, one
/// rule reference deeper; a reference to a name not registered gives no
/// output, and its only error is the unknown rule (or the depth used up).
pub proof fn lemma_rule_resolution(
    name: String,
    rules: Map<Seq<char>, Generator>,
    depth: nat,
    neg: bool,
    out: Seq<u8>,
    e: GenerateError,
)
    ensures
        rules.contains_key(name@) ==> yields(Generator::Rule(Rule { name }), rules, depth + 1, neg, out)
            == yields(rules[name@], rules, depth, neg, out),
        rules.contains_key(name@) ==> may_fail(Generator::Rule(Rule { name }), rules, depth + 1, neg, e)
            == may_fail(rules[name@], rules, depth, neg, e),
        !rules.contains_key(name@) ==> !yields(Generator::Rule(Rule { name }), rules, depth, neg, out),
        !rules.contains_key(name@) && depth > 0 ==> (may_fail(
            Generator::Rule(Rule { name }),
            rules,
            depth,
            neg,
            e,
        ) <==> e == GenerateError::UnknownRule(name)),
{
}

/// Registering a tree under a name, then referring to that name, behaves
/// as the tree does.
pub proof fn lemma_register_then_resolve(
    name: String,
    g: Generator,
    rules: Map<Seq<char>, Generator>,
    depth: nat,
    neg: bool,
    out: Seq<u8>,
)
    ensures
        yields(Generator::Rule(Rule { name }), rules.insert(name@, g), depth + 1, neg, out)
            == yields(g, rules.insert(name@, g), depth, neg, out),
{
}

} // verus!
