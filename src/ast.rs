//! The parsed form of an ANTLR4-style grammar.
use vstd::prelude::*;

use crate::unicode::chars_of;

verus! {

/// A grammar: its name and its rules, in the order they were written.
#[derive(Debug)]
pub struct Grammar {
    pub name: String,
    pub rules: Vec<Rule>,
}

impl Grammar {
    pub fn new(name: String, rules: Vec<Rule>) -> (g: Grammar)
        ensures
            g.name == name,
            g.rules == rules,
    {
        Grammar { name, rules }
    }

    pub fn rules(&self) -> (r: &Vec<Rule>)
        ensures
            r == &self.rules,
    {
        &self.rules
    }
}

/// What a rule describes: lexer rules and fragments build tokens out of
/// characters, parser rules build sentences out of tokens.
#[derive(Debug, Clone, Copy, PartialEq, Eq, Structural)]
pub enum RuleType {
    Lexer,
    Parser,
    Fragment,
}

/// One element of a rule body.
#[derive(Debug)]
pub enum Operation {
    /// `op?`
    Optional(Box<Operation>),
    /// `op*`
    Star(Box<Operation>),
    /// `op+`
    Plus(Box<Operation>),
    /// A parenthesised sequence.
    Group(Vec<Operation>),
    /// Alternative sequences, separated by `|`.
    Alternate(Vec<Vec<Operation>>),
    /// A reference to a lexer rule.
    Token(String),
    /// A reference to a parser rule.
    Rule(String),
    /// A quoted string.
    StringLiteral(String),
    /// `'a'..'z'`: the bounds are the first characters of the two strings.
    Range((String, String)),
    /// `.`
    Any,
    /// `[...]`, holding `Char` and `CharRange` items.
    CharacterClass(Vec<Operation>),
    Char(char),
    CharRange((char, char)),
    /// `~op`
    Not(Box<Operation>),
}

/// One rule of a grammar.
#[derive(Debug)]
pub struct Rule {
    pub name: String,
    pub rule_type: RuleType,
    pub body: Vec<Operation>,
}

impl Rule {
    pub fn new(name: String, rule_type: RuleType, body: Vec<Operation>) -> (r: Rule)
        ensures
            r.name == name,
            r.rule_type == rule_type,
            r.body == body,
    {
        Rule { name, rule_type, body }
    }

    pub fn name(&self) -> (r: &str)
        ensures
            r@ == self.name@,
    {
        self.name.as_str()
    }

    pub fn rule_type(&self) -> (r: RuleType)
        ensures
            r == self.rule_type,
    {
        self.rule_type
    }

    pub fn body(&self) -> (r: &Vec<Operation>)
        ensures
            r == &self.body,
    {
        &self.body
    }
}

/// `op` wrapped in the quantifier written as `q`, or `None` where `q` is
/// none of `?`, `*` and `+`.
pub open spec fn quantified(q: Seq<char>, op: Operation) -> Option<Operation> {
    if q == seq!['?'] {
        Some(Operation::Optional(Box::new(op)))
    } else if q == seq!['*'] {
        Some(Operation::Star(Box::new(op)))
    } else if q == seq!['+'] {
        Some(Operation::Plus(Box::new(op)))
    } else {
        None
    }
}

/// `op` under the quantifiers `qs`, the first of them innermost.
pub open spec fn unrolled(qs: Seq<Seq<char>>, op: Operation) -> Option<Operation>
    decreases qs.len(),
{
    if qs.len() == 0 {
        Some(op)
    } else {
        match unrolled(qs.drop_last(), op) {
            Some(inner) => quantified(qs.last(), inner),
            None => None,
        }
    }
}

/// The text of each string.
pub open spec fn texts(v: Seq<String>) -> Seq<Seq<char>> {
    v.map_values(|s: String| s@)
}

/// The wrapping of `op` in a quantifier.
fn quantify(q: &String, op: Operation) -> (r: Option<Operation>)
    ensures
        r == quantified(q@, op),
{
    let cs = chars_of(q.as_str());
    if cs.len() == 1 {
        let c = cs[0];
        proof {
            assert(seq!['?'].len() == 1 && seq!['*'].len() == 1 && seq!['+'].len() == 1);
            assert(q@ == seq![c]) by {
                assert(q@ =~= seq![c]);
            }
        }
        if c == '?' {
            Some(Operation::Optional(Box::new(op)))
        } else if c == '*' {
            Some(Operation::Star(Box::new(op)))
        } else if c == '+' {
            Some(Operation::Plus(Box::new(op)))
        } else {
            None
        }
    } else {
        proof {
            assert(seq!['?'].len() == 1 && seq!['*'].len() == 1 && seq!['+'].len() == 1);
        }
        None
    }
}

/// Folds the quantifiers written after `token` into it, the first one
/// innermost: `a?*` becomes `Star(Optional(a))`. `None` where a quantifier
/// is none of `?`, `*` and `+`.
pub fn unroll_quantifier(quantifiers: Vec<String>, token: Operation) -> (r: Option<Operation>)
    ensures
        r == unrolled(texts(quantifiers@), token),
{
    let mut ret = token;
    let mut i: usize = 0;
    while i < quantifiers.len()
        invariant
            i <= quantifiers.len(),
            unrolled(texts(quantifiers@.take(i as int)), token) == Some(ret),
        decreases quantifiers.len() - i,
    {
        proof {
            let qs = texts(quantifiers@.take(i as int + 1));
            assert(qs.drop_last() =~= texts(quantifiers@.take(i as int)));
            assert(qs.last() == quantifiers@[i as int]@);
        }
        match quantify(&quantifiers[i], ret) {
            Some(op) => {
                ret = op;
            },
            None => {
                proof {
                    lemma_unrolled_fails_after(texts(quantifiers@), token, i as int + 1);
                    assert(texts(quantifiers@).take(i as int + 1) =~= texts(quantifiers@.take(i as int + 1)));
                }
                return None;
            },
        }
        i = i + 1;
    }
    proof {
        assert(quantifiers@.take(i as int) =~= quantifiers@);
    }
    Some(ret)
}

/// Once a prefix of the quantifiers cannot be unrolled, neither can the whole.
proof fn lemma_unrolled_fails_after(qs: Seq<Seq<char>>, op: Operation, n: int)
    requires
        0 <= n <= qs.len(),
        unrolled(qs.take(n), op) is None,
    ensures
        unrolled(qs, op) is None,
    decreases qs.len() - n,
{
    if n < qs.len() {
        assert(qs.take(n + 1).drop_last() =~= qs.take(n));
        lemma_unrolled_fails_after(qs, op, n + 1);
    } else {
        assert(qs.take(n) =~= qs);
    }
}

} // verus!
