//! Translation of a grammar into a registry of generator trees, one per
//! rule.
use vstd::prelude::*;

use crate::ast::{Grammar, Operation, Rule as GrammarRule, RuleType};
use crate::combinator::{BuildError, Generator};
use crate::registry::Rules;
use crate::unicode::first_char;
use crate::value::{Any, ByteLiteral, CharLiteral, CharRange};

verus! {

/// Why a grammar could not be turned into generators.
#[derive(Debug, PartialEq, Eq)]
pub enum AntlrError {
    /// The grammar could not be read; holds the reason given.
    IoError(String),
    /// The grammar text could not be parsed; holds the parser's message.
    ParseError(String),
    /// A node of the grammar builds no generator: an alternation or a
    /// character class with no alternatives, or an inverted range.
    Build(BuildError),
    /// A `'a'..'z'` range one of whose bounds is the empty string.
    EmptyRangeBound,
}

/// The delimiter between the tokens of a parser rule: one space.
pub open spec fn space() -> Generator {
    Generator::Byte(ByteLiteral { byte: 0x20 })
}

/// `g` is the translation of `op` inside a rule of type `rt`.
pub open spec fn translates(op: Operation, rt: RuleType, g: Generator) -> bool
    decreases op,
{
    match op {
        Operation::Optional(x) => g matches Generator::Optional(o) && translates(*x, rt, *o.generator),
        Operation::Star(x) => g matches Generator::Many(o) && translates(*x, rt, *o.generator),
        Operation::Plus(x) => g matches Generator::Many1(o) && translates(*x, rt, *o.generator),
        Operation::Not(x) => g matches Generator::Not(o) && translates(*x, rt, *o.generator),
        Operation::Group(ops) => composes(ops, rt, g),
        Operation::Alternate(alts) => {
            &&& g matches Generator::Choice(c)
            &&& c.choices.len() == alts.len()
            &&& forall|i: int| 0 <= i < alts.len() ==> composes(#[trigger] alts[i], rt, c.choices[i])
        },
        Operation::CharacterClass(items) => {
            &&& g matches Generator::Choice(c)
            &&& c.choices.len() == items.len()
            &&& forall|i: int| 0 <= i < items.len() ==> translates(#[trigger] items[i], rt, c.choices[i])
        },
        Operation::Token(name) => g matches Generator::Rule(r) && r.name@ == name@,
        Operation::Rule(name) => g matches Generator::Rule(r) && r.name@ == name@,
        Operation::StringLiteral(s) => g matches Generator::Str(x) && x.s@ == s@,
        Operation::Range((lo, hi)) => {
            &&& lo@.len() > 0
            &&& hi@.len() > 0
            &&& g == Generator::CharRange(CharRange { n: lo@[0], m: hi@[0] })
        },
        Operation::Any => g == Generator::Any(Any {}),
        Operation::Char(c) => g == Generator::Char(CharLiteral { ch: c }),
        Operation::CharRange((a, b)) => g == Generator::CharRange(CharRange { n: a, m: b }),
    }
}

/// `g` puts together the translations of `ops` as a rule of type `rt`
/// does: parser rules with a space between each two, lexer rules and
/// fragments with nothing between them.
pub open spec fn composes(ops: Vec<Operation>, rt: RuleType, g: Generator) -> bool
    decreases ops,
{
    if rt == RuleType::Parser {
        &&& g matches Generator::JoinWith(j)
        &&& *j.delimiter == space()
        &&& j.generators.len() == ops.len()
        &&& forall|i: int| 0 <= i < ops.len() ==> translates(#[trigger] ops[i], rt, j.generators[i])
    } else {
        &&& g matches Generator::Sequence(s)
        &&& s.generators.len() == ops.len()
        &&& forall|i: int| 0 <= i < ops.len() ==> translates(#[trigger] ops[i], rt, s.generators[i])
    }
}

/// `e` is the error of a node of `op` that builds no generator.
pub open spec fn defect(op: Operation, e: AntlrError) -> bool
    decreases op,
{
    match op {
        Operation::Optional(x) => defect(*x, e),
        Operation::Star(x) => defect(*x, e),
        Operation::Plus(x) => defect(*x, e),
        Operation::Not(x) => defect(*x, e),
        Operation::Group(ops) => defect_in(ops, e),
        Operation::Alternate(alts) => {
            ||| alts.len() == 0 && e == AntlrError::Build(BuildError::EmptyChoice)
            ||| exists|i: int| 0 <= i < alts.len() && defect_in(#[trigger] alts[i], e)
        },
        Operation::CharacterClass(items) => {
            ||| items.len() == 0 && e == AntlrError::Build(BuildError::EmptyChoice)
            ||| exists|i: int| 0 <= i < items.len() && defect(#[trigger] items[i], e)
        },
        Operation::Range((lo, hi)) => if lo@.len() == 0 || hi@.len() == 0 {
            e == AntlrError::EmptyRangeBound
        } else {
            lo@[0] as u32 > hi@[0] as u32 && e == AntlrError::Build(
                BuildError::InvertedCharRange(lo@[0], hi@[0]),
            )
        },
        Operation::CharRange((a, b)) => a as u32 > b as u32 && e == AntlrError::Build(
            BuildError::InvertedCharRange(a, b),
        ),
        _ => false,
    }
}

/// `e` is the error of a node of one of `ops` that builds no generator.
pub open spec fn defect_in(ops: Vec<Operation>, e: AntlrError) -> bool
    decreases ops,
{
    exists|i: int| 0 <= i < ops.len() && defect(#[trigger] ops[i], e)
}

/// Translates `op`, an element of the body of a rule of type `rt`, into a
/// generator tree: alternations become choices, groups become sequences
/// (joined by spaces in parser rules), quantifiers become repetitions,
/// references become `Rule` nodes, and literals become literal nodes.
pub fn translate_rule(op: &Operation, rule_type: RuleType) -> (r: Result<Generator, AntlrError>)
    ensures
        r matches Ok(g) ==> translates(*op, rule_type, g) && g.wf(),
        r matches Err(e) ==> defect(*op, e),
        r is Ok ==> forall|e: AntlrError| !defect(*op, e),
    decreases *op,
{
    match op {
        Operation::Optional(x) => match translate_rule(x, rule_type) {
            Ok(g) => {
                proof {
                    assert forall|e: AntlrError| !defect(*op, e) by {
                        assert(!defect(**x, e));
                    }
                }
                Ok(crate::combinator::optional(g))
            },
            Err(e) => Err(e),
        },
        Operation::Star(x) => match translate_rule(x, rule_type) {
            Ok(g) => {
                proof {
                    assert forall|e: AntlrError| !defect(*op, e) by {
                        assert(!defect(**x, e));
                    }
                }
                Ok(crate::combinator::many(g))
            },
            Err(e) => Err(e),
        },
        Operation::Plus(x) => match translate_rule(x, rule_type) {
            Ok(g) => {
                proof {
                    assert forall|e: AntlrError| !defect(*op, e) by {
                        assert(!defect(**x, e));
                    }
                }
                Ok(crate::combinator::many1(g))
            },
            Err(e) => Err(e),
        },
        Operation::Not(x) => match translate_rule(x, rule_type) {
            Ok(g) => {
                proof {
                    assert forall|e: AntlrError| !defect(*op, e) by {
                        assert(!defect(**x, e));
                    }
                }
                Ok(crate::combinator::not(g))
            },
            Err(e) => Err(e),
        },
        Operation::Group(ops) => {
            let r = compose(ops, rule_type);
            proof {
                if r is Ok {
                    assert forall|e: AntlrError| !defect(*op, e) by {
                        assert(!defect_in(*ops, e));
                    }
                }
            }
            r
        },
        Operation::Alternate(alts) => {
            let mut choices: Vec<Generator> = Vec::new();
            let mut i: usize = 0;
            while i < alts.len()
                invariant
                    i <= alts.len(),
                    *op == Operation::Alternate(*alts),
                    choices.len() == i,
                    forall|j: int| 0 <= j < i ==> composes(#[trigger] alts[j], rule_type, choices[j]),
                    forall|j: int| 0 <= j < i ==> (#[trigger] choices[j]).wf(),
                    forall|j: int, e: AntlrError| 0 <= j < i ==> !#[trigger] defect_in(alts[j], e),
                decreases alts.len() - i,
            {
                proof {
                    assert(decreases_to!(*op => op->Alternate_0));
                }
                match compose(&alts[i], rule_type) {
                    Ok(g) => {
                        choices.push(g);
                    },
                    Err(e) => {
                        assert(defect_in(alts[i as int], e));
                        return Err(e);
                    },
                }
                i = i + 1;
            }
            match crate::combinator::choice(choices) {
                Ok(g) => {
                    proof {
                        assert forall|e: AntlrError| !defect(*op, e) by {
                            if exists|j: int| 0 <= j < alts.len() && defect_in(#[trigger] alts[j], e) {
                                let j = choose|j: int| 0 <= j < alts.len() && defect_in(#[trigger] alts[j], e);
                                assert(!defect_in(alts[j], e));
                            }
                        }
                    }
                    Ok(g)
                },
                Err(e) => Err(AntlrError::Build(e)),
            }
        },
        Operation::CharacterClass(items) => {
            let mut choices: Vec<Generator> = Vec::new();
            let mut i: usize = 0;
            while i < items.len()
                invariant
                    i <= items.len(),
                    *op == Operation::CharacterClass(*items),
                    choices.len() == i,
                    forall|j: int| 0 <= j < i ==> translates(#[trigger] items[j], rule_type, choices[j]),
                    forall|j: int| 0 <= j < i ==> (#[trigger] choices[j]).wf(),
                    forall|j: int, e: AntlrError| 0 <= j < i ==> !#[trigger] defect(items[j], e),
                decreases items.len() - i,
            {
                proof {
                    assert(decreases_to!(*op => op->CharacterClass_0));
                }
                match translate_rule(&items[i], rule_type) {
                    Ok(g) => {
                        choices.push(g);
                    },
                    Err(e) => {
                        assert(defect(items[i as int], e));
                        return Err(e);
                    },
                }
                i = i + 1;
            }
            match crate::combinator::choice(choices) {
                Ok(g) => {
                    proof {
                        assert forall|e: AntlrError| !defect(*op, e) by {
                            if exists|j: int| 0 <= j < items.len() && defect(#[trigger] items[j], e) {
                                let j = choose|j: int| 0 <= j < items.len() && defect(#[trigger] items[j], e);
                                assert(!defect(items[j], e));
                            }
                        }
                    }
                    Ok(g)
                },
                Err(e) => Err(AntlrError::Build(e)),
            }
        },
        Operation::Token(name) => Ok(crate::combinator::rule(name.as_str())),
        Operation::Rule(name) => Ok(crate::combinator::rule(name.as_str())),
        Operation::StringLiteral(s) => Ok(crate::value::string(s.as_str())),
        Operation::Range((lo, hi)) => {
            let n = match first_char(lo.as_str()) {
                Some(c) => c,
                None => {
                    return Err(AntlrError::EmptyRangeBound);
                },
            };
            let m = match first_char(hi.as_str()) {
                Some(c) => c,
                None => {
                    return Err(AntlrError::EmptyRangeBound);
                },
            };
            match crate::value::char_range(n, m) {
                Ok(g) => {
                    assert(forall|e: AntlrError| !defect(*op, e));
                    Ok(g)
                },
                Err(e) => Err(AntlrError::Build(e)),
            }
        },
        Operation::Any => Ok(crate::value::any()),
        Operation::Char(c) => Ok(crate::value::ch(*c)),
        Operation::CharRange((a, b)) => match crate::value::char_range(*a, *b) {
            Ok(g) => {
                assert(forall|e: AntlrError| !defect(*op, e));
                Ok(g)
            },
            Err(e) => Err(AntlrError::Build(e)),
        },
    }
}

/// Translates `ops` and puts them together as a rule of type `rule_type`
/// does.
fn compose(ops: &Vec<Operation>, rule_type: RuleType) -> (r: Result<Generator, AntlrError>)
    ensures
        r matches Ok(g) ==> composes(*ops, rule_type, g) && g.wf(),
        r matches Err(e) ==> defect_in(*ops, e),
        r is Ok ==> forall|e: AntlrError| !defect_in(*ops, e),
    decreases *ops,
{
    let mut parts: Vec<Generator> = Vec::new();
    let mut i: usize = 0;
    while i < ops.len()
        invariant
            i <= ops.len(),
            parts.len() == i,
            forall|j: int| 0 <= j < i ==> translates(#[trigger] ops[j], rule_type, parts[j]),
            forall|j: int| 0 <= j < i ==> (#[trigger] parts[j]).wf(),
            forall|j: int, e: AntlrError| 0 <= j < i ==> !#[trigger] defect(ops[j], e),
        decreases ops.len() - i,
    {
        match translate_rule(&ops[i], rule_type) {
            Ok(g) => {
                parts.push(g);
            },
            Err(e) => {
                assert(defect(ops[i as int], e));
                return Err(e);
            },
        }
        i = i + 1;
    }
    proof {
        assert forall|e: AntlrError| !defect_in(*ops, e) by {
            if defect_in(*ops, e) {
                let j = choose|j: int| 0 <= j < ops.len() && defect(#[trigger] ops[j], e);
                assert(!defect(ops[j], e));
            }
        }
    }
    match rule_type {
        RuleType::Parser => Ok(crate::combinator::join_with(parts, crate::value::byte(0x20))),
        _ => Ok(crate::combinator::seq(parts)),
    }
}

/// The rule at `i` is the last of `rules` to bear its name.
pub open spec fn is_last_named(rules: Seq<GrammarRule>, i: int) -> bool {
    forall|j: int| i < j < rules.len() ==> #[trigger] rules[j].name@ != rules[i].name@
}

/// Some rule of `rules` bears the name `k`.
pub open spec fn names_rule(rules: Seq<GrammarRule>, k: Seq<char>) -> bool {
    exists|i: int| 0 <= i < rules.len() && #[trigger] rules[i].name@ == k
}

/// Translates every rule of `grammar` and registers it under its name: the
/// body's elements put together with a space between each two for parser
/// rules and with nothing between them for lexer rules and fragments. Of
/// two rules with one name, the later one is kept.
pub fn generate_rules(grammar: &Grammar) -> (r: Result<Rules, AntlrError>)
    ensures
        r matches Ok(rs) ==> {
            &&& rs.wf()
            &&& forall|k: Seq<char>| #[trigger] rs@.contains_key(k) <==> names_rule(grammar.rules@, k)
            &&& forall|i: int|
                0 <= i < grammar.rules.len() && is_last_named(grammar.rules@, i) ==> composes(
                    #[trigger] grammar.rules[i].body,
                    grammar.rules[i].rule_type,
                    rs@[grammar.rules[i].name@],
                )
        },
        r matches Err(e) ==> exists|i: int|
            0 <= i < grammar.rules.len() && defect_in(#[trigger] grammar.rules[i].body, e),
        r is Ok ==> forall|i: int, e: AntlrError|
            0 <= i < grammar.rules.len() ==> !#[trigger] defect_in(grammar.rules[i].body, e),
{
    let mut rules = Rules::new();
    let mut i: usize = 0;
    while i < grammar.rules.len()
        invariant
            i <= grammar.rules.len(),
            rules.wf(),
            forall|k: Seq<char>| #[trigger] rules@.contains_key(k) <==> names_rule(grammar.rules@.take(i as int), k),
            forall|j: int|
                0 <= j < i && is_last_named(grammar.rules@.take(i as int), j) ==> composes(
                    #[trigger] grammar.rules[j].body,
                    grammar.rules[j].rule_type,
                    rules@[grammar.rules[j].name@],
                ),
            forall|j: int, e: AntlrError| 0 <= j < i ==> !#[trigger] defect_in(grammar.rules[j].body, e),
        decreases grammar.rules.len() - i,
    {
        let rule = &grammar.rules[i];
        match compose(&rule.body, rule.rule_type) {
            Ok(root) => {
                let ghost before = rules@;
                rules.register(rule.name.as_str(), root);
                proof {
                    let done = grammar.rules@.take(i as int + 1);
                    let prev = grammar.rules@.take(i as int);
                    assert(done[i as int] == grammar.rules[i as int]);
                    assert forall|k: Seq<char>| #[trigger] rules@.contains_key(k) <==> names_rule(done, k) by {
                        if names_rule(prev, k) {
                            let j = choose|j: int| 0 <= j < prev.len() && #[trigger] prev[j].name@ == k;
                            assert(done[j] == prev[j]);
                        }
                        if names_rule(done, k) && k != rule.name@ {
                            let j = choose|j: int| 0 <= j < done.len() && #[trigger] done[j].name@ == k;
                            assert(prev[j] == done[j]);
                        }
                    }
                    assert forall|j: int|
                        0 <= j < i + 1 && is_last_named(done, j) implies composes(
                            #[trigger] grammar.rules[j].body,
                            grammar.rules[j].rule_type,
                            rules@[grammar.rules[j].name@],
                        ) by {
                        if j < i {
                            assert(done[i as int].name@ != done[j].name@);
                            assert(is_last_named(prev, j)) by {
                                assert forall|l: int| j < l < prev.len() implies #[trigger] prev[l].name@
                                    != prev[j].name@ by {
                                    assert(done[l] == prev[l]);
                                }
                            }
                        }
                    }
                }
            },
            Err(e) => {
                return Err(e);
            },
        }
        i = i + 1;
    }
    proof {
        assert(grammar.rules@.take(i as int) =~= grammar.rules@);
    }
    Ok(rules)
}

} // verus!
