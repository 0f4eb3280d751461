//! The generator tree: one closed enumeration over every kind of node, and
//! the combinators that build structure out of child generators.
use vstd::prelude::*;

use crate::value::{Any, ByteLiteral, CharLiteral, CharRange, StringLiteral};

verus! {

/// A node of a generator tree. Each variant holds the node of that kind;
/// combinators own their children, while `Rule` refers by name to a tree
/// held in a [`crate::registry::Rules`].
#[derive(Debug)]
pub enum Generator {
    Char(CharLiteral),
    Str(StringLiteral),
    Byte(ByteLiteral),
    CharRange(CharRange),
    Any(Any),
    Choice(Choice),
    Many(Many),
    Many1(Many1),
    Optional(Optional),
    Rule(Rule),
    Sequence(Sequence),
    RepeatN(RepeatN),
    Range(Range),
    JoinWith(JoinWith),
    SepBy(SepBy),
    SepBy1(SepBy1),
    Not(Not),
}

/// One of its choices, picked uniformly at random on each call.
#[derive(Debug)]
pub struct Choice {
    pub choices: Vec<Generator>,
}

/// Zero or more repetitions of its generator.
///
/// Its negation repeats the negation of its generator. That approximates
/// the complement of what it generates; it is not that complement.
#[derive(Debug)]
pub struct Many {
    pub generator: Box<Generator>,
}

/// One or more repetitions of its generator.
///
/// Its negation repeats the negation of its generator, zero or more times.
/// That approximates the complement of what it generates; it is not that
/// complement.
#[derive(Debug)]
pub struct Many1 {
    pub generator: Box<Generator>,
}

/// Its generator or nothing, each with probability one half.
#[derive(Debug)]
pub struct Optional {
    pub generator: Box<Generator>,
}

/// The rule registered under `name`, looked up when it is generated. This
/// is how grammars refer to themselves and to rules not written yet.
#[derive(Debug)]
pub struct Rule {
    pub name: String,
}

/// All its generators, one after another, with nothing between them.
#[derive(Debug)]
pub struct Sequence {
    pub generators: Vec<Generator>,
}

/// Exactly `n` repetitions of its generator.
#[derive(Debug)]
pub struct RepeatN {
    pub n: usize,
    pub generator: Box<Generator>,
}

/// Between `n` (inclusive) and `m` (exclusive) repetitions of its generator.
#[derive(Debug)]
pub struct Range {
    pub n: usize,
    pub m: usize,
    pub generator: Box<Generator>,
}

/// All its generators, one after another, with a fresh output of the
/// delimiter between each two of them.
#[derive(Debug)]
pub struct JoinWith {
    pub generators: Vec<Generator>,
    pub delimiter: Box<Generator>,
}

/// Zero or more repetitions of its generator, with a fresh output of the
/// separator between each two of them.
#[derive(Debug)]
pub struct SepBy {
    pub generator: Box<Generator>,
    pub separator: Box<Generator>,
}

/// One or more repetitions of its generator, with a fresh output of the
/// separator between each two of them.
#[derive(Debug)]
pub struct SepBy1 {
    pub generator: Box<Generator>,
    pub separator: Box<Generator>,
}

/// Its generator with generation and negation swapped.
#[derive(Debug)]
pub struct Not {
    pub generator: Box<Generator>,
}

/// Why a node could not be built.
#[derive(Debug, Clone, Copy, PartialEq, Eq, Structural)]
pub enum BuildError {
    /// A choice among no generators.
    EmptyChoice,
    /// A repetition count drawn from `[n, m)` with `n >= m`.
    EmptyRange(usize, usize),
    /// A character range whose low end lies above its high end.
    InvertedCharRange(char, char),
}

impl Generator {
    /// Every node of the tree is one that its constructor accepts: choices
    /// are not empty, and ranges are not inverted.
    pub open spec fn wf(self) -> bool
        decreases self,
    {
        match self {
            Generator::CharRange(r) => r.n as u32 <= r.m as u32,
            Generator::Choice(c) => c.choices.len() > 0 && forall|i: int|
                0 <= i < c.choices.len() ==> (#[trigger] c.choices[i]).wf(),
            Generator::Many(x) => x.generator.wf(),
            Generator::Many1(x) => x.generator.wf(),
            Generator::Optional(x) => x.generator.wf(),
            Generator::Sequence(s) => forall|i: int|
                0 <= i < s.generators.len() ==> (#[trigger] s.generators[i]).wf(),
            Generator::RepeatN(x) => x.generator.wf(),
            Generator::Range(x) => x.n < x.m && x.generator.wf(),
            Generator::JoinWith(j) => j.delimiter.wf() && forall|i: int|
                0 <= i < j.generators.len() ==> (#[trigger] j.generators[i]).wf(),
            Generator::SepBy(x) => x.generator.wf() && x.separator.wf(),
            Generator::SepBy1(x) => x.generator.wf() && x.separator.wf(),
            Generator::Not(x) => x.generator.wf(),
            _ => true,
        }
    }
}

/// Every generator of the list is well formed.
pub open spec fn all_wf(gs: Seq<Generator>) -> bool {
    forall|i: int| 0 <= i < gs.len() ==> (#[trigger] gs[i]).wf()
}

/// A choice among `choices`; an empty list is refused.
pub fn choice(choices: Vec<Generator>) -> (r: Result<Generator, BuildError>)
    ensures
        choices.len() == 0 ==> r == Err::<Generator, BuildError>(BuildError::EmptyChoice),
        choices.len() > 0 ==> r == Ok::<Generator, BuildError>(Generator::Choice(Choice { choices })),
        choices.len() > 0 && all_wf(choices@) ==> (r matches Ok(g) && g.wf()),
{
    if choices.len() == 0 {
        Err(BuildError::EmptyChoice)
    } else {
        Ok(Generator::Choice(Choice { choices }))
    }
}

pub fn many(generator: Generator) -> (r: Generator)
    ensures
        r == Generator::Many(Many { generator: Box::new(generator) }),
        generator.wf() ==> r.wf(),
{
    Generator::Many(Many { generator: Box::new(generator) })
}

pub fn many1(generator: Generator) -> (r: Generator)
    ensures
        r == Generator::Many1(Many1 { generator: Box::new(generator) }),
        generator.wf() ==> r.wf(),
{
    Generator::Many1(Many1 { generator: Box::new(generator) })
}

pub fn optional(generator: Generator) -> (r: Generator)
    ensures
        r == Generator::Optional(Optional { generator: Box::new(generator) }),
        generator.wf() ==> r.wf(),
{
    Generator::Optional(Optional { generator: Box::new(generator) })
}

/// A reference to the rule registered under `name`.
pub fn rule(name: &str) -> (r: Generator)
    ensures
        r matches Generator::Rule(x) && x.name@ == name@,
        r.wf(),
{
    Generator::Rule(Rule { name: name.to_owned() })
}

pub fn seq(generators: Vec<Generator>) -> (r: Generator)
    ensures
        r == Generator::Sequence(Sequence { generators }),
        all_wf(generators@) ==> r.wf(),
{
    Generator::Sequence(Sequence { generators })
}

pub fn repeat_n(generator: Generator, n: usize) -> (r: Generator)
    ensures
        r == Generator::RepeatN(RepeatN { n, generator: Box::new(generator) }),
        generator.wf() ==> r.wf(),
{
    Generator::RepeatN(RepeatN { n, generator: Box::new(generator) })
}

/// Between `n` and `m - 1` repetitions of `generator`; `n >= m` is refused.
pub fn range(generator: Generator, n: usize, m: usize) -> (r: Result<Generator, BuildError>)
    ensures
        n >= m ==> r == Err::<Generator, BuildError>(BuildError::EmptyRange(n, m)),
        n < m ==> r == Ok::<Generator, BuildError>(
            Generator::Range(Range { n, m, generator: Box::new(generator) }),
        ),
        n < m && generator.wf() ==> (r matches Ok(g) && g.wf()),
{
    if n >= m {
        Err(BuildError::EmptyRange(n, m))
    } else {
        Ok(Generator::Range(Range { n, m, generator: Box::new(generator) }))
    }
}

pub fn join_with(generators: Vec<Generator>, delimiter: Generator) -> (r: Generator)
    ensures
        r == Generator::JoinWith(JoinWith { generators, delimiter: Box::new(delimiter) }),
        all_wf(generators@) && delimiter.wf() ==> r.wf(),
{
    Generator::JoinWith(JoinWith { generators, delimiter: Box::new(delimiter) })
}

pub fn sep_by(generator: Generator, separator: Generator) -> (r: Generator)
    ensures
        r == Generator::SepBy(
            SepBy { generator: Box::new(generator), separator: Box::new(separator) },
        ),
        generator.wf() && separator.wf() ==> r.wf(),
{
    Generator::SepBy(SepBy { generator: Box::new(generator), separator: Box::new(separator) })
}

pub fn sep_by1(generator: Generator, separator: Generator) -> (r: Generator)
    ensures
        r == Generator::SepBy1(
            SepBy1 { generator: Box::new(generator), separator: Box::new(separator) },
        ),
        generator.wf() && separator.wf() ==> r.wf(),
{
    Generator::SepBy1(SepBy1 { generator: Box::new(generator), separator: Box::new(separator) })
}

pub fn not(generator: Generator) -> (r: Generator)
    ensures
        r == Generator::Not(Not { generator: Box::new(generator) }),
        generator.wf() ==> r.wf(),
{
    Generator::Not(Not { generator: Box::new(generator) })
}

} // verus!
