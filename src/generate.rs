//! Generation and negation of generator trees.
use vstd::prelude::*;

use crate::combinator::{
    Choice, Generator, JoinWith, Many, Many1, Not, Optional, Range, RepeatN, Rule, SepBy, SepBy1,
    Sequence,
};
use crate::entropy::Entropy;
use crate::language::{
    all_yield, gaps, interleave, lemma_interleave_empty, lemma_interleave_one,
    lemma_interleave_push, may_fail, outcome, yields, GenerateError, MANY_MAX, MAX_DEPTH,
    REPEAT_MAX, SEP_BY_MAX,
};
use crate::registry::Rules;

verus! {

impl Generator {
    /// Generates `self` (or, with `negated`, its negation), following at
    /// most `depth` rule references looked up in `rules`.
    pub fn produce(&self, rules: &Rules, rng: &mut Entropy, depth: usize, negated: bool) -> (r:
        Result<Vec<u8>, GenerateError>)
        requires
            self.wf(),
            rules.wf(),
        ensures
            outcome(*self, rules@, depth as nat, negated, r),
            (forall|e: GenerateError| !may_fail(*self, rules@, depth as nat, negated, e)) ==> r is Ok,
        decreases depth, *self, 2int,
    {
        match self {
            Generator::Char(x) => if negated {
                Ok(x.negate(rng))
            } else {
                Ok(x.generate())
            },
            Generator::Str(x) => if negated {
                Ok(x.negate(rng))
            } else {
                Ok(x.generate())
            },
            Generator::Byte(x) => if negated {
                Ok(x.negate(rng))
            } else {
                Ok(x.generate())
            },
            Generator::CharRange(x) => if negated {
                match x.negate(rng) {
                    Some(v) => Ok(v),
                    None => Err(GenerateError::NegationUnsupported),
                }
            } else {
                Ok(x.generate(rng))
            },
            Generator::Any(x) => if negated {
                Err(GenerateError::NegationUnsupported)
            } else {
                Ok(x.generate(rng))
            },
            Generator::Choice(x) => x.produce(rules, rng, depth, negated),
            Generator::Many(x) => x.produce(rules, rng, depth, negated),
            Generator::Many1(x) => x.produce(rules, rng, depth, negated),
            Generator::Optional(x) => x.produce(rules, rng, depth, negated),
            Generator::Rule(x) => x.produce(rules, rng, depth, negated),
            Generator::Sequence(x) => x.produce(rules, rng, depth, negated),
            Generator::RepeatN(x) => x.produce(rules, rng, depth, negated),
            Generator::Range(x) => x.produce(rules, rng, depth, negated),
            Generator::JoinWith(x) => x.produce(rules, rng, depth, negated),
            Generator::SepBy(x) => x.produce(rules, rng, depth, negated),
            Generator::SepBy1(x) => x.produce(rules, rng, depth, negated),
            Generator::Not(x) => x.produce(rules, rng, depth, negated),
        }
    }

    /// Generates an output of `self`, following at most `MAX_DEPTH` rule
    /// references looked up in `rules`.
    pub fn generate(&self, rules: &Rules, rng: &mut Entropy) -> (r: Result<Vec<u8>, GenerateError>)
        requires
            self.wf(),
            rules.wf(),
        ensures
            outcome(*self, rules@, MAX_DEPTH as nat, false, r),
            (forall|e: GenerateError| !may_fail(*self, rules@, MAX_DEPTH as nat, false, e)) ==> r is Ok,
    {
        self.produce(rules, rng, MAX_DEPTH, false)
    }

    /// Generates an output of the negation of `self`, following at most
    /// `MAX_DEPTH` rule references looked up in `rules`.
    pub fn negate(&self, rules: &Rules, rng: &mut Entropy) -> (r: Result<Vec<u8>, GenerateError>)
        requires
            self.wf(),
            rules.wf(),
        ensures
            outcome(*self, rules@, MAX_DEPTH as nat, true, r),
            (forall|e: GenerateError| !may_fail(*self, rules@, MAX_DEPTH as nat, true, e)) ==> r is Ok,
    {
        self.produce(rules, rng, MAX_DEPTH, true)
    }
}

/// `k` outputs of `g`, concatenated.
fn repeat(
    g: &Generator,
    k: usize,
    rules: &Rules,
    rng: &mut Entropy,
    depth: usize,
    neg: bool,
    Ghost(parent): Ghost<Generator>,
) -> (r: Result<Vec<u8>, GenerateError>)
    requires
        g.wf(),
        rules.wf(),
        decreases_to!(parent => *g),
    ensures
        r matches Ok(out) ==> exists|parts: Seq<Seq<u8>>|
            parts.len() == k && #[trigger] parts.flatten() == out@ && all_yield(
                *g,
                rules@,
                depth as nat,
                neg,
                parts,
            ),
        r matches Err(e) ==> k > 0 && may_fail(*g, rules@, depth as nat, neg, e),
    decreases depth, parent, 0int,
{
    let mut out: Vec<u8> = Vec::new();
    let ghost mut parts: Seq<Seq<u8>> = Seq::empty();
    assert(parts.flatten() =~= out@);
    let mut i: usize = 0;
    while i < k
        invariant
            i <= k,
            g.wf(),
            rules.wf(),
            parts.len() == i,
            out@ == parts.flatten(),
            all_yield(*g, rules@, depth as nat, neg, parts),
            decreases_to!(parent => *g),
        decreases k - i,
    {
        match g.produce(rules, rng, depth, neg) {
            Ok(part) => {
                let ghost p = part@;
                let mut part = part;
                out.append(&mut part);
                proof {
                    parts.lemma_flatten_push(p);
                    parts = parts.push(p);
                }
            },
            Err(e) => {
                return Err(e);
            },
        }
        i = i + 1;
    }
    Ok(out)
}

/// `k` outputs of `item` with an output of `sep` between each two.
fn separated(
    item: &Generator,
    sep: &Generator,
    k: usize,
    rules: &Rules,
    rng: &mut Entropy,
    depth: usize,
    Ghost(parent): Ghost<Generator>,
) -> (r: Result<Vec<u8>, GenerateError>)
    requires
        item.wf(),
        sep.wf(),
        rules.wf(),
        decreases_to!(parent => *item),
        decreases_to!(parent => *sep),
    ensures
        r matches Ok(out) ==> exists|items: Seq<Seq<u8>>, seps: Seq<Seq<u8>>|
            {
                &&& items.len() == k
                &&& seps.len() == gaps(k as int)
                &&& #[trigger] interleave(items, seps) == out@
                &&& all_yield(*item, rules@, depth as nat, false, items)
                &&& all_yield(*sep, rules@, depth as nat, false, seps)
            },
        r matches Err(e) ==> may_fail(*item, rules@, depth as nat, false, e) || may_fail(
            *sep,
            rules@,
            depth as nat,
            false,
            e,
        ),
    decreases depth, parent, 0int,
{
    let mut out: Vec<u8> = Vec::new();
    let ghost mut items: Seq<Seq<u8>> = Seq::empty();
    let ghost mut seps: Seq<Seq<u8>> = Seq::empty();
    proof {
        lemma_interleave_empty();
    }
    let mut i: usize = 0;
    while i < k
        invariant
            i <= k,
            item.wf(),
            sep.wf(),
            rules.wf(),
            items.len() == i,
            seps.len() == gaps(i as int),
            out@ == interleave(items, seps),
            all_yield(*item, rules@, depth as nat, false, items),
            all_yield(*sep, rules@, depth as nat, false, seps),
            decreases_to!(parent => *item),
            decreases_to!(parent => *sep),
        decreases k - i,
    {
        if i > 0 {
            match sep.produce(rules, rng, depth, false) {
                Ok(s) => {
                    match item.produce(rules, rng, depth, false) {
                        Ok(x) => {
                            let ghost sv = s@;
                            let ghost xv = x@;
                            let mut s = s;
                            let mut x = x;
                            out.append(&mut s);
                            out.append(&mut x);
                            proof {
                                lemma_interleave_push(items, seps, sv, xv);
                                assert(out@ =~= interleave(items, seps) + (sv + xv));
                                items = items.push(xv);
                                seps = seps.push(sv);
                            }
                        },
                        Err(e) => {
                            return Err(e);
                        },
                    }
                },
                Err(e) => {
                    return Err(e);
                },
            }
        } else {
            match item.produce(rules, rng, depth, false) {
                Ok(x) => {
                    proof {
                        lemma_interleave_one(x@);
                        assert(items.push(x@) =~= seq![x@]);
                        assert(seps =~= Seq::<Seq<u8>>::empty());
                        items = items.push(x@);
                    }
                    out = x;
                },
                Err(e) => {
                    return Err(e);
                },
            }
        }
        i = i + 1;
    }
    Ok(out)
}

impl Choice {
    /// Generates one of the choices, picked uniformly; negates the only
    /// choice where there is one.
    pub fn produce(&self, rules: &Rules, rng: &mut Entropy, depth: usize, negated: bool) -> (r:
        Result<Vec<u8>, GenerateError>)
        requires
            Generator::Choice(*self).wf(),
            rules.wf(),
        ensures
            outcome(Generator::Choice(*self), rules@, depth as nat, negated, r),
        decreases depth, Generator::Choice(*self), 1int,
    {
        proof {
            let g = Generator::Choice(*self);
            assert(decreases_to!(g => g->Choice_0));
            assert(decreases_to!(*self => self.choices));
        }
        if negated {
            if self.choices.len() == 1 {
                self.choices[0].produce(rules, rng, depth, true)
            } else {
                Err(GenerateError::NegationUnsupported)
            }
        } else {
            let i = rng.below(self.choices.len());
            let r = self.choices[i].produce(rules, rng, depth, false);
            assert(0 <= i < self.choices.len());
            r
        }
    }
}

impl Many {
    /// Fewer than `MANY_MAX` outputs of the generator (of its negation when
    /// negated), the count drawn uniformly.
    pub fn produce(&self, rules: &Rules, rng: &mut Entropy, depth: usize, negated: bool) -> (r:
        Result<Vec<u8>, GenerateError>)
        requires
            self.generator.wf(),
            rules.wf(),
        ensures
            outcome(Generator::Many(*self), rules@, depth as nat, negated, r),
        decreases depth, Generator::Many(*self), 1int,
    {
        proof {
            let g = Generator::Many(*self);
            assert(decreases_to!(g => g->Many_0));
            assert(decreases_to!(*self => self.generator));
        }
        let k = rng.below(MANY_MAX);
        repeat(&self.generator, k, rules, rng, depth, negated, Ghost(Generator::Many(*self)))
    }
}

impl Many1 {
    /// Between one and `MANY_MAX - 1` outputs of the generator, the count
    /// drawn uniformly; negated, fewer than `MANY_MAX` outputs of its
    /// negation.
    pub fn produce(&self, rules: &Rules, rng: &mut Entropy, depth: usize, negated: bool) -> (r:
        Result<Vec<u8>, GenerateError>)
        requires
            self.generator.wf(),
            rules.wf(),
        ensures
            outcome(Generator::Many1(*self), rules@, depth as nat, negated, r),
        decreases depth, Generator::Many1(*self), 1int,
    {
        proof {
            let g = Generator::Many1(*self);
            assert(decreases_to!(g => g->Many1_0));
            assert(decreases_to!(*self => self.generator));
        }
        let k = if negated {
            rng.below(MANY_MAX)
        } else {
            rng.between(1, MANY_MAX)
        };
        repeat(&self.generator, k, rules, rng, depth, negated, Ghost(Generator::Many1(*self)))
    }
}

impl Optional {
    /// The generator's output (its negation's when negated) or nothing, by
    /// a fair coin.
    pub fn produce(&self, rules: &Rules, rng: &mut Entropy, depth: usize, negated: bool) -> (r:
        Result<Vec<u8>, GenerateError>)
        requires
            self.generator.wf(),
            rules.wf(),
        ensures
            outcome(Generator::Optional(*self), rules@, depth as nat, negated, r),
        decreases depth, Generator::Optional(*self), 1int,
    {
        proof {
            let g = Generator::Optional(*self);
            assert(decreases_to!(g => g->Optional_0));
            assert(decreases_to!(*self => self.generator));
        }
        if rng.coin() {
            self.generator.produce(rules, rng, depth, negated)
        } else {
            Ok(Vec::new())
        }
    }
}

impl Rule {
    /// The output of the rule registered under `name`, with one rule
    /// reference less to follow.
    pub fn produce(&self, rules: &Rules, rng: &mut Entropy, depth: usize, negated: bool) -> (r:
        Result<Vec<u8>, GenerateError>)
        requires
            rules.wf(),
        ensures
            outcome(Generator::Rule(*self), rules@, depth as nat, negated, r),
        decreases depth, Generator::Rule(*self), 1int,
    {
        if depth == 0 {
            return Err(GenerateError::DepthExhausted);
        }
        match rules.get(self.name.as_str()) {
            Some(body) => body.produce(rules, rng, depth - 1, negated),
            None => Err(GenerateError::UnknownRule(self.name.clone())),
        }
    }
}

impl Sequence {
    /// The outputs of all generators, in order; no negation.
    pub fn produce(&self, rules: &Rules, rng: &mut Entropy, depth: usize, negated: bool) -> (r:
        Result<Vec<u8>, GenerateError>)
        requires
            Generator::Sequence(*self).wf(),
            rules.wf(),
        ensures
            outcome(Generator::Sequence(*self), rules@, depth as nat, negated, r),
        decreases depth, Generator::Sequence(*self), 1int,
    {
        proof {
            let g = Generator::Sequence(*self);
            assert(decreases_to!(g => g->Sequence_0));
            assert(decreases_to!(*self => self.generators));
        }
        if negated {
            return Err(GenerateError::NegationUnsupported);
        }
        let mut out: Vec<u8> = Vec::new();
        let ghost mut parts: Seq<Seq<u8>> = Seq::empty();
        assert(parts.flatten() =~= out@);
        let mut i: usize = 0;
        while i < self.generators.len()
            invariant
                i <= self.generators.len(),
                !negated,
                forall|j: int| 0 <= j < self.generators.len() ==> (#[trigger] self.generators[j]).wf(),
                rules.wf(),
                parts.len() == i,
                out@ == parts.flatten(),
                forall|j: int| 0 <= j < i ==> yields(self.generators[j], rules@, depth as nat, false, #[trigger] parts[j]),
            decreases self.generators.len() - i,
        {
            proof {
                let g = Generator::Sequence(*self);
                assert(decreases_to!(g => g->Sequence_0));
                assert(decreases_to!(*self => self.generators));
                assert(self.generators[i as int].wf());
            }
            match self.generators[i].produce(rules, rng, depth, false) {
                Ok(part) => {
                    let ghost p = part@;
                    let mut part = part;
                    out.append(&mut part);
                    proof {
                        parts.lemma_flatten_push(p);
                        parts = parts.push(p);
                    }
                },
                Err(e) => {
                    assert(may_fail(self.generators[i as int], rules@, depth as nat, false, e));
                    assert(exists|j: int|
                        0 <= j < self.generators.len() && may_fail(
                            #[trigger] self.generators[j],
                            rules@,
                            depth as nat,
                            false,
                            e,
                        ));
                    return Err(e);
                },
            }
            i = i + 1;
        }
        Ok(out)
    }
}

impl RepeatN {
    /// Exactly `n` outputs of the generator; negated, a count other than
    /// `n` of outputs of its negation.
    pub fn produce(&self, rules: &Rules, rng: &mut Entropy, depth: usize, negated: bool) -> (r:
        Result<Vec<u8>, GenerateError>)
        requires
            self.generator.wf(),
            rules.wf(),
        ensures
            outcome(Generator::RepeatN(*self), rules@, depth as nat, negated, r),
        decreases depth, Generator::RepeatN(*self), 1int,
    {
        proof {
            let g = Generator::RepeatN(*self);
            assert(decreases_to!(g => g->RepeatN_0));
            assert(decreases_to!(*self => self.generator));
        }
        if negated {
            let mut k = rng.below(REPEAT_MAX);
            if k == self.n {
                k = k + 1;
            }
            repeat(&self.generator, k, rules, rng, depth, true, Ghost(Generator::RepeatN(*self)))
        } else {
            if self.n == 0 {
                let out: Vec<u8> = Vec::new();
                assert(Seq::<Seq<u8>>::empty().flatten() =~= out@);
                return Ok(out);
            }
            repeat(&self.generator, self.n, rules, rng, depth, false, Ghost(Generator::RepeatN(*self)))
        }
    }
}

impl Range {
    /// Between `n` and `m - 1` outputs of the generator, the count drawn
    /// uniformly; no negation.
    pub fn produce(&self, rules: &Rules, rng: &mut Entropy, depth: usize, negated: bool) -> (r:
        Result<Vec<u8>, GenerateError>)
        requires
            Generator::Range(*self).wf(),
            rules.wf(),
        ensures
            outcome(Generator::Range(*self), rules@, depth as nat, negated, r),
        decreases depth, Generator::Range(*self), 1int,
    {
        proof {
            let g = Generator::Range(*self);
            assert(decreases_to!(g => g->Range_0));
            assert(decreases_to!(*self => self.generator));
        }
        if negated {
            return Err(GenerateError::NegationUnsupported);
        }
        let k = rng.between(self.n, self.m);
        repeat(&self.generator, k, rules, rng, depth, false, Ghost(Generator::Range(*self)))
    }
}

impl JoinWith {
    /// The outputs of all generators, in order, with an output of the
    /// delimiter between each two; no negation.
    pub fn produce(&self, rules: &Rules, rng: &mut Entropy, depth: usize, negated: bool) -> (r:
        Result<Vec<u8>, GenerateError>)
        requires
            Generator::JoinWith(*self).wf(),
            rules.wf(),
        ensures
            outcome(Generator::JoinWith(*self), rules@, depth as nat, negated, r),
        decreases depth, Generator::JoinWith(*self), 1int,
    {
        proof {
            let g = Generator::JoinWith(*self);
            assert(decreases_to!(g => g->JoinWith_0));
            assert(decreases_to!(*self => self.generators));
            assert(decreases_to!(*self => self.delimiter));
        }
        if negated {
            return Err(GenerateError::NegationUnsupported);
        }
        let mut out: Vec<u8> = Vec::new();
        let ghost mut parts: Seq<Seq<u8>> = Seq::empty();
        let ghost mut delims: Seq<Seq<u8>> = Seq::empty();
        proof {
            lemma_interleave_empty();
        }
        let mut i: usize = 0;
        while i < self.generators.len()
            invariant
                i <= self.generators.len(),
                !negated,
                forall|j: int| 0 <= j < self.generators.len() ==> (#[trigger] self.generators[j]).wf(),
                self.delimiter.wf(),
                rules.wf(),
                parts.len() == i,
                delims.len() == gaps(i as int),
                out@ == interleave(parts, delims),
                forall|j: int| 0 <= j < i ==> yields(self.generators[j], rules@, depth as nat, false, #[trigger] parts[j]),
                all_yield(*self.delimiter, rules@, depth as nat, false, delims),
            decreases self.generators.len() - i,
        {
            proof {
                let g = Generator::JoinWith(*self);
                assert(decreases_to!(g => g->JoinWith_0));
                assert(decreases_to!(*self => self.generators));
                assert(decreases_to!(*self => self.delimiter));
                assert(self.generators[i as int].wf());
            }
            if i > 0 {
                let d = match self.delimiter.produce(rules, rng, depth, false) {
                    Ok(d) => d,
                    Err(e) => {
                        return Err(e);
                    },
                };
                let x = match self.generators[i].produce(rules, rng, depth, false) {
                    Ok(x) => x,
                    Err(e) => {
                        assert(may_fail(self.generators[i as int], rules@, depth as nat, false, e));
                        assert(exists|j: int|
                            0 <= j < self.generators.len() && may_fail(
                                #[trigger] self.generators[j],
                                rules@,
                                depth as nat,
                                false,
                                e,
                            ));
                        return Err(e);
                    },
                };
                let ghost dv = d@;
                let ghost xv = x@;
                let mut d = d;
                let mut x = x;
                out.append(&mut d);
                out.append(&mut x);
                proof {
                    lemma_interleave_push(parts, delims, dv, xv);
                    assert(out@ =~= interleave(parts, delims) + (dv + xv));
                    parts = parts.push(xv);
                    delims = delims.push(dv);
                }
            } else {
                match self.generators[i].produce(rules, rng, depth, false) {
                    Ok(x) => {
                        proof {
                            lemma_interleave_one(x@);
                            assert(parts.push(x@) =~= seq![x@]);
                            assert(delims =~= Seq::<Seq<u8>>::empty());
                            parts = parts.push(x@);
                        }
                        out = x;
                    },
                    Err(e) => {
                        assert(may_fail(self.generators[i as int], rules@, depth as nat, false, e));
                        assert(exists|j: int|
                            0 <= j < self.generators.len() && may_fail(
                                #[trigger] self.generators[j],
                                rules@,
                                depth as nat,
                                false,
                                e,
                            ));
                        return Err(e);
                    },
                }
            }
            i = i + 1;
        }
        Ok(out)
    }
}

impl SepBy {
    /// Fewer than `SEP_BY_MAX` outputs of the generator, the count drawn
    /// uniformly, with an output of the separator between each two; no
    /// negation.
    pub fn produce(&self, rules: &Rules, rng: &mut Entropy, depth: usize, negated: bool) -> (r:
        Result<Vec<u8>, GenerateError>)
        requires
            self.generator.wf(),
            self.separator.wf(),
            rules.wf(),
        ensures
            outcome(Generator::SepBy(*self), rules@, depth as nat, negated, r),
        decreases depth, Generator::SepBy(*self), 1int,
    {
        proof {
            let g = Generator::SepBy(*self);
            assert(decreases_to!(g => g->SepBy_0));
            assert(decreases_to!(*self => self.generator));
            assert(decreases_to!(*self => self.separator));
        }
        if negated {
            return Err(GenerateError::NegationUnsupported);
        }
        let k = rng.below(SEP_BY_MAX);
        separated(&self.generator, &self.separator, k, rules, rng, depth, Ghost(Generator::SepBy(*self)))
    }
}

impl SepBy1 {
    /// Between one and `SEP_BY_MAX - 1` outputs of the generator, the count
    /// drawn uniformly, with an output of the separator between each two;
    /// no negation.
    pub fn produce(&self, rules: &Rules, rng: &mut Entropy, depth: usize, negated: bool) -> (r:
        Result<Vec<u8>, GenerateError>)
        requires
            self.generator.wf(),
            self.separator.wf(),
            rules.wf(),
        ensures
            outcome(Generator::SepBy1(*self), rules@, depth as nat, negated, r),
        decreases depth, Generator::SepBy1(*self), 1int,
    {
        proof {
            let g = Generator::SepBy1(*self);
            assert(decreases_to!(g => g->SepBy1_0));
            assert(decreases_to!(*self => self.generator));
            assert(decreases_to!(*self => self.separator));
        }
        if negated {
            return Err(GenerateError::NegationUnsupported);
        }
        let k = rng.between(1, SEP_BY_MAX);
        separated(&self.generator, &self.separator, k, rules, rng, depth, Ghost(Generator::SepBy1(*self)))
    }
}

impl Not {
    /// The negation of the generator; negated, its generation.
    pub fn produce(&self, rules: &Rules, rng: &mut Entropy, depth: usize, negated: bool) -> (r:
        Result<Vec<u8>, GenerateError>)
        requires
            self.generator.wf(),
            rules.wf(),
        ensures
            outcome(Generator::Not(*self), rules@, depth as nat, negated, r),
        decreases depth, Generator::Not(*self), 1int,
    {
        proof {
            let g = Generator::Not(*self);
            assert(decreases_to!(g => g->Not_0));
            assert(decreases_to!(*self => self.generator));
        }
        self.generator.produce(rules, rng, depth, !negated)
    }
}

} // verus!
