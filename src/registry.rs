//! The registry of named rules that `Rule` nodes refer to.
use vstd::prelude::*;

use crate::combinator::Generator;
use crate::unicode::same_text;

verus! {

/// A mapping from rule names (case-sensitive) to generator trees.
///
/// Registering a name that is already present replaces its tree: the last
/// registration wins.
#[derive(Debug)]
pub struct Rules {
    names: Vec<String>,
    bodies: Vec<Generator>,
}

impl View for Rules {
    type V = Map<Seq<char>, Generator>;

    closed spec fn view(&self) -> Map<Seq<char>, Generator> {
        Map::new(
            |k: Seq<char>| exists|i: int| 0 <= i < self.names.len() && #[trigger] self.names[i]@ == k,
            |k: Seq<char>|
                self.bodies[choose|i: int| 0 <= i < self.names.len() && #[trigger] self.names[i]@ == k],
        )
    }
}

impl Rules {
    /// The names are distinct, and each has its tree.
    pub closed spec fn inv(&self) -> bool {
        &&& self.names.len() == self.bodies.len()
        &&& forall|i: int, j: int|
            0 <= i < self.names.len() && 0 <= j < self.names.len() && i != j
                ==> #[trigger] self.names[i]@ != #[trigger] self.names[j]@
    }

    /// The registry is consistent and every tree in it is well formed.
    pub open spec fn wf(&self) -> bool {
        &&& self.inv()
        &&& forall|k: Seq<char>| #[trigger] self@.contains_key(k) ==> self@[k].wf()
    }

    proof fn lemma_view_at(&self, i: int)
        requires
            self.inv(),
            0 <= i < self.names.len(),
        ensures
            self@.contains_key(self.names[i]@),
            self@[self.names[i]@] == self.bodies[i],
    {
        let k = self.names[i]@;
        assert(self@.dom().contains(k));
        let j = choose|j: int| 0 <= j < self.names.len() && #[trigger] self.names[j]@ == k;
        assert(i == j);
    }

    /// An empty registry.
    pub fn new() -> (r: Rules)
        ensures
            r@ == Map::<Seq<char>, Generator>::empty(),
            r.wf(),
    {
        let r = Rules { names: Vec::new(), bodies: Vec::new() };
        assert(r@ =~= Map::<Seq<char>, Generator>::empty());
        r
    }

    /// The position of `name` among the names, if it is there.
    fn position(&self, name: &str) -> (r: Option<usize>)
        requires
            self.inv(),
        ensures
            match r {
                Some(i) => i < self.names.len() && self.names[i as int]@ == name@,
                None => forall|i: int| 0 <= i < self.names.len() ==> #[trigger] self.names[i]@ != name@,
            },
    {
        let mut i: usize = 0;
        while i < self.names.len()
            invariant
                i <= self.names.len(),
                forall|j: int| 0 <= j < i ==> #[trigger] self.names[j]@ != name@,
            decreases self.names.len() - i,
        {
            if same_text(self.names[i].as_str(), name) {
                return Some(i);
            }
            i = i + 1;
        }
        None
    }

    /// The tree registered under `name`.
    pub fn get(&self, name: &str) -> (r: Option<&Generator>)
        requires
            self.wf(),
        ensures
            match r {
                Some(g) => self@.contains_key(name@) && *g == self@[name@],
                None => !self@.contains_key(name@),
            },
    {
        match self.position(name) {
            Some(i) => {
                proof {
                    self.lemma_view_at(i as int);
                }
                Some(&self.bodies[i])
            },
            None => {
                assert(!self@.dom().contains(name@));
                None
            },
        }
    }

    /// Whether a tree is registered under `name`.
    pub fn contains(&self, name: &str) -> (r: bool)
        requires
            self.wf(),
        ensures
            r == self@.contains_key(name@),
    {
        self.get(name).is_some()
    }

    /// Registers `rule` under `name`, replacing any tree registered there.
    pub fn register(&mut self, name: &str, rule: Generator)
        requires
            old(self).wf(),
            rule.wf(),
        ensures
            final(self)@ == old(self)@.insert(name@, rule),
            final(self).wf(),
    {
        let ghost before = *self;
        match self.position(name) {
            Some(i) => {
                self.bodies.set(i, rule);
                proof {
                    assert forall|k: Seq<char>| #[trigger]
                        self@.contains_key(k) == before@.insert(name@, rule).contains_key(k) by {
                        if before@.contains_key(k) {
                            let j = choose|j: int| 0 <= j < before.names.len() && #[trigger] before.names[j]@ == k;
                            assert(self.names[j]@ == k);
                        }
                        if k == name@ {
                            assert(self.names[i as int]@ == k);
                        }
                    }
                    assert forall|k: Seq<char>| #[trigger] self@.contains_key(k) implies self@[k]
                        == before@.insert(name@, rule)[k] by {
                        let j = choose|j: int| 0 <= j < self.names.len() && #[trigger] self.names[j]@ == k;
                        self.lemma_view_at(j);
                        before.lemma_view_at(j);
                    }
                    assert(self@ =~= before@.insert(name@, rule));
                }
            },
            None => {
                self.names.push(name.to_owned());
                self.bodies.push(rule);
                proof {
                    let n = before.names.len() as int;
                    assert(self.names[n]@ == name@);
                    assert forall|k: Seq<char>| #[trigger]
                        self@.contains_key(k) == before@.insert(name@, rule).contains_key(k) by {
                        if before@.contains_key(k) {
                            let j = choose|j: int| 0 <= j < before.names.len() && #[trigger] before.names[j]@ == k;
                            assert(self.names[j]@ == k);
                        }
                        if self@.contains_key(k) {
                            let j = choose|j: int| 0 <= j < self.names.len() && #[trigger] self.names[j]@ == k;
                            if j < n {
                                assert(before.names[j]@ == k);
                            }
                        }
                    }
                    assert forall|k: Seq<char>| #[trigger] self@.contains_key(k) implies self@[k]
                        == before@.insert(name@, rule)[k] by {
                        let j = choose|j: int| 0 <= j < self.names.len() && #[trigger] self.names[j]@ == k;
                        self.lemma_view_at(j);
                        if j < n {
                            before.lemma_view_at(j);
                        }
                    }
                    assert(self@ =~= before@.insert(name@, rule));
                }
            },
        }
    }
}

/// Registers `rule` under `name` in `rules`, replacing any tree registered
/// there.
pub fn register_rule(rules: &mut Rules, name: &str, rule: Generator)
    requires
        old(rules).wf(),
        rule.wf(),
    ensures
        final(rules)@ == old(rules)@.insert(name@, rule),
        final(rules).wf(),
{
    rules.register(name, rule);
}

} // verus!
