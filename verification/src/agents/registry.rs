//! The registry of agents: factories by name.
use super::config::AgentConfig;
use crate::text::{same_text, text_earlier};
use vstd::prelude::*;

verus! {

/// Factories by name, kept in the order of the names.
pub struct AgentRegistry<F> {
    entries: Vec<(String, F)>,
}

impl<F> AgentRegistry<F> {
    /// The names are in order, so none occurs twice.
    pub closed spec fn wf(self) -> bool {
        forall|i: int, j: int|
            0 <= i < j < self.entries@.len() ==> crate::text::earlier(
                (#[trigger] self.entries@[i]).0@,
                (#[trigger] self.entries@[j]).0@,
            )
    }

    /// Whether an entry has a name.
    spec fn holds(self, i: int, name: Seq<char>) -> bool {
        0 <= i < self.entries@.len() && self.entries@[i].0@ == name
    }

    /// The factories by name.
    pub closed spec fn factories(self) -> Map<Seq<char>, F> {
        Map::new(
            |name: Seq<char>| exists|i: int| self.holds(i, name),
            |name: Seq<char>| self.entries@[choose|i: int| self.holds(i, name)].1,
        )
    }

    /// A registry without factories.
    pub fn empty() -> (r: Self)
        ensures
            r.wf(),
            r.factories() == Map::<Seq<char>, F>::empty(),
    {
        let r: AgentRegistry<F> = AgentRegistry { entries: Vec::new() };
        proof {
            assert(r.factories() =~= Map::<Seq<char>, F>::empty());
        }
        r
    }

    /// A registry of the built-in agents.
    pub fn new(pid: F, d3qn: F) -> (r: Self)
        ensures
            r.wf(),
            r.factories() == Map::<Seq<char>, F>::empty().insert("pid"@, pid).insert(
                "d3qn"@,
                d3qn,
            ),
    {
        let mut r: AgentRegistry<F> = AgentRegistry::empty();
        r.register("pid", pid);
        r.register("d3qn", d3qn);
        r
    }

    proof fn lemma_entry(self, i: int)
        requires
            self.wf(),
            0 <= i < self.entries@.len(),
        ensures
            self.factories().dom().contains(self.entries@[i].0@),
            self.factories()[self.entries@[i].0@] == self.entries@[i].1,
    {
        let name = self.entries@[i].0@;
        assert(self.holds(i, name));
        let k = choose|k: int| self.holds(k, name);
        assert(self.holds(k, name));
        crate::text::order_is_strict(name);
        if k < i {
            assert(crate::text::earlier(self.entries@[k].0@, self.entries@[i].0@));
        } else if i < k {
            assert(crate::text::earlier(self.entries@[i].0@, self.entries@[k].0@));
        }
    }

    /// The first position whose name is not earlier than `name`.
    fn place(&self, name: &str) -> (r: usize)
        requires
            self.wf(),
        ensures
            r <= self.entries@.len(),
            forall|i: int|
                0 <= i < r ==> crate::text::earlier((#[trigger] self.entries@[i]).0@, name@),
            r < self.entries@.len() ==> !crate::text::earlier(self.entries@[r as int].0@, name@),
    {
        let mut i: usize = 0;
        while i < self.entries.len() && text_earlier(self.entries[i].0.as_str(), name)
            invariant
                i <= self.entries@.len(),
                forall|k: int|
                    0 <= k < i ==> crate::text::earlier((#[trigger] self.entries@[k]).0@, name@),
            decreases self.entries@.len() - i,
        {
            i += 1;
        }
        i
    }

    proof fn lemma_absent(self, name: Seq<char>, p: int)
        requires
            self.wf(),
            0 <= p <= self.entries@.len(),
            forall|i: int|
                0 <= i < p ==> crate::text::earlier((#[trigger] self.entries@[i]).0@, name),
            p < self.entries@.len() ==> crate::text::earlier(name, self.entries@[p].0@),
        ensures
            !self.factories().dom().contains(name),
            forall|i: int|
                p <= i < self.entries@.len() ==> crate::text::earlier(
                    name,
                    (#[trigger] self.entries@[i]).0@,
                ),
    {
        crate::text::order_is_strict(name);
        assert forall|i: int| p <= i < self.entries@.len() implies crate::text::earlier(
            name,
            (#[trigger] self.entries@[i]).0@,
        ) by {
            if p < i {
                assert(crate::text::earlier(self.entries@[p].0@, self.entries@[i].0@));
                crate::text::order_is_transitive(
                    name,
                    self.entries@[p].0@,
                    self.entries@[i].0@,
                );
            }
        }
        assert forall|i: int| !self.holds(i, name) by {
            if self.holds(i, name) {
                if i < p {
                    assert(crate::text::earlier(self.entries@[i].0@, name));
                } else {
                    assert(crate::text::earlier(name, self.entries@[i].0@));
                }
            }
        }
    }

    /// Registers a factory under a name, in place of the one there if any.
    #[verifier::spinoff_prover]
    #[verifier::rlimit(40)]
    pub fn register(&mut self, name: &str, factory: F)
        requires
            old(self).wf(),
        ensures
            final(self).wf(),
            final(self).factories() == old(self).factories().insert(name@, factory),
    {
        let p: usize = self.place(name);
        let taken: bool = p < self.entries.len() && same_text(self.entries[p].0.as_str(), name);
        if taken {
            self.entries.set(p, (name.to_owned(), factory));
            proof {
                self.lemma_replaced(*old(self), name@, p as int, factory);
            }
        } else {
            proof {
                if p < self.entries@.len() {
                    crate::text::order_is_total(self.entries@[p as int].0@, name@);
                }
                self.lemma_absent(name@, p as int);
            }
            self.entries.insert(p, (name.to_owned(), factory));
            proof {
                self.lemma_inserted(*old(self), name@, p as int, factory);
            }
        }
    }

    proof fn lemma_replaced(self, before: Self, name: Seq<char>, p: int, factory: F)
        requires
            before.wf(),
            0 <= p < before.entries@.len(),
            before.entries@[p].0@ == name,
            self.entries@.len() == before.entries@.len(),
            self.entries@[p].0@ == name,
            self.entries@[p].1 == factory,
            forall|i: int|
                0 <= i < before.entries@.len() && i != p ==> (#[trigger] self.entries@[i])
                    == before.entries@[i],
        ensures
            self.wf(),
            self.factories() == before.factories().insert(name, factory),
    {
        assert forall|i: int, j: int|
            0 <= i < j < self.entries@.len() implies crate::text::earlier(
            (#[trigger] self.entries@[i]).0@,
            (#[trigger] self.entries@[j]).0@,
        ) by {
            assert(self.entries@[i].0@ == before.entries@[i].0@);
            assert(self.entries@[j].0@ == before.entries@[j].0@);
        }
        let a = self.factories();
        let b = before.factories().insert(name, factory);
        assert forall|n: Seq<char>| #[trigger] a.dom().contains(n) == b.dom().contains(n) by {
            if a.dom().contains(n) {
                let i = choose|i: int| self.holds(i, n);
                assert(self.holds(i, n));
                assert(before.holds(i, n));
            }
            if b.dom().contains(n) {
                if n == name {
                    assert(self.holds(p, n));
                } else {
                    let i = choose|i: int| before.holds(i, n);
                    assert(before.holds(i, n));
                    assert(self.holds(i, n));
                }
            }
        }
        assert forall|n: Seq<char>| #[trigger] a.dom().contains(n) implies a[n] == b[n] by {
            let i = choose|i: int| self.holds(i, n);
            assert(self.holds(i, n));
            self.lemma_entry(i);
            before.lemma_entry(i);
        }
        assert(a =~= b);
    }

    proof fn lemma_inserted(self, before: Self, name: Seq<char>, p: int, factory: F)
        requires
            before.wf(),
            0 <= p <= before.entries@.len(),
            !before.factories().dom().contains(name),
            forall|i: int|
                0 <= i < p ==> crate::text::earlier((#[trigger] before.entries@[i]).0@, name),
            forall|i: int|
                p <= i < before.entries@.len() ==> crate::text::earlier(
                    name,
                    (#[trigger] before.entries@[i]).0@,
                ),
            self.entries@.len() == before.entries@.len() + 1,
            self.entries@[p].0@ == name,
            self.entries@[p].1 == factory,
            forall|i: int| 0 <= i < p ==> (#[trigger] self.entries@[i]) == before.entries@[i],
            forall|i: int|
                p < i < self.entries@.len() ==> (#[trigger] self.entries@[i])
                    == before.entries@[i - 1],
        ensures
            self.wf(),
            self.factories() == before.factories().insert(name, factory),
    {
        assert forall|i: int, j: int|
            0 <= i < j < self.entries@.len() implies crate::text::earlier(
            (#[trigger] self.entries@[i]).0@,
            (#[trigger] self.entries@[j]).0@,
        ) by {
            let i0 = if i < p {
                i
            } else {
                i - 1
            };
            let j0 = if j < p {
                j
            } else {
                j - 1
            };
            if i != p {
                assert(self.entries@[i] == before.entries@[i0]);
            }
            if j != p {
                assert(self.entries@[j] == before.entries@[j0]);
            }
            if i != p && j != p {
                assert(crate::text::earlier(before.entries@[i0].0@, before.entries@[j0].0@));
            }
        }
        let a = self.factories();
        let b = before.factories().insert(name, factory);
        assert forall|n: Seq<char>| #[trigger] a.dom().contains(n) == b.dom().contains(n) by {
            if a.dom().contains(n) {
                let i = choose|i: int| self.holds(i, n);
                assert(self.holds(i, n));
                if i < p {
                    assert(before.holds(i, n));
                } else if i > p {
                    assert(before.holds(i - 1, n));
                }
            }
            if b.dom().contains(n) {
                if n == name {
                    assert(self.holds(p, n));
                } else {
                    let i = choose|i: int| before.holds(i, n);
                    assert(before.holds(i, n));
                    if i < p {
                        assert(self.entries@[i] == before.entries@[i]);
                        assert(self.holds(i, n));
                    } else {
                        assert(self.entries@[i + 1] == before.entries@[i]);
                        assert(self.holds(i + 1, n));
                    }
                }
            }
        }
        assert forall|n: Seq<char>| #[trigger] a.dom().contains(n) implies a[n] == b[n] by {
            let i = choose|i: int| self.holds(i, n);
            assert(self.holds(i, n));
            self.lemma_entry(i);
            if i < p {
                before.lemma_entry(i);
            } else if i > p {
                before.lemma_entry(i - 1);
            }
        }
        assert(a =~= b);
    }

    /// The factory with a name.
    pub fn find(&self, name: &str) -> (r: Option<&F>)
        requires
            self.wf(),
        ensures
            match r {
                Some(f) => self.factories().dom().contains(name@) && *f == self.factories()[name@],
                None => !self.factories().dom().contains(name@),
            },
    {
        let p: usize = self.place(name);
        if p < self.entries.len() && same_text(self.entries[p].0.as_str(), name) {
            proof {
                self.lemma_entry(p as int);
            }
            Some(&self.entries[p].1)
        } else {
            proof {
                if p < self.entries@.len() {
                    crate::text::order_is_total(self.entries@[p as int].0@, name@);
                }
                self.lemma_absent(name@, p as int);
            }
            None
        }
    }

    /// Whether a name is registered.
    pub fn contains(&self, name: &str) -> (r: bool)
        requires
            self.wf(),
        ensures
            r == self.factories().dom().contains(name@),
    {
        self.find(name).is_some()
    }

    /// The registered names, each once, in order.
    pub fn available(&self) -> (r: Vec<String>)
        requires
            self.wf(),
        ensures
            self.lists(r@),
    {
        let mut r: Vec<String> = Vec::new();
        let mut i: usize = 0;
        while i < self.entries.len()
            invariant
                i <= self.entries@.len(),
                r@.len() == i,
                forall|k: int| 0 <= k < i ==> (#[trigger] r@[k])@ == self.entries@[k].0@,
            decreases self.entries@.len() - i,
        {
            r.push(self.entries[i].0.as_str().to_owned());
            i += 1;
        }
        proof {
            assert forall|k: int| 0 <= k < r@.len() implies self.factories().dom().contains(
                (#[trigger] r@[k])@,
            ) by {
                self.lemma_entry(k);
            }
            assert forall|n: Seq<char>| #[trigger]
                self.factories().dom().contains(n) implies exists|k: int|
                0 <= k < r@.len() && (#[trigger] r@[k])@ == n by {
                let k = choose|k: int| self.holds(k, n);
                assert(self.holds(k, n));
                assert(r@[k]@ == n);
            }
        }
        r
    }

    /// Whether a list holds the registered names, each once, in order.
    pub open spec fn lists(self, names: Seq<String>) -> bool {
        &&& forall|k: int|
            0 <= k < names.len() ==> self.factories().dom().contains((#[trigger] names[k])@)
        &&& forall|n: Seq<char>| #[trigger]
            self.factories().dom().contains(n) ==> exists|k: int|
                0 <= k < names.len() && (#[trigger] names[k])@ == n
        &&& forall|i: int, j: int|
            0 <= i < j < names.len() ==> crate::text::earlier(
                (#[trigger] names[i])@,
                (#[trigger] names[j])@,
            )
    }

    /// Builds the agent that a configuration selects, or returns the names
    /// that could be selected.
    pub fn try_build<A>(&self, config: &AgentConfig) -> (r: Result<A, Vec<String>>) where
        F: Fn(&AgentConfig) -> A,

        requires
            self.wf(),
            forall|name: Seq<char>| #[trigger]
                self.factories().dom().contains(name) ==> call_requires(
                    self.factories()[name],
                    (config,),
                ),
        ensures
            match r {
                Ok(agent) => self.factories().dom().contains(config.agent@) && call_ensures(
                    self.factories()[config.agent@],
                    (config,),
                    agent,
                ),
                Err(names) => !self.factories().dom().contains(config.agent@) && self.lists(
                    names@,
                ),
            },
    {
        match self.find(config.agent.as_str()) {
            Some(factory) => Ok(factory(config)),
            None => Err(self.available()),
        }
    }

    /// Builds the agent that a configuration selects.
    pub fn build<A>(&self, config: &AgentConfig) -> (r: A) where F: Fn(&AgentConfig) -> A
        requires
            self.wf(),
            self.factories().dom().contains(config.agent@),
            call_requires(self.factories()[config.agent@], (config,)),
        ensures
            call_ensures(self.factories()[config.agent@], (config,), r),
    {
        let p: usize = self.place(config.agent.as_str());
        proof {
            if p < self.entries@.len() {
                crate::text::order_is_total(self.entries@[p as int].0@, config.agent@);
            }
            if p == self.entries@.len() || self.entries@[p as int].0@ != config.agent@ {
                self.lemma_absent(config.agent@, p as int);
            }
            self.lemma_entry(p as int);
        }
        let factory: &F = &self.entries[p].1;
        factory(config)
    }
}

} // verus!
