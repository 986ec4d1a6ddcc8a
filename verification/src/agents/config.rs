//! The configuration of an agent: its kind and its parameters.
use crate::binary64::Binary64;
use crate::text::same_text;
use vstd::prelude::*;

verus! {

/// An item of a list of parameters.
#[derive(Clone, Copy, Debug, PartialEq, Eq, Structural)]
pub enum ParamItem {
    Float(Binary64),
    Integer(i64),
    /// Neither a float nor an integer.
    Other,
}

/// The value of a parameter.
#[derive(Clone, Debug)]
pub enum ParamValue {
    Float(Binary64),
    Integer(i64),
    Boolean(bool),
    Text(String),
    List(Vec<ParamItem>),
    /// None of these.
    Other,
}

/// A parameter.
#[derive(Clone, Debug)]
pub struct Param {
    pub key: String,
    pub value: ParamValue,
}

/// The configuration of an agent.
#[derive(Clone, Debug)]
pub struct AgentConfig {
    /// The name under which the agent is registered.
    pub agent: String,
    /// Its parameters. A key that an agent does not know is ignored.
    pub params: Vec<Param>,
}

/// The floats of a list.
pub open spec fn floats_of(items: Seq<ParamItem>) -> Seq<Binary64>
    decreases items.len(),
{
    if items.len() == 0 {
        Seq::empty()
    } else {
        match items.last() {
            ParamItem::Float(x) => floats_of(items.drop_last()).push(x),
            _ => floats_of(items.drop_last()),
        }
    }
}

/// The integers of a list, as sizes.
pub open spec fn sizes_of(items: Seq<ParamItem>) -> Seq<usize>
    decreases items.len(),
{
    if items.len() == 0 {
        Seq::empty()
    } else {
        match items.last() {
            ParamItem::Integer(k) => sizes_of(items.drop_last()).push(k as usize),
            _ => sizes_of(items.drop_last()),
        }
    }
}

impl AgentConfig {
    /// No key occurs twice.
    pub open spec fn wf(self) -> bool {
        forall|i: int, j: int|
            0 <= i < j < self.params@.len() ==> (#[trigger] self.params@[i]).key@ != (
            #[trigger] self.params@[j]).key@
    }

    /// Whether a parameter has a key.
    pub open spec fn keyed(self, i: int, key: Seq<char>) -> bool {
        0 <= i < self.params@.len() && self.params@[i].key@ == key
    }

    /// The parameter with a key.
    pub open spec fn param(self, key: Seq<char>) -> Option<ParamValue> {
        if exists|i: int| self.keyed(i, key) {
            Some(self.params@[choose|i: int| self.keyed(i, key)].value)
        } else {
            None
        }
    }

    /// A configuration without parameters.
    pub fn new(agent_type: &str) -> (r: Self)
        ensures
            r.wf(),
            r.agent@ == agent_type@,
            r.params@.len() == 0,
            forall|key: Seq<char>| #[trigger] r.param(key) is None,
    {
        let r: AgentConfig = AgentConfig { agent: agent_type.to_owned(), params: Vec::new() };
        proof {
            assert forall|key: Seq<char>| #[trigger] r.param(key) is None by {
                assert forall|i: int| !r.keyed(i, key) by {}
            }
        }
        r
    }

    proof fn lemma_param(self, i: int)
        requires
            self.wf(),
            0 <= i < self.params@.len(),
        ensures
            self.param(self.params@[i].key@) == Some(self.params@[i].value),
    {
        let key = self.params@[i].key@;
        assert(self.keyed(i, key));
        let k = choose|k: int| self.keyed(k, key);
        assert(self.keyed(k, key));
        if k < i {
            assert(self.params@[k].key@ != self.params@[i].key@);
        } else if i < k {
            assert(self.params@[i].key@ != self.params@[k].key@);
        }
    }

    /// The position of a key.
    fn position(&self, key: &str) -> (r: Option<usize>)
        requires
            self.wf(),
        ensures
            match r {
                Some(i) => self.keyed(i as int, key@) && self.param(key@) == Some(
                    self.params@[i as int].value,
                ),
                None => (forall|i: int| !self.keyed(i, key@)) && self.param(key@) is None,
            },
    {
        let mut i: usize = 0;
        while i < self.params.len()
            invariant
                i <= self.params@.len(),
                self.wf(),
                forall|k: int| 0 <= k < i ==> !self.keyed(k, key@),
            decreases self.params@.len() - i,
        {
            if same_text(self.params[i].key.as_str(), key) {
                proof {
                    self.lemma_param(i as int);
                }
                return Some(i);
            }
            i += 1;
        }
        None
    }

    /// Sets a parameter, in place of the one with the same key if any.
    pub fn set(&mut self, key: &str, value: ParamValue)
        requires
            old(self).wf(),
        ensures
            final(self).wf(),
            final(self).agent == old(self).agent,
            final(self).param(key@) == Some(value),
            forall|other: Seq<char>|
                other != key@ ==> #[trigger] final(self).param(other) == old(self).param(other),
    {
        match self.position(key) {
            Some(i) => {
                self.params.set(i, Param { key: key.to_owned(), value });
                proof {
                    self.lemma_param(i as int);
                    assert forall|other: Seq<char>| other != key@ implies #[trigger] self.param(
                        other,
                    ) == old(self).param(other) by {
                        self.lemma_same(*old(self), other);
                    }
                }
            },
            None => {
                proof {
                    assert forall|k: int| 0 <= k < self.params@.len() implies (
                    #[trigger] self.params@[k]).key@ != key@ by {
                        assert(!self.keyed(k, key@));
                    }
                }
                self.params.push(Param { key: key.to_owned(), value });
                proof {
                    self.lemma_param(self.params@.len() - 1);
                    assert forall|other: Seq<char>| other != key@ implies #[trigger] self.param(
                        other,
                    ) == old(self).param(other) by {
                        self.lemma_same(*old(self), other);
                    }
                }
            },
        }
    }

    proof fn lemma_same(self, before: Self, key: Seq<char>)
        requires
            self.wf(),
            before.wf(),
            forall|i: int| self.keyed(i, key) ==> before.keyed(i, key),
            forall|i: int|
                before.keyed(i, key) ==> self.keyed(i, key) && self.params@[i] == before.params@[i],
        ensures
            self.param(key) == before.param(key),
    {
        if exists|i: int| self.keyed(i, key) {
            let i = choose|i: int| self.keyed(i, key);
            assert(before.keyed(i, key));
            self.lemma_param(i);
            before.lemma_param(i);
        } else {
            assert forall|i: int| !before.keyed(i, key) by {}
        }
    }

    /// A parameter that is a float, else the default.
    pub fn get_f64(&self, key: &str, default: Binary64) -> (r: Binary64)
        requires
            self.wf(),
        ensures
            r == match self.param(key@) {
                Some(ParamValue::Float(x)) => x,
                _ => default,
            },
    {
        match self.position(key) {
            Some(i) => match &self.params[i].value {
                ParamValue::Float(x) => *x,
                _ => default,
            },
            None => default,
        }
    }

    /// A parameter that is an integer, as a size, else the default.
    pub fn get_usize(&self, key: &str, default: usize) -> (r: usize)
        requires
            self.wf(),
        ensures
            r == match self.param(key@) {
                Some(ParamValue::Integer(k)) => k as usize,
                _ => default,
            },
    {
        match self.position(key) {
            Some(i) => match &self.params[i].value {
                ParamValue::Integer(k) => *k as usize,
                _ => default,
            },
            None => default,
        }
    }

    /// A parameter that is a truth value, else the default.
    pub fn get_bool(&self, key: &str, default: bool) -> (r: bool)
        requires
            self.wf(),
        ensures
            r == match self.param(key@) {
                Some(ParamValue::Boolean(b)) => b,
                _ => default,
            },
    {
        match self.position(key) {
            Some(i) => match &self.params[i].value {
                ParamValue::Boolean(b) => *b,
                _ => default,
            },
            None => default,
        }
    }

    /// A parameter that is a text, else the default.
    pub fn get_str<'a>(&'a self, key: &str, default: &'a str) -> (r: &'a str)
        requires
            self.wf(),
        ensures
            r@ == match self.param(key@) {
                Some(ParamValue::Text(s)) => s@,
                _ => default@,
            },
    {
        match self.position(key) {
            Some(i) => match &self.params[i].value {
                ParamValue::Text(s) => s.as_str(),
                _ => default,
            },
            None => default,
        }
    }

    /// The floats of a list; the default without any.
    pub fn get_f64_vec(&self, key: &str, default: Vec<Binary64>) -> (r: Vec<Binary64>)
        requires
            self.wf(),
        ensures
            r@ == match self.param(key@) {
                Some(ParamValue::List(items)) => if floats_of(items@).len() > 0 {
                    floats_of(items@)
                } else {
                    default@
                },
                _ => default@,
            },
    {
        match self.position(key) {
            Some(i) => match &self.params[i].value {
                ParamValue::List(items) => {
                    let r: Vec<Binary64> = floats(items);
                    if r.len() == 0 {
                        default
                    } else {
                        r
                    }
                },
                _ => default,
            },
            None => default,
        }
    }

    /// The integers of a list, as sizes; the default without any.
    pub fn get_usize_vec(&self, key: &str, default: Vec<usize>) -> (r: Vec<usize>)
        requires
            self.wf(),
        ensures
            r@ == match self.param(key@) {
                Some(ParamValue::List(items)) => if sizes_of(items@).len() > 0 {
                    sizes_of(items@)
                } else {
                    default@
                },
                _ => default@,
            },
    {
        match self.position(key) {
            Some(i) => match &self.params[i].value {
                ParamValue::List(items) => {
                    let r: Vec<usize> = sizes(items);
                    if r.len() == 0 {
                        default
                    } else {
                        r
                    }
                },
                _ => default,
            },
            None => default,
        }
    }
}

fn floats(items: &Vec<ParamItem>) -> (r: Vec<Binary64>)
    ensures
        r@ == floats_of(items@),
{
    let mut r: Vec<Binary64> = Vec::new();
    let mut i: usize = 0;
    while i < items.len()
        invariant
            i <= items@.len(),
            r@ == floats_of(items@.take(i as int)),
        decreases items@.len() - i,
    {
        proof {
            assert(items@.take(i + 1).drop_last() =~= items@.take(i as int));
        }
        if let ParamItem::Float(x) = items[i] {
            r.push(x);
        }
        i += 1;
    }
    proof {
        assert(items@.take(i as int) =~= items@);
    }
    r
}

fn sizes(items: &Vec<ParamItem>) -> (r: Vec<usize>)
    ensures
        r@ == sizes_of(items@),
{
    let mut r: Vec<usize> = Vec::new();
    let mut i: usize = 0;
    while i < items.len()
        invariant
            i <= items@.len(),
            r@ == sizes_of(items@.take(i as int)),
        decreases items@.len() - i,
    {
        proof {
            assert(items@.take(i + 1).drop_last() =~= items@.take(i as int));
        }
        if let ParamItem::Integer(k) = items[i] {
            r.push(k as usize);
        }
        i += 1;
    }
    proof {
        assert(items@.take(i as int) =~= items@);
    }
    r
}

} // verus!
