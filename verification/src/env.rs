//! Environments: name-to-value binding frames with an optional parent,
//! forming the scope chain. The interpreter owns them in an append-only
//! arena indexed by integer id; every parent reference points at a
//! lower-numbered entry, so each chain reaches the global frame.
//!
//! Name resolution for reads walks the parent chain; assignment touches the
//! innermost frame only. That asymmetry is the observed language behaviour
//! and is preserved, not corrected.

use vstd::prelude::*;
use crate::errors::{ErrS, RuntimeError};
use crate::value::{Value, ValueS};

verus! {

/// The mathematical model of an [`Environment`]: a map from names to value
/// models, and the arena index of the parent frame.
pub struct EnvS {
    pub vars: Map<Seq<char>, ValueS>,
    pub parent: Option<int>,
}

/// The map an ordered binding list stands for; a later binding of a name
/// overrides an earlier one (the list in fact keeps names distinct).
pub open spec fn assoc_map(s: Seq<(String, Value)>) -> Map<Seq<char>, ValueS>
    decreases s,
{
    if s.len() == 0 {
        Map::empty()
    } else {
        assoc_map(s.drop_last()).insert(s.last().0@, s.last().1.deep())
    }
}

/// Whether the binding list holds each name at most once.
pub open spec fn distinct_keys(s: Seq<(String, Value)>) -> bool {
    forall|i: int, j: int| 0 <= i < j < s.len() ==> s[i].0@ != s[j].0@
}

/// A name-to-value binding frame with an optional parent frame.
#[derive(Debug)]
pub struct Environment {
    values: Vec<(String, Value)>,
    parent: Option<usize>,
}

impl Environment {
    /// The mathematical model of this frame.
    pub closed spec fn deep(self) -> EnvS {
        EnvS {
            vars: assoc_map(self.values@),
            parent: match self.parent {
                Some(p) => Some(p as int),
                None => None,
            },
        }
    }

    /// The frame's internal invariant: no name is bound twice.
    pub closed spec fn wf(self) -> bool {
        distinct_keys(self.values@)
    }

    /// An empty frame with no parent: the shape of the global environment.
    pub fn new() -> (r: Environment)
        ensures
            r.wf(),
            r.deep().vars == Map::<Seq<char>, ValueS>::empty(),
            r.deep().parent is None,
    {
        Environment { values: Vec::new(), parent: None }
    }

    /// An empty frame whose parent is the arena entry `parent_id`.
    pub fn with_parent(parent_id: usize) -> (r: Environment)
        ensures
            r.wf(),
            r.deep().vars == Map::<Seq<char>, ValueS>::empty(),
            r.deep().parent == Some(parent_id as int),
    {
        Environment { values: Vec::new(), parent: Some(parent_id) }
    }

    /// Binds `name` to `value` in this frame, replacing any previous
    /// binding of the name.
    #[verifier::loop_isolation(false)]
    pub fn define(&mut self, name: &str, value: Value)
        requires
            old(self).wf(),
        ensures
            final(self).wf(),
            final(self).deep().vars == old(self).deep().vars.insert(name@, value.deep()),
            final(self).deep().parent == old(self).deep().parent,
    {
        let owned: String = name.to_owned();
        let n = self.values.len();
        let mut i: usize = 0;
        while i < n
            invariant
                n == self.values@.len(),
                i <= n,
                *self == *old(self),
                forall|j: int| 0 <= j < i ==> self.values@[j].0@ != name@,
            decreases n - i,
        {
            if self.values[i].0 == owned {
                let ghost before = self.values@;
                self.values[i] = (owned.clone(), value);
                proof {
                    let entry = self.values@[i as int];
                    lemma_assoc_update(before, i as int, entry);
                    assert(self.deep().vars =~= old(self).deep().vars.insert(
                        name@,
                        value.deep(),
                    ));
                    assert forall|a: int, b: int|
                        0 <= a < b < self.values@.len() implies self.values@[a].0@
                        != self.values@[b].0@ by {
                        assert(self.values@[a].0@ == before[a].0@);
                        assert(self.values@[b].0@ == before[b].0@);
                    }
                }
                return ;
            }
            i = i + 1;
        }
        self.values.push((owned, value));
        proof {
            assert(self.values@.drop_last() =~= old(self).values@);
            assert(self.deep().vars =~= old(self).deep().vars.insert(name@, value.deep()));
        }
    }

    /// The value bound to `name` in this frame alone, as an independent
    /// value, or `None` when the frame does not bind the name.
    #[verifier::loop_isolation(false)]
    pub fn get(&self, name: &str) -> (r: Option<Value>)
        requires
            self.wf(),
        ensures
            match r {
                Some(v) => self.deep().vars.contains_key(name@) && v.deep()
                    == self.deep().vars[name@],
                None => !self.deep().vars.contains_key(name@),
            },
    {
        let owned: String = name.to_owned();
        let n = self.values.len();
        let mut i: usize = 0;
        while i < n
            invariant
                n == self.values@.len(),
                i <= n,
                forall|j: int| 0 <= j < i ==> self.values@[j].0@ != name@,
            decreases n - i,
        {
            if self.values[i].0 == owned {
                proof {
                    lemma_assoc_found(self.values@, i as int);
                }
                return Some(self.values[i].1.duplicate());
            }
            i = i + 1;
        }
        proof {
            lemma_assoc_absent(self.values@, name@);
        }
        None
    }

    /// Rebinds `name` in this frame alone: the asymmetric assignment rule.
    /// Succeeds exactly when the frame already binds the name; parent
    /// frames are never searched.
    pub fn assign(&mut self, name: &str, value: Value) -> (r: Result<(), RuntimeError>)
        requires
            old(self).wf(),
        ensures
            final(self).wf(),
            final(self).deep().parent == old(self).deep().parent,
            old(self).deep().vars.contains_key(name@) ==> r is Ok && final(self).deep().vars
                == old(self).deep().vars.insert(name@, value.deep()),
            !old(self).deep().vars.contains_key(name@) ==> *final(self) == *old(self) && (
            match r {
                Err(e) => e.deep() == ErrS::UndefinedVariable(name@),
                Ok(_) => false,
            }),
    {
        proof {
            lemma_assoc_domain(self.values@, name@);
        }
        if self.contains(name) {
            self.define(name, value);
            Ok(())
        } else {
            Err(RuntimeError::UndefinedVariable(name.to_owned()))
        }
    }

    /// Whether this frame alone binds `name`.
    #[verifier::loop_isolation(false)]
    pub fn contains(&self, name: &str) -> (r: bool)
        requires
            self.wf(),
        ensures
            r == self.deep().vars.contains_key(name@),
    {
        let owned: String = name.to_owned();
        let n = self.values.len();
        let mut i: usize = 0;
        while i < n
            invariant
                n == self.values@.len(),
                i <= n,
                forall|j: int| 0 <= j < i ==> self.values@[j].0@ != name@,
            decreases n - i,
        {
            if self.values[i].0 == owned {
                proof {
                    lemma_assoc_found(self.values@, i as int);
                }
                return true;
            }
            i = i + 1;
        }
        proof {
            lemma_assoc_absent(self.values@, name@);
        }
        false
    }
}

/// The models of an arena's frames, in arena order.
pub open spec fn envs_deep(s: Seq<Environment>) -> Seq<EnvS> {
    s.map(|i: int, e: Environment| e.deep())
}

/// Every frame of the arena satisfies its own invariant.
pub open spec fn arena_wf(s: Seq<Environment>) -> bool {
    forall|i: int| 0 <= i < s.len() ==> (#[trigger] s[i]).wf()
}

impl Environment {
    /// The length bound of this frame's parent chain, the measure the chain
    /// walk descends along.
    pub closed spec fn chain_measure(self) -> int {
        match self.parent {
            Some(p) => p + 1,
            None => 0,
        }
    }

    /// The value bound to `name` in this frame or, walking the parent chain
    /// through the arena, in the nearest enclosing frame that binds it.
    pub fn get_with_scope_chain(&self, name: &str, environments: &[Environment]) -> (r: Option<
        Value,
    >)
        requires
            self.wf(),
            arena_wf(environments@),
            crate::semantics::parents_ok(envs_deep(environments@)),
            self.deep().parent matches Some(p) ==> 0 <= p < environments@.len(),
        ensures
            match r {
                Some(v) => crate::semantics::lookup_from(
                    envs_deep(environments@),
                    self.deep(),
                    name@,
                ) == Some(v.deep()),
                None => crate::semantics::lookup_from(
                    envs_deep(environments@),
                    self.deep(),
                    name@,
                ) is None,
            },
        decreases self.chain_measure(),
    {
        match self.get(name) {
            Some(v) => Some(v),
            None => {
                match self.parent {
                    Some(p) => {
                        proof {
                            assert(envs_deep(environments@)[p as int]
                                == environments@[p as int].deep());
                        }
                        environments[p].get_with_scope_chain(name, environments)
                    }
                    None => None,
                }
            }
        }
    }
}

/// Replacing the value at a bound position updates the map at that name.
proof fn lemma_assoc_update(s: Seq<(String, Value)>, i: int, entry: (String, Value))
    requires
        0 <= i < s.len(),
        distinct_keys(s),
        entry.0@ == s[i].0@,
    ensures
        assoc_map(s.update(i, entry)) =~= assoc_map(s).insert(entry.0@, entry.1.deep()),
    decreases s,
{
    let t = s.update(i, entry);
    if i == s.len() - 1 {
        assert(t.drop_last() =~= s.drop_last());
    } else {
        assert(t.drop_last() =~= s.drop_last().update(i, entry));
        lemma_assoc_update(s.drop_last(), i, entry);
        assert(t.last() == s.last());
        assert(s.last().0@ != entry.0@);
    }
}

/// A bound position gives the map's value at that name.
proof fn lemma_assoc_found(s: Seq<(String, Value)>, i: int)
    requires
        0 <= i < s.len(),
        distinct_keys(s),
    ensures
        assoc_map(s).contains_key(s[i].0@),
        assoc_map(s)[s[i].0@] == s[i].1.deep(),
    decreases s,
{
    if i < s.len() - 1 {
        lemma_assoc_found(s.drop_last(), i);
        assert(s.last().0@ != s[i].0@);
    }
}

/// A name bound at no position is absent from the map.
proof fn lemma_assoc_absent(s: Seq<(String, Value)>, k: Seq<char>)
    requires
        forall|j: int| 0 <= j < s.len() ==> s[j].0@ != k,
    ensures
        !assoc_map(s).contains_key(k),
    decreases s,
{
    if s.len() > 0 {
        lemma_assoc_absent(s.drop_last(), k);
    }
}

/// The map binds a name exactly when some position holds it.
proof fn lemma_assoc_domain(s: Seq<(String, Value)>, k: Seq<char>)
    ensures
        assoc_map(s).contains_key(k) <==> exists|j: int| 0 <= j < s.len() && s[j].0@ == k,
    decreases s,
{
    if s.len() > 0 {
        lemma_assoc_domain(s.drop_last(), k);
        if exists|j: int| 0 <= j < s.len() - 1 && s.drop_last()[j].0@ == k {
            let j = choose|j: int| 0 <= j < s.len() - 1 && s.drop_last()[j].0@ == k;
            assert(s[j].0@ == k);
        }
        if s.last().0@ == k {
            assert(s[s.len() - 1].0@ == k);
        }
        if exists|j: int| 0 <= j < s.len() && s[j].0@ == k {
            let j = choose|j: int| 0 <= j < s.len() && s[j].0@ == k;
            if j < s.len() - 1 {
                assert(s.drop_last()[j].0@ == k);
            }
        }
    }
}

} // verus!
