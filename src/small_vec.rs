//! The inline-first vectors that hold a rule's conditions and a list's rules.
//!
//! Each keeps a `SmallVec` in a private field; what the vector holds is named by a spec
//! function, and each operation the engine uses is a thin call into `SmallVec`.
use smallvec::SmallVec;
use vstd::prelude::*;

use crate::rules::Rule;
use crate::wires::Query;

verus! {

/// The conditions of one rule, in order.
#[verifier::external_body]
#[derive(Debug, PartialEq, Eq)]
pub struct QueryVec {
    inner: SmallVec<[Query; 2]>,
}

/// The rules of one rule list, in order.
#[verifier::external_body]
#[derive(Debug, PartialEq, Eq)]
pub struct RuleVec {
    inner: SmallVec<[Rule; 4]>,
}

/// The conditions held by a rule's vector, in order.
pub uninterp spec fn queries_of(v: QueryVec) -> Seq<Query>;

/// The rules held by a rule list's vector, in order.
pub uninterp spec fn rules_of(v: RuleVec) -> Seq<Rule>;

impl View for QueryVec {
    type V = Seq<Query>;

    open spec fn view(&self) -> Seq<Query> {
        queries_of(*self)
    }
}

impl View for RuleVec {
    type V = Seq<Rule>;

    open spec fn view(&self) -> Seq<Rule> {
        rules_of(*self)
    }
}

impl QueryVec {
    /// Relies on `SmallVec::new`: the new vector is empty.
    #[verifier::external_body]
    pub(crate) fn empty() -> (r: QueryVec)
        ensures
            queries_of(r) == Seq::<Query>::empty(),
    {
        QueryVec { inner: SmallVec::new() }
    }

    /// Relies on `SmallVec::push`: the item is appended at the end.
    #[verifier::external_body]
    pub(crate) fn push(&mut self, q: Query)
        requires
            queries_of(*old(self)).len() < usize::MAX,
        ensures
            queries_of(*final(self)) == queries_of(*old(self)).push(q),
    {
        self.inner.push(q)
    }

    /// Relies on `SmallVec::len`: the number of items held.
    #[verifier::external_body]
    pub(crate) fn len(&self) -> (n: usize)
        ensures
            n == queries_of(*self).len(),
    {
        self.inner.len()
    }

    /// Relies on `SmallVec`'s indexing: the item at position `i`.
    #[verifier::external_body]
    pub(crate) fn get(&self, i: usize) -> (q: &Query)
        requires
            i < queries_of(*self).len(),
        ensures
            *q == queries_of(*self)[i as int],
    {
        &self.inner[i]
    }
}

impl RuleVec {
    /// Relies on `SmallVec::new`: the new vector is empty.
    #[verifier::external_body]
    pub(crate) fn empty() -> (r: RuleVec)
        ensures
            rules_of(r) == Seq::<Rule>::empty(),
    {
        RuleVec { inner: SmallVec::new() }
    }

    /// Relies on `SmallVec::push`: the item is appended at the end.
    #[verifier::external_body]
    pub(crate) fn push(&mut self, r: Rule)
        requires
            rules_of(*old(self)).len() < usize::MAX,
        ensures
            rules_of(*final(self)) == rules_of(*old(self)).push(r),
    {
        self.inner.push(r)
    }

    /// Relies on `SmallVec::len`: the number of items held.
    #[verifier::external_body]
    pub(crate) fn len(&self) -> (n: usize)
        ensures
            n == rules_of(*self).len(),
    {
        self.inner.len()
    }

    /// Relies on `SmallVec`'s indexing: the item at position `i`.
    #[verifier::external_body]
    pub(crate) fn get(&self, i: usize) -> (r: &Rule)
        requires
            i < rules_of(*self).len(),
        ensures
            *r == rules_of(*self)[i as int],
    {
        &self.inner[i]
    }

    /// Relies on `SmallVec`'s `Extend`: the items of `tail` move to the end, in order.
    #[verifier::external_body]
    pub(crate) fn append(&mut self, tail: RuleVec)
        requires
            rules_of(*old(self)).len() + rules_of(tail).len() <= usize::MAX,
        ensures
            rules_of(*final(self)) == rules_of(*old(self)) + rules_of(tail),
    {
        self.inner.extend(tail.inner)
    }
}

} // verus!
