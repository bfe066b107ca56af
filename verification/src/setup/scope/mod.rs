use vstd::prelude::*;

pub mod controller;
pub mod unique;

use super::skip::Skip;
use super::step::Step;
use crate::controller::{fetch_succeeded, Fetched};

verus! {

/// A key under which setup steps of one type are told apart.
///
/// There are two: `()`, for a step type with a single instance, and
/// `Controller`, for a step type with one instance for each target.
pub trait Scope: Sized {
    /// The guild that has to be fetched before the skip check can answer.
    spec fn spec_probe(&self) -> Option<u64>;

    /// The verdict of the skip check, given whether the guild was fetched
    /// with success.
    spec fn spec_try_skip(&self, reached: bool) -> Skip;

    /// What tells the scope apart in the name of a step.
    spec fn spec_suffix(&self) -> Seq<char>;

    /// The guild to fetch before `try_skip`, or `None` where the check needs
    /// no fetch.
    fn probe(&self) -> (guild: Option<u64>)
        ensures
            guild == self.spec_probe(),
    ;

    /// Whether the step registered under this scope is left out of the run.
    /// `fetched` is the outcome of fetching the guild that `probe` names,
    /// `None` where nothing was fetched.
    fn try_skip<G, E>(&self, fetched: Fetched<G, E>) -> (skip: Skip)
        ensures
            skip == self.spec_try_skip(fetch_succeeded(fetched)),
    ;

    /// A suffix that tells the scope apart in the name of a step.
    fn suffix(&self) -> (suffix: String)
        ensures
            suffix@ == self.spec_suffix(),
    ;
}

/// Whether one of `entries` stands under `scope`.
pub open spec fn has_scope<Sc, R>(entries: Seq<(Sc, R)>, scope: Sc) -> bool {
    exists|i: int| 0 <= i < entries.len() && (#[trigger] entries[i]).0 == scope
}

/// The place of an entry that stands under `scope`, where there is one.
pub open spec fn scope_index<Sc, R>(entries: Seq<(Sc, R)>, scope: Sc) -> int {
    choose|i: int| 0 <= i < entries.len() && (#[trigger] entries[i]).0 == scope
}

/// No two of `entries` stand under the same scope.
pub open spec fn scopes_distinct<Sc, R>(entries: Seq<(Sc, R)>) -> bool {
    forall|i: int, j: int|
        0 <= i < j < entries.len() ==> (#[trigger] entries[i]).0 != (#[trigger] entries[j]).0
}

/// `entries` with `step` put under `scope`: in the place of the entry that
/// stood there, or behind the last one.
pub open spec fn with_step<Sc, R>(entries: Seq<(Sc, R)>, scope: Sc, step: R) -> Seq<(Sc, R)> {
    if has_scope(entries, scope) {
        entries.update(scope_index(entries, scope), (scope, step))
    } else {
        entries.push((scope, step))
    }
}

/// The step instances of one type, one for each scope that something was
/// registered under.
pub trait Collection<R: Step>: Sized {
    /// The instances with their scopes, in the order in which a run deals
    /// with them.
    spec fn entries(&self) -> Seq<(R::Scope, R)>;

    /// Whether the collection can hand out an instance for `scope`.
    spec fn admits(&self, scope: R::Scope) -> bool;

    /// Every instance is well formed and no scope occurs twice.
    open spec fn wf(&self) -> bool {
        &&& scopes_distinct(self.entries())
        &&& forall|i: int|
            0 <= i < self.entries().len() ==> (#[trigger] self.entries()[i]).1.wf()
    }

    /// The instance for `scope`. The first call for a scope creates it, empty,
    /// behind the instances that are there; a later call finds it again.
    /// What the caller does to the instance is what the collection holds
    /// afterwards.
    fn factory(&mut self, scope: R::Scope) -> (step: &mut R)
        requires
            old(self).wf(),
            old(self).admits(scope),
        ensures
            step.wf(),
            has_scope(old(self).entries(), scope) ==> *step == old(self).entries()[scope_index(
                old(self).entries(),
                scope,
            )].1,
            !has_scope(old(self).entries(), scope) ==> step.operands() == Seq::<
                R::Operand,
            >::empty(),
            final(self).entries() == with_step(old(self).entries(), scope, *final(step)),
    ;

    /// The instances with their scopes, for a run to take one by one.
    fn into_pairs(self) -> (pairs: Vec<(R::Scope, R)>)
        ensures
            pairs@ == self.entries(),
    ;
}

/// Putting a step under a scope keeps the scopes apart: no scope occurs
/// twice, the step is found under its scope, and the other scopes have an
/// entry just where they had one.
pub proof fn lemma_with_step<Sc, R>(entries: Seq<(Sc, R)>, scope: Sc, step: R)
    requires
        scopes_distinct(entries),
    ensures
        scopes_distinct(with_step(entries, scope, step)),
        has_scope(with_step(entries, scope, step), scope),
        with_step(entries, scope, step)[scope_index(with_step(entries, scope, step), scope)].1
            == step,
        forall|other: Sc|
            other != scope ==> (has_scope(with_step(entries, scope, step), other) <==> has_scope(
                entries,
                other,
            )),
        with_step(entries, scope, step).len() == entries.len() + (if has_scope(entries, scope) {
            0int
        } else {
            1int
        }),
{
    let after = with_step(entries, scope, step);
    if has_scope(entries, scope) {
        let at = scope_index(entries, scope);
        assert(after[at].0 == scope);
    } else {
        assert(after[entries.len() as int].0 == scope);
    }
    assert(has_scope(after, scope));
    assert forall|other: Sc| other != scope implies (has_scope(after, other) <==> has_scope(
        entries,
        other,
    )) by {
        if has_scope(after, other) {
            let i = scope_index(after, other);
            assert(entries[i].0 == other);
        }
        if has_scope(entries, other) {
            let i = scope_index(entries, other);
            assert(after[i].0 == other);
        }
    }
}

} // verus!
