//! `FilterStore`: holds the currently published `FilterSet` snapshot and
//! replaces it wholesale on every mutation, so a reader observes either the
//! fully-old or the fully-new snapshot, never an intermediate state.

use vstd::prelude::*;

use crate::filters::FilterSet;

verus! {

/// The store of the current rule snapshot.
///
/// Every mutation builds a brand-new complete snapshot and publishes it in
/// one step; the ghost `snapshots` sequence records every snapshot ever
/// published, in publication order, so the contracts can say that a reader
/// observes exactly the latest fully published snapshot and nothing partial.
pub struct FilterStore {
    current_set: FilterSet,
    snapshots: Ghost<Seq<Map<Seq<char>, Seq<char>>>>,
}

impl FilterStore {
    /// The snapshot published most recently.
    pub closed spec fn published(&self) -> Map<Seq<char>, Seq<char>> {
        self.current_set@
    }

    /// Every snapshot ever published, in order; never empty.
    pub closed spec fn history(&self) -> Seq<Map<Seq<char>, Seq<char>>> {
        self.snapshots@
    }

    /// Well-formed: the published snapshot is the last one of the history,
    /// and its rule list is well-formed.
    pub closed spec fn wf(&self) -> bool {
        &&& self.current_set.wf()
        &&& self.snapshots@.len() > 0
        &&& self.snapshots@.last() == self.current_set@
    }

    /// A store whose published snapshot is empty, as at process start.
    pub fn new() -> (r: FilterStore)
        ensures
            r.wf(),
            r.published() == Map::<Seq<char>, Seq<char>>::empty(),
            r.history() == seq![Map::<Seq<char>, Seq<char>>::empty()],
    {
        let current_set = FilterSet::empty();
        let ghost h = seq![current_set@];
        proof {
            assert(h.last() == current_set@);
        }
        FilterStore { current_set, snapshots: Ghost(h) }
    }

    /// The most recently published snapshot, as a copy the caller owns: a
    /// reader keeps it unchanged however the store is mutated afterwards,
    /// and it is always one whole published snapshot, never a partial one.
    pub fn current(&self) -> (r: FilterSet)
        requires
            self.wf(),
        ensures
            r.wf(),
            r@ == self.published(),
            r@ == self.history().last(),
    {
        self.current_set.clone()
    }

    /// Computes a new snapshot by applying `f` to a copy of the current
    /// one, then publishes the result in one step: a reader gets either the
    /// whole old snapshot or the whole new one. `f` must accept every
    /// well-formed snapshot and yield a well-formed one.
    pub fn mutate<F: FnOnce(FilterSet) -> FilterSet>(&mut self, f: F)
        requires
            old(self).wf(),
            forall|s: FilterSet| s.wf() ==> call_requires(f, (s,)),
            forall|s: FilterSet, r: FilterSet| #[trigger] call_ensures(f, (s,), r) ==> r.wf(),
        ensures
            final(self).wf(),
            exists|s: FilterSet, r: FilterSet|
                s@ == old(self).published() && #[trigger] call_ensures(f, (s,), r)
                    && final(self).published() == r@,
            final(self).history() == old(self).history().push(final(self).published()),
    {
        let snapshot = self.current_set.clone();
        let ghost s_wit = snapshot;
        let replacement = f(snapshot);
        self.current_set = replacement;
        proof {
            self.snapshots@ = self.snapshots@.push(self.current_set@);
            assert(s_wit@ == old(self).published()
                && call_ensures(f, (s_wit,), self.current_set)
                && self.published() == self.current_set@);
        }
    }

    /// Publishes the empty snapshot, dropping every rule.
    pub fn clear(&mut self)
        requires
            old(self).wf(),
        ensures
            final(self).wf(),
            final(self).published() == Map::<Seq<char>, Seq<char>>::empty(),
            final(self).history() == old(self).history().push(final(self).published()),
    {
        self.mutate(
            (|s: FilterSet| -> (r: FilterSet)
                ensures
                    r.wf(),
                    r@ === Map::empty(),
                { FilterSet::empty() }),
        );
    }

    /// Publishes a snapshot equal to the current one except that `field`
    /// now requires `value`; an earlier rule for `field` is overwritten.
    pub fn set_rule(&mut self, field: String, value: String)
        requires
            old(self).wf(),
        ensures
            final(self).wf(),
            final(self).published() == old(self).published().insert(field@, value@),
            final(self).history() == old(self).history().push(final(self).published()),
    {
        let ghost kf = field@;
        let ghost kv = value@;
        self.mutate(
            (|s: FilterSet| -> (r: FilterSet)
                requires
                    s.wf(),
                ensures
                    r.wf(),
                    r@ === s@.insert(kf, kv),
                { s.with_rule(field, value) }),
        );
    }
}

/// Every mutation appends exactly one complete snapshot: what a reader gets
/// from `current` is the history's last element, so a snapshot observed
/// concurrently with mutations is always one that some mutation published
/// whole, never a mixture of two.
pub proof fn lemma_reader_observes_published(s: FilterStore)
    requires
        s.wf(),
    ensures
        s.history().len() > 0,
        s.published() == s.history().last(),
{
}

} // verus!
