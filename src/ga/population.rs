//! The population: wrapped subjects and the size the pipeline keeps it at.
use vstd::prelude::*;

use crate::ga::fitness::FitnessWrapped;
use crate::ga::prune::PruneRandom;
use crate::ga::select::SelectOtherRandom;

verus! {

/// `items` run from best to worst: by ascending fitness, or by descending
/// fitness when `descending`.
pub open spec fn sorted_by_fitness<Subject>(items: Seq<FitnessWrapped<Subject>>, descending: bool) -> bool {
    forall|i: int, j: int|
        0 <= i < j < items.len() ==> if descending {
            items[i].spec_fitness() >= items[j].spec_fitness()
        } else {
            items[i].spec_fitness() <= items[j].spec_fitness()
        }
}

/// Relies on slice::sort_by_key: it reorders the items so that their keys
/// ascend.
#[verifier::external_body]
fn sort_by_fitness<Subject>(items: &mut Vec<FitnessWrapped<Subject>>)
    ensures
        final(items)@.to_multiset() == old(items)@.to_multiset(),
        sorted_by_fitness(final(items)@, false),
{
    items.sort_by_key(|w| w.fitness());
}

/// Relies on slice::sort_by_key with std::cmp::Reverse keys: it reorders the
/// items so that their fitness descends.
#[verifier::external_body]
fn sort_by_fitness_rev<Subject>(items: &mut Vec<FitnessWrapped<Subject>>)
    ensures
        final(items)@.to_multiset() == old(items)@.to_multiset(),
        sorted_by_fitness(final(items)@, true),
{
    items.sort_by_key(|w| std::cmp::Reverse(w.fitness()));
}

/// Relies on rayon's ParallelSliceMut::par_sort_by_key: it reorders the items
/// in parallel so that their keys ascend.
#[verifier::external_body]
fn par_sort_by_fitness<Subject: Send>(items: &mut Vec<FitnessWrapped<Subject>>)
    ensures
        final(items)@.to_multiset() == old(items)@.to_multiset(),
        sorted_by_fitness(final(items)@, false),
{
    rayon::slice::ParallelSliceMut::par_sort_by_key(&mut items[..], |w: &FitnessWrapped<Subject>| w.fitness());
}

/// Relies on rayon's ParallelSliceMut::par_sort_by_key with std::cmp::Reverse
/// keys: it reorders the items in parallel so that their fitness descends.
#[verifier::external_body]
fn par_sort_by_fitness_rev<Subject: Send>(items: &mut Vec<FitnessWrapped<Subject>>)
    ensures
        final(items)@.to_multiset() == old(items)@.to_multiset(),
        sorted_by_fitness(final(items)@, true),
{
    rayon::slice::ParallelSliceMut::par_sort_by_key(
        &mut items[..],
        |w: &FitnessWrapped<Subject>| std::cmp::Reverse(w.fitness()),
    );
}

/// The wrapped subjects of a run, and the size that the pipeline restores.
#[derive(Debug, Clone, Default)]
pub struct Population<Subject> {
    pub pool_size: usize,
    pub subjects: Vec<FitnessWrapped<Subject>>,
}

impl<Subject> Population<Subject> {
    /// An empty population that aims at `pool_size` members.
    pub fn empty(pool_size: usize) -> (r: Self)
        ensures
            r.pool_size == pool_size,
            r.subjects.len() == 0,
    {
        Population { pool_size, subjects: Vec::new() }
    }

    pub fn add(&mut self, subject: FitnessWrapped<Subject>)
        ensures
            final(self).subjects@ == old(self).subjects@.push(subject),
            final(self).pool_size == old(self).pool_size,
    {
        self.subjects.push(subject);
    }

    /// Iterates over the members in order.
    pub fn iter(&self) -> std::slice::Iter<'_, FitnessWrapped<Subject>> {
        self.subjects.iter()
    }

    /// Iterates over the members from the last to the first.
    pub fn iter_reverse(&self) -> std::iter::Rev<std::slice::Iter<'_, FitnessWrapped<Subject>>> {
        self.subjects.iter().rev()
    }

    /// Orders the members by ascending fitness.
    pub fn sort(&mut self)
        ensures
            final(self).subjects@.to_multiset() == old(self).subjects@.to_multiset(),
            sorted_by_fitness(final(self).subjects@, false),
            final(self).pool_size == old(self).pool_size,
    {
        sort_by_fitness(&mut self.subjects);
    }

    /// Orders the members by descending fitness.
    pub fn sort_rev(&mut self)
        ensures
            final(self).subjects@.to_multiset() == old(self).subjects@.to_multiset(),
            sorted_by_fitness(final(self).subjects@, true),
            final(self).pool_size == old(self).pool_size,
    {
        sort_by_fitness_rev(&mut self.subjects);
    }

    /// Orders the members by ascending fitness, sorting in parallel.
    pub fn par_sort(&mut self) where Subject: Send
        ensures
            final(self).subjects@.to_multiset() == old(self).subjects@.to_multiset(),
            sorted_by_fitness(final(self).subjects@, false),
            final(self).pool_size == old(self).pool_size,
    {
        par_sort_by_fitness(&mut self.subjects);
    }

    /// Orders the members by descending fitness, sorting in parallel.
    pub fn par_sort_rev(&mut self) where Subject: Send
        ensures
            final(self).subjects@.to_multiset() == old(self).subjects@.to_multiset(),
            sorted_by_fitness(final(self).subjects@, true),
            final(self).pool_size == old(self).pool_size,
    {
        par_sort_by_fitness_rev(&mut self.subjects);
    }

    pub fn prune_random<P: PruneRandom<Vec<FitnessWrapped<Subject>>>>(&mut self, pruner: P)
        ensures
            pruner.prunes_random(old(self).subjects, final(self).subjects),
            final(self).pool_size == old(self).pool_size,
    {
        pruner.prune_random(&mut self.subjects);
    }

    /// Selects from references to the members, in order.
    pub fn select_random<'a, S: SelectOtherRandom<&'a FitnessWrapped<Subject>>>(&'a self, selector: S) -> (r: S::Output)
        ensures
            exists|refs: Seq<&'a FitnessWrapped<Subject>>|
                refs.len() == self.subjects.len() && (forall|i: int| 0 <= i < refs.len() ==> *#[trigger] refs[i] == self.subjects[i])
                    && selector.selects_random(refs, r),
    {
        let mut refs: Vec<&'a FitnessWrapped<Subject>> = Vec::new();
        let mut i: usize = 0;
        while i < self.subjects.len()
            invariant
                i <= self.subjects.len(),
                refs.len() == i,
                forall|k: int| 0 <= k < i ==> *#[trigger] refs[k] == self.subjects[k],
            decreases self.subjects.len() - i,
        {
            refs.push(&self.subjects[i]);
            i = i + 1;
        }
        let ghost seen = refs@;
        let r = selector.select_random(refs);
        assert(seen.len() == self.subjects.len());
        r
    }
}

} // verus!
