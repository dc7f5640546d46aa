//! Pipeline compositions: the empty stage and the default five-stage pipeline.
use std::marker::PhantomData;

use vstd::prelude::*;

use crate::ga::dedupe::{DedupeAction, DedupeOther};
use crate::ga::fitness::FitnessWrapped;
use crate::ga::mutation::{ApplyMutation, GenericMutator};
use crate::ga::population::Population;
use crate::ga::prune::{PruneAction, PruneOther};
use crate::ga::reproduction::{ApplyReproduction, GenericReproducer};
use crate::ga::select::SelectOther;
use crate::ga::{GaAction, GaContext, SampleSelf};

verus! {

/// A stage that leaves the population as it is.
#[derive(Debug, Default)]
pub struct EmptyAction<Subject>(PhantomData<Subject>);

impl<Subject> EmptyAction<Subject> {
    pub fn new() -> Self {
        EmptyAction(PhantomData)
    }
}

impl<Subject, Data> GaAction<Data> for EmptyAction<Subject> {
    type Subject = Subject;

    open spec fn can_perform(&self) -> bool {
        true
    }

    open spec fn performs(&self, context: GaContext<Data>, before: Population<Subject>, after: Population<Subject>) -> bool {
        after == before
    }

    fn perform_action(&self, _context: &GaContext<Data>, _population: &mut Population<Subject>) {
    }
}

/// The default pipeline: prune, mutate, reproduce, dedupe, inflate, in that order.
pub struct DefaultActions<
    Subject,
    Pruner,
    MutatorActions,
    Mutator,
    Selector,
    ReproducerActions,
    Reproducer,
    Dedupe,
    Inflator,
> {
    pub prune: PruneAction<Subject, Pruner>,
    pub mutation: GenericMutator<Mutator, Subject, MutatorActions>,
    pub reproduction: GenericReproducer<Reproducer, Selector, Subject, ReproducerActions>,
    pub dedupe: DedupeAction<Subject, Dedupe>,
    pub inflate: Inflator,
}

impl<
    Subject,
    Pruner,
    MutatorActions,
    Mutator,
    Selector,
    ReproducerActions,
    Reproducer,
    Dedupe,
    Inflator,
    Data,
> GaAction<Data> for DefaultActions<
    Subject,
    Pruner,
    MutatorActions,
    Mutator,
    Selector,
    ReproducerActions,
    Reproducer,
    Dedupe,
    Inflator,
> where
    Pruner: PruneOther<Vec<FitnessWrapped<Subject>>>,
    Mutator: ApplyMutation<Data, Subject = Subject>,
    MutatorActions: SampleSelf<Output = Vec<Mutator>>,
    Selector: SelectOther<usize, Output = Vec<usize>>,
    Reproducer: ApplyReproduction<Data, Subject = Subject>,
    ReproducerActions: SampleSelf<Output = Vec<Reproducer>>,
    Dedupe: DedupeOther<Population<Subject>>,
    Inflator: GaAction<Data, Subject = Subject>,
 {
    type Subject = Subject;

    open spec fn can_perform(&self) -> bool {
        &&& GaAction::<Data>::can_perform(&self.mutation)
        &&& GaAction::<Data>::can_perform(&self.reproduction)
        &&& self.inflate.can_perform()
    }

    open spec fn performs(&self, context: GaContext<Data>, before: Population<Subject>, after: Population<Subject>) -> bool {
        exists|pruned: Population<Subject>, mutated: Population<Subject>, grown: Population<Subject>, deduped: Population<Subject>|
            {
                &&& GaAction::<Data>::performs(&self.prune, context, before, pruned)
                &&& GaAction::<Data>::performs(&self.mutation, context, pruned, mutated)
                &&& GaAction::<Data>::performs(&self.reproduction, context, mutated, grown)
                &&& GaAction::<Data>::performs(&self.dedupe, context, grown, deduped)
                &&& self.inflate.performs(context, deduped, after)
            }
    }

    fn perform_action(&self, context: &GaContext<Data>, population: &mut Population<Subject>) {
        let ghost before = *population;
        self.prune.perform_action(context, population);
        let ghost pruned = *population;
        self.mutation.perform_action(context, population);
        let ghost mutated = *population;
        self.reproduction.perform_action(context, population);
        let ghost grown = *population;
        self.dedupe.perform_action(context, population);
        let ghost deduped = *population;
        self.inflate.perform_action(context, population);
        assert(GaAction::<Data>::performs(&self.prune, *context, before, pruned));
    }
}

impl<
    Subject,
    Pruner: Default,
    MutatorActions: Default,
    Mutator,
    Selector: Default,
    ReproducerActions: Default,
    Reproducer,
    Dedupe: Default,
    Inflator: Default,
> Default for DefaultActions<
    Subject,
    Pruner,
    MutatorActions,
    Mutator,
    Selector,
    ReproducerActions,
    Reproducer,
    Dedupe,
    Inflator,
> {
    /// Every stage with its default settings: no mutation and no reproduction.
    fn default() -> (r: Self)
        ensures
            r.mutation.spec_options().overall_mutation_chance == 0,
            r.reproduction.spec_options().overall_reproduction_chance == 0,
    {
        Self {
            prune: PruneAction::new(Pruner::default()),
            mutation: GenericMutator::default(),
            reproduction: GenericReproducer::default(),
            dedupe: DedupeAction::new(Dedupe::default()),
            inflate: Inflator::default(),
        }
    }
}

} // verus!
