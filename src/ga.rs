//! The engine: population model, pipeline stages, generation iterator and runner.
use std::ops::Range;

use vstd::prelude::*;

use crate::ga::fitness::{is_measured, Fit, Fitness, FitnessWrapped};
use crate::ga::population::Population;
use crate::util::{coin_flip, draw_weighted_index, Odds, ODDS_ONE};

pub mod action;
pub mod dedupe;
pub mod fitness;
pub mod ga_iterator;
pub mod ga_runner;
pub mod generation_loop;
pub mod inflate;
pub mod mutation;
pub mod population;
pub mod probability;
pub mod prune;
pub mod reproduction;
pub mod select;
pub mod subject;

verus! {

/// The settings for seeding a population.
#[derive(Debug, Clone)]
pub struct CreatePopulationOptions<SubjectFn> {
    pub population_size: usize,
    pub create_subject_fn: SubjectFn,
}

/// Seeds a population of `population_size` subjects, each measured once.
pub fn create_population_pool<Subject: Fit<Fitness>, CreateSubjectFn, Data: Default>(
    options: CreatePopulationOptions<CreateSubjectFn>,
) -> (r: Population<Subject>) where CreateSubjectFn: Fn(&GaContext<Data>) -> Subject
    requires
        forall|c: &GaContext<Data>| #[trigger] options.create_subject_fn.requires((c,)),
    ensures
        r.pool_size == options.population_size,
        r.subjects.len() == options.population_size,
        forall|i: int|
            0 <= i < r.subjects.len() ==> is_measured(#[trigger] r.subjects[i]) && exists|c: &GaContext<Data>|
                options.create_subject_fn.ensures((c,), r.subjects[i].spec_subject()),
{
    let mut subjects: Vec<FitnessWrapped<Subject>> = Vec::new();
    let context = GaContext::create_from_data(Data::default());
    let mut i: usize = 0;
    while i < options.population_size
        invariant
            i <= options.population_size,
            subjects.len() == i,
            forall|c: &GaContext<Data>| #[trigger] options.create_subject_fn.requires((c,)),
            forall|k: int|
                0 <= k < subjects.len() ==> is_measured(#[trigger] subjects[k]) && exists|c: &GaContext<Data>|
                    options.create_subject_fn.ensures((c,), subjects[k].spec_subject()),
        decreases options.population_size - i,
    {
        let subject = (options.create_subject_fn)(&context);
        assert(options.create_subject_fn.ensures((&context,), subject));
        subjects.push(FitnessWrapped::from_subject(subject));
        i = i + 1;
    }
    Population { subjects, pool_size: options.population_size }
}

/// A collection that draws a list of its own entries.
pub trait SampleSelf {
    type Output;

    /// The collection is a valid group to draw from.
    spec fn can_sample(&self) -> bool;

    /// `out` is a possible result of drawing from the collection.
    spec fn samples(&self, out: Self::Output) -> bool;

    fn sample_self(&self) -> (r: Self::Output)
        requires
            self.can_sample(),
        ensures
            self.samples(r),
    ;
}

/// An action with the weight (odds) of it being drawn.
#[derive(Debug, Clone, Default)]
pub struct WeightedAction<Action> {
    pub action: Action,
    pub weight: Odds,
}

impl<Action> From<(Action, Odds)> for WeightedAction<Action> {
    fn from(pair: (Action, Odds)) -> (r: Self) {
        let (action, weight) = pair;
        Self { action, weight }
    }
}

impl<Action> vstd::std_specs::convert::FromSpecImpl<(Action, Odds)> for WeightedAction<Action> {
    open spec fn obeys_from_spec() -> bool {
        true
    }

    open spec fn from_spec(pair: (Action, Odds)) -> Self {
        WeightedAction { action: pair.0, weight: pair.1 }
    }
}

/// Draws exactly one action, with chances in proportion to the weights.
#[derive(Debug, Clone, Default)]
pub struct WeightedActionsSampleOne<Action>(pub Vec<WeightedAction<Action>>);

/// Draws each action independently with its own weight as the probability.
#[derive(Debug, Clone, Default)]
pub struct WeightedActionsSampleAll<Action>(pub Vec<WeightedAction<Action>>);

/// Every weight is a probability.
pub open spec fn weights_valid<Action>(actions: Seq<WeightedAction<Action>>) -> bool {
    forall|i: int| 0 <= i < actions.len() ==> #[trigger] actions[i].weight <= ODDS_ONE
}

impl<Action: Clone> WeightedActionsSampleOne<Action> {
    /// A valid group: non-empty, not all weights zero, every weight a probability.
    pub open spec fn is_valid(&self) -> bool {
        &&& 0 < self.0.len() <= u32::MAX
        &&& weights_valid(self.0@)
        &&& exists|i: int| 0 <= i < self.0.len() && #[trigger] self.0[i].weight > 0
    }

    /// `out` is one copy of an action of positive weight.
    pub open spec fn drawn_one(&self, out: Vec<Action>) -> bool {
        &&& out.len() == 1
        &&& exists|i: int| 0 <= i < self.0.len() && self.0[i].weight > 0 && cloned(self.0[i].action, out[0])
    }

    /// Draws one action; an action of weight zero is never drawn.
    pub fn sample(&self) -> (r: Vec<Action>)
        requires
            self.is_valid(),
        ensures
            self.drawn_one(r),
    {
        let mut weights: Vec<u64> = Vec::new();
        let mut i: usize = 0;
        while i < self.0.len()
            invariant
                i <= self.0.len(),
                weights.len() == i,
                forall|j: int| 0 <= j < i ==> #[trigger] weights[j] == self.0[j].weight as u64,
            decreases self.0.len() - i,
        {
            weights.push(self.0[i].weight as u64);
            i = i + 1;
        }
        proof {
            let j = choose|j: int| 0 <= j < self.0.len() && #[trigger] self.0[j].weight > 0;
            assert(weights[j] > 0);
        }
        let k = draw_weighted_index(&weights);
        let a = self.0[k].action.clone();
        vec![a]
    }
}

impl<Action: Clone> SampleSelf for WeightedActionsSampleOne<Action> {
    type Output = Vec<Action>;

    open spec fn can_sample(&self) -> bool {
        self.is_valid()
    }

    open spec fn samples(&self, out: Vec<Action>) -> bool {
        self.drawn_one(out)
    }

    fn sample_self(&self) -> (r: Vec<Action>) {
        self.sample()
    }
}

/// `gates` says, for each of `actions`, whether it was drawn: an action of
/// weight zero never is, an action of weight one always is.
pub open spec fn gates_fit<Action>(actions: Seq<WeightedAction<Action>>, gates: Seq<bool>) -> bool {
    &&& gates.len() == actions.len()
    &&& forall|i: int| 0 <= i < gates.len() ==> (#[trigger] actions[i].weight == 0 ==> !gates[i])
    &&& forall|i: int| 0 <= i < gates.len() ==> (#[trigger] actions[i].weight == ODDS_ONE ==> gates[i])
}

/// The positions of the open gates, in order.
pub open spec fn open_gates(gates: Seq<bool>) -> Seq<int>
    decreases gates.len(),
{
    if gates.len() == 0 {
        Seq::empty()
    } else if gates.last() {
        open_gates(gates.drop_last()).push(gates.len() - 1)
    } else {
        open_gates(gates.drop_last())
    }
}

impl<Action: Clone> WeightedActionsSampleAll<Action> {
    /// A valid group: every weight is a probability.
    pub open spec fn is_valid(&self) -> bool {
        weights_valid(self.0@)
    }

    /// Copies of the actions whose gate is open, in order.
    pub fn sample_gated(&self, gates: &Vec<bool>) -> (r: Vec<Action>)
        requires
            gates.len() == self.0.len(),
        ensures
            r.len() == open_gates(gates@).len(),
            forall|k: int| 0 <= k < r.len() ==> cloned(self.0[#[trigger] open_gates(gates@)[k]].action, r[k]),
    {
        let mut r: Vec<Action> = Vec::new();
        let mut i: usize = 0;
        while i < self.0.len()
            invariant
                i <= self.0.len(),
                gates.len() == self.0.len(),
                r.len() == open_gates(gates@.subrange(0, i as int)).len(),
                forall|k: int| 0 <= k < r.len() ==> cloned(self.0[#[trigger] open_gates(gates@.subrange(0, i as int))[k]].action, r[k]),
            decreases self.0.len() - i,
        {
            let ghost prev = gates@.subrange(0, i as int);
            let ghost next = gates@.subrange(0, i as int + 1);
            assert(next.drop_last() =~= prev);
            if gates[i] {
                let a = self.0[i].action.clone();
                r.push(a);
                assert(open_gates(next) == open_gates(prev).push(i as int));
            } else {
                assert(open_gates(next) == open_gates(prev));
            }
            i = i + 1;
        }
        assert(gates@.subrange(0, self.0.len() as int) =~= gates@);
        r
    }

    /// `out` is copies of the actions whose coin came up, in order: never one
    /// of weight zero, always those of weight one.
    pub open spec fn drawn_gated(&self, out: Vec<Action>) -> bool {
        exists|gates: Seq<bool>|
            gates_fit(self.0@, gates) && out.len() == open_gates(gates).len() && forall|k: int|
                0 <= k < out.len() ==> cloned(self.0[#[trigger] open_gates(gates)[k]].action, out[k])
    }

    /// Flips one coin per action with its weight as the odds, and copies the
    /// actions that came up.
    pub fn sample(&self) -> (r: Vec<Action>)
        requires
            self.is_valid(),
        ensures
            self.drawn_gated(r),
    {
        let mut gates: Vec<bool> = Vec::new();
        let mut i: usize = 0;
        while i < self.0.len()
            invariant
                i <= self.0.len(),
                gates.len() == i,
                weights_valid(self.0@),
                forall|j: int| 0 <= j < i ==> (#[trigger] self.0[j].weight == 0 ==> !gates[j]),
                forall|j: int| 0 <= j < i ==> (#[trigger] self.0[j].weight == ODDS_ONE ==> gates[j]),
            decreases self.0.len() - i,
        {
            let g = coin_flip(self.0[i].weight);
            gates.push(g);
            i = i + 1;
        }
        let r = self.sample_gated(&gates);
        assert(gates_fit(self.0@, gates@));
        r
    }
}

impl<Action: Clone> SampleSelf for WeightedActionsSampleAll<Action> {
    type Output = Vec<Action>;

    open spec fn can_sample(&self) -> bool {
        self.is_valid()
    }

    open spec fn samples(&self, out: Vec<Action>) -> bool {
        self.drawn_gated(out)
    }

    fn sample_self(&self) -> (r: Vec<Action>) {
        self.sample()
    }
}

/// The run's settings.
#[derive(Debug, Default)]
pub struct GeneticAlgorithmOptions<Actions, Data> {
    /// initial fitness to target fitness; only the order of the two matters
    /// besides the target itself
    pub fitness_initial_to_target_range: Range<Fitness>,
    /// min and max fitness range to terminate the loop
    pub fitness_range: Range<Fitness>,
    pub actions: Actions,
    pub initial_data: Data,
}

impl<Actions, Data> GeneticAlgorithmOptions<Actions, Data> {
    pub fn initial_fitness(&self) -> (r: Fitness)
        ensures
            r == self.fitness_initial_to_target_range.start,
    {
        self.fitness_initial_to_target_range.start
    }

    pub fn target_fitness(&self) -> (r: Fitness)
        ensures
            r == self.fitness_initial_to_target_range.end,
    {
        self.fitness_initial_to_target_range.end
    }
}

/// The run's context: the generation counter and the caller's data.
#[derive(Debug, Default)]
pub struct GaContext<Data> {
    generation: usize,
    pub data: Data,
}

impl<Data> GaContext<Data> {
    pub closed spec fn spec_generation(&self) -> usize {
        self.generation
    }

    pub closed spec fn spec_data(&self) -> Data {
        self.data
    }

    /// A context at generation zero holding `data`.
    pub fn create_from_data(data: Data) -> (r: Self)
        ensures
            r.spec_generation() == 0,
            r.spec_data() == data,
    {
        Self { generation: 0, data }
    }

    pub fn generation(&self) -> (r: usize)
        ensures
            r == self.spec_generation(),
    {
        self.generation
    }

    pub(crate) fn set_generation(&mut self, generation: usize)
        ensures
            final(self).spec_generation() == generation,
            final(self).spec_data() == old(self).spec_data(),
    {
        self.generation = generation;
    }

    pub(crate) fn increment_generation(&mut self)
        requires
            old(self).spec_generation() < usize::MAX,
        ensures
            final(self).spec_generation() == old(self).spec_generation() + 1,
            final(self).spec_data() == old(self).spec_data(),
    {
        self.generation = self.generation + 1;
    }
}

/// A pipeline stage: it reads the context and changes the population.
pub trait GaAction<Data> {
    type Subject;

    /// The stage's settings allow it to run.
    spec fn can_perform(&self) -> bool;

    /// What the stage may leave, given the population it started from.
    spec fn performs(
        &self,
        context: GaContext<Data>,
        before: Population<Self::Subject>,
        after: Population<Self::Subject>,
    ) -> bool;

    fn perform_action(&self, context: &GaContext<Data>, population: &mut Population<Self::Subject>)
        requires
            self.can_perform(),
        ensures
            self.performs(*context, *old(population), *final(population)),
    ;
}

} // verus!
