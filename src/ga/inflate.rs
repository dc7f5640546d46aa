//! The inflation stage: refills the population up to its target size.
use vstd::prelude::*;

use crate::ga::fitness::{is_measured, Fit, Fitness, FitnessWrapped};
use crate::ga::population::Population;
use crate::ga::{GaAction, GaContext};

verus! {

/// A strategy that grows a target using some parameters.
pub trait InflateTarget<Params> {
    type Target;

    /// The strategy can run.
    spec fn can_inflate(&self) -> bool;

    /// What a call of `inflate` leaves, given what it started from.
    spec fn inflates(&self, before: Self::Target, after: Self::Target) -> bool;

    fn inflate(&self, params: &Params, target: &mut Self::Target)
        requires
            self.can_inflate(),
        ensures
            self.inflates(*old(target), *final(target)),
    ;
}

/// What refilling leaves: the old members in front, followed by new members
/// up to the target size, or nothing new when the population is already full.
pub open spec fn refilled<Subject>(before: Population<Subject>, after: Population<Subject>) -> bool {
    &&& after.pool_size == before.pool_size
    &&& after.subjects.len() == if before.subjects.len() < before.pool_size {
        before.pool_size as int
    } else {
        before.subjects.len() as int
    }
    &&& after.subjects@.subrange(0, before.subjects.len() as int) == before.subjects@
}

/// How many of the members have exactly the fitness `target`.
pub open spec fn count_at_fitness<Subject>(s: Seq<FitnessWrapped<Subject>>, target: Option<Fitness>) -> nat
    decreases s.len(),
{
    if s.len() == 0 {
        0
    } else {
        count_at_fitness(s.drop_last(), target) + if target == Some(s.last().spec_fitness()) {
            1nat
        } else {
            0nat
        }
    }
}

/// What refilling with `create` leaves: as `refilled` says, and every new
/// member is a result of the callback, wrapped with the fitness it measures.
pub open spec fn refilled_by<Subject: Fit<Fitness>, CreateSubjectFunc: Fn(&GaContext<Data>) -> Subject, Data>(
    create: CreateSubjectFunc,
    before: Population<Subject>,
    after: Population<Subject>,
) -> bool {
    &&& refilled(before, after)
    &&& forall|k: int|
        before.subjects.len() <= k < after.subjects.len() ==> is_measured(#[trigger] after.subjects[k]) && exists|
            c: &GaContext<Data>,
        | create.ensures((c,), after.subjects[k].spec_subject())
}

/// Creates subjects with the callback until the population reaches its target size.
#[derive(Debug, Copy, Clone, Default)]
pub struct InflateUntilFull<CreateSubjectFunc>(pub CreateSubjectFunc);

impl<CreateSubjectFunc> InflateUntilFull<CreateSubjectFunc> {
    /// Appends measured new subjects until there are `pool_size` members.
    pub fn fill<Subject: Fit<Fitness>, Data>(&self, context: &GaContext<Data>, population: &mut Population<Subject>)
        where CreateSubjectFunc: Fn(&GaContext<Data>) -> Subject
        requires
            forall|c: &GaContext<Data>| #[trigger] self.0.requires((c,)),
        ensures
            refilled_by(self.0, *old(population), *final(population)),
            forall|k: int|
                old(population).subjects.len() <= k < final(population).subjects.len() ==> is_measured(
                    #[trigger] final(population).subjects[k],
                ) && exists|c: &GaContext<Data>| self.0.ensures((c,), final(population).subjects[k].spec_subject()),
    {
        self.fill_counting(context, population, None);
    }

    /// Appends measured new subjects until there are `pool_size` members, and
    /// counts the new members whose fitness is exactly `target_fitness`: a
    /// new subject already at the target would end the run at once, which
    /// callers may want to warn about.
    pub fn fill_counting<Subject: Fit<Fitness>, Data>(
        &self,
        context: &GaContext<Data>,
        population: &mut Population<Subject>,
        target_fitness: Option<Fitness>,
    ) -> (r: usize)
        where CreateSubjectFunc: Fn(&GaContext<Data>) -> Subject
        requires
            forall|c: &GaContext<Data>| #[trigger] self.0.requires((c,)),
        ensures
            refilled_by(self.0, *old(population), *final(population)),
            r == count_at_fitness(
                final(population).subjects@.subrange(
                    old(population).subjects.len() as int,
                    final(population).subjects.len() as int,
                ),
                target_fitness,
            ),
            forall|k: int|
                old(population).subjects.len() <= k < final(population).subjects.len() ==> is_measured(
                    #[trigger] final(population).subjects[k],
                ) && exists|c: &GaContext<Data>| self.0.ensures((c,), final(population).subjects[k].spec_subject()),
    {
        let ghost orig = population.subjects@;
        let mut count: usize = 0;
        assert(population.subjects@.subrange(orig.len() as int, orig.len() as int) =~= Seq::<FitnessWrapped<Subject>>::empty());
        while population.subjects.len() < population.pool_size
            invariant
                count == count_at_fitness(
                    population.subjects@.subrange(orig.len() as int, population.subjects.len() as int),
                    target_fitness,
                ),
                count <= population.subjects.len() - orig.len(),
                forall|k: int|
                    orig.len() <= k < population.subjects.len() ==> is_measured(#[trigger] population.subjects[k])
                        && exists|c: &GaContext<Data>| self.0.ensures((c,), population.subjects[k].spec_subject()),
                forall|c: &GaContext<Data>| #[trigger] self.0.requires((c,)),
                population.pool_size == old(population).pool_size,
                population.subjects.len() >= orig.len(),
                orig.len() < population.pool_size ==> population.subjects.len() <= population.pool_size,
                orig.len() >= population.pool_size ==> population.subjects@ == orig,
                population.subjects@.subrange(0, orig.len() as int) == orig,
            decreases population.pool_size - population.subjects.len(),
        {
            let subject = (self.0)(context);
            assert(self.0.ensures((context,), subject));
            let ghost before = population.subjects@;
            let wrapped = FitnessWrapped::from_subject(subject);
            let at_target = match target_fitness {
                Some(t) => wrapped.fitness() == t,
                None => false,
            };
            population.add(wrapped);
            assert(population.subjects@.subrange(0, orig.len() as int) =~= before.subrange(0, orig.len() as int));
            assert(population.subjects@.subrange(orig.len() as int, population.subjects.len() as int).drop_last()
                =~= before.subrange(orig.len() as int, before.len() as int));
            if at_target {
                count = count + 1;
            }
            assert forall|k: int|
                orig.len() <= k < population.subjects.len() implies is_measured(#[trigger] population.subjects[k])
                    && exists|c: &GaContext<Data>| self.0.ensures((c,), population.subjects[k].spec_subject()) by {
                if k < before.len() {
                    assert(population.subjects[k] == before[k]);
                }
            }
        }
        assert(orig.len() >= population.pool_size ==> population.subjects@.subrange(0, orig.len() as int) =~= orig);
        count
    }
}

impl<Subject: Fit<Fitness>, CreateSubjectFunc, Data> InflateTarget<GaContext<Data>> for InflateUntilFull<
    CreateSubjectFunc,
> where CreateSubjectFunc: Fn(&GaContext<Data>) -> Subject {
    type Target = Population<Subject>;

    open spec fn can_inflate(&self) -> bool {
        forall|c: &GaContext<Data>| #[trigger] self.0.requires((c,))
    }

    open spec fn inflates(&self, before: Population<Subject>, after: Population<Subject>) -> bool {
        refilled_by(self.0, before, after)
    }

    fn inflate(&self, params: &GaContext<Data>, target: &mut Population<Subject>) {
        self.fill(params, target);
    }
}

impl<Subject: Fit<Fitness>, CreateSubjectFunc, Data> GaAction<Data> for InflateUntilFull<CreateSubjectFunc> where
    CreateSubjectFunc: Fn(&GaContext<Data>) -> Subject,
 {
    type Subject = Subject;

    open spec fn can_perform(&self) -> bool {
        forall|c: &GaContext<Data>| #[trigger] self.0.requires((c,))
    }

    open spec fn performs(&self, context: GaContext<Data>, before: Population<Subject>, after: Population<Subject>) -> bool {
        refilled_by(self.0, before, after)
    }

    fn perform_action(&self, context: &GaContext<Data>, population: &mut Population<Subject>) {
        self.fill(context, population);
    }
}

} // verus!
