//! The mutation stage: gated members are mapped by sampled operators.
use std::marker::PhantomData;

use vstd::prelude::*;

use crate::ga::fitness::{Fitness, FitnessWrapped};
use crate::ga::population::Population;
use crate::ga::subject::GaSubject;
use crate::ga::{GaAction, GaContext, SampleSelf};
use crate::util::{coin_flip, Odds, ODDS_ONE};

verus! {

/// A mutation operator: maps a subject to a new subject.
pub trait ApplyMutation<Data> {
    type Subject: GaSubject;

    fn apply(&self, context: &GaContext<Data>, subject: &Self::Subject) -> Self::Subject;

    fn fitness(subject: &Self::Subject) -> Fitness;
}

/// A member wrapped with the fitness that the mutation operators give it.
pub open spec fn mutant_wrapped<Subject, Mutator: ApplyMutation<Data, Subject = Subject>, Data>(
    e: FitnessWrapped<Subject>,
) -> bool {
    call_ensures(Mutator::fitness, (&e.spec_subject(),), e.spec_fitness())
}

/// `trace` starts the chain, and operator `ops[k]` turned `trace[k]` into
/// `trace[k + 1]`.
pub open spec fn mutation_trace<Subject, Mutator: ApplyMutation<Data, Subject = Subject>, Data>(
    context: GaContext<Data>,
    ops: Seq<Mutator>,
    trace: Seq<Subject>,
) -> bool {
    &&& trace.len() == ops.len() + 1
    &&& forall|k: int| #![trigger ops[k]] 0 <= k < ops.len() ==> call_ensures(Mutator::apply, (&ops[k], &context, &trace[k]), trace[k + 1])
}

/// `end` is what applying `ops` in turn to `start` gave, each operator
/// receiving the previous result.
pub open spec fn mutation_chain<Subject, Mutator: ApplyMutation<Data, Subject = Subject>, Data>(
    context: GaContext<Data>,
    ops: Seq<Mutator>,
    start: Subject,
    end: Subject,
) -> bool {
    exists|trace: Seq<Subject>|
        #[trigger] mutation_trace::<Subject, Mutator, Data>(context, ops, trace) && trace[0] == start && trace.last()
            == end
}

/// `e`'s subject is what one operator of `plan[i]` returned for member `i` of `members`.
pub open spec fn mutant_of<Subject, Mutator: ApplyMutation<Data, Subject = Subject>, Data>(
    context: GaContext<Data>,
    members: Seq<FitnessWrapped<Subject>>,
    plan: Seq<Vec<Mutator>>,
    e: FitnessWrapped<Subject>,
) -> bool {
    exists|i: int, j: int| #[trigger] mutant_from::<Subject, Mutator, Data>(context, members, plan, i, j, e)
}

/// `e`'s subject is what operator `plan[i][j]` returned for member `i`.
pub open spec fn mutant_from<Subject, Mutator: ApplyMutation<Data, Subject = Subject>, Data>(
    context: GaContext<Data>,
    members: Seq<FitnessWrapped<Subject>>,
    plan: Seq<Vec<Mutator>>,
    i: int,
    j: int,
    e: FitnessWrapped<Subject>,
) -> bool {
    &&& 0 <= i < plan.len()
    &&& 0 <= j < plan[i].len()
    &&& call_ensures(Mutator::apply, (&plan[i][j], &context, &members[i].spec_subject()), e.spec_subject())
}

/// What applying `plan` leaves. In place, a member with no operators is
/// unchanged and any other member is a wrapped mutant; with
/// `clone_on_mutation`, the members stay in front and one wrapped mutant per
/// operator application follows them.
pub open spec fn mutation_applied<Subject, Mutator: ApplyMutation<Data, Subject = Subject>, Data>(
    context: GaContext<Data>,
    before: Population<Subject>,
    after: Population<Subject>,
    plan: Seq<Vec<Mutator>>,
    clone_on_mutation: bool,
) -> bool {
    &&& after.pool_size == before.pool_size
    &&& !clone_on_mutation ==> {
        &&& after.subjects.len() == before.subjects.len()
        &&& forall|i: int|
            0 <= i < plan.len() && #[trigger] plan[i].len() == 0 ==> after.subjects[i] == before.subjects[i]
        &&& forall|i: int|
            0 <= i < plan.len() && #[trigger] plan[i].len() > 0 ==> mutant_wrapped::<Subject, Mutator, Data>(
                after.subjects[i],
            ) && mutation_chain::<Subject, Mutator, Data>(
                context,
                plan[i]@,
                before.subjects[i].spec_subject(),
                after.subjects[i].spec_subject(),
            )
    }
    &&& clone_on_mutation ==> {
        &&& after.subjects.len() == before.subjects.len() + plan_total(plan)
        &&& after.subjects@.subrange(0, before.subjects.len() as int) == before.subjects@
        &&& forall|k: int|
            before.subjects.len() <= k < after.subjects.len() ==> mutant_wrapped::<Subject, Mutator, Data>(
                #[trigger] after.subjects[k],
            ) && mutant_of::<Subject, Mutator, Data>(context, before.subjects@, plan, after.subjects[k])
    }
}

/// The mutation stage's settings.
#[derive(Debug, Clone, Default)]
pub struct ApplyMutationOptions<Actions> {
    pub overall_mutation_chance: Odds,
    pub mutation_actions: Actions,
    /// keep the member as it was and append the mutant, instead of replacing it
    pub clone_on_mutation: bool,
}

/// The total number of operators in a plan.
pub open spec fn plan_total<T>(plan: Seq<Vec<T>>) -> nat
    decreases plan.len(),
{
    if plan.len() == 0 {
        0
    } else {
        plan_total(plan.drop_last()) + plan.last()@.len()
    }
}

/// What a mutation pass may leave: the target size is kept; replacing keeps
/// the member count, appending keeps the old members in front.
pub open spec fn mutation_keeps<Subject>(before: Population<Subject>, after: Population<Subject>, clone_on_mutation: bool) -> bool {
    &&& after.pool_size == before.pool_size
    &&& !clone_on_mutation ==> after.subjects.len() == before.subjects.len()
    &&& clone_on_mutation ==> after.subjects.len() >= before.subjects.len()
        && after.subjects@.subrange(0, before.subjects.len() as int) == before.subjects@
}

/// Applies the operators that `plan[i]` lists to member `i`. In place, each
/// result replaces the member and feeds the next operator; with
/// `clone_on_mutation`, each result of the unchanged member is appended.
pub fn apply_mutation_plan<Subject, Mutator: ApplyMutation<Data, Subject = Subject>, Data>(
    context: &GaContext<Data>,
    population: &mut Population<Subject>,
    plan: &Vec<Vec<Mutator>>,
    clone_on_mutation: bool,
)
    requires
        plan.len() == old(population).subjects.len(),
    ensures
        mutation_applied::<Subject, Mutator, Data>(
            *context,
            *old(population),
            *final(population),
            plan@,
            clone_on_mutation,
        ),
{
    let ghost orig = population.subjects@;
    let mut appended: Vec<FitnessWrapped<Subject>> = Vec::new();
    let n = population.subjects.len();
    let mut i: usize = 0;
    while i < n
        invariant
            n == plan.len(),
            population.subjects.len() == n,
            i <= n,
            population.pool_size == old(population).pool_size,
            old(population).subjects@ == orig,
            clone_on_mutation ==> population.subjects@ == orig,
            clone_on_mutation ==> appended.len() == plan_total(plan@.subrange(0, i as int)),
            !clone_on_mutation ==> appended.len() == 0,
            forall|k: int| i <= k < n ==> #[trigger] population.subjects[k] == orig[k],
            forall|k: int| 0 <= k < i && #[trigger] plan[k].len() == 0 ==> population.subjects[k] == orig[k],
            forall|k: int|
                0 <= k < i && #[trigger] plan[k].len() > 0 && !clone_on_mutation ==> mutant_wrapped::<Subject, Mutator, Data>(
                    population.subjects[k],
                ) && mutation_chain::<Subject, Mutator, Data>(
                    *context,
                    plan[k]@,
                    orig[k].spec_subject(),
                    population.subjects[k].spec_subject(),
                ),
            forall|k: int|
                0 <= k < appended.len() ==> mutant_wrapped::<Subject, Mutator, Data>(#[trigger] appended[k])
                    && mutant_of::<Subject, Mutator, Data>(*context, orig, plan@, appended[k]),
        decreases n - i,
    {
        let ops = &plan[i];
        let mut j: usize = 0;
        let ghost before_appended = appended.len();
        let ghost at_start = population.subjects@;
        let ghost mut trace: Seq<Subject> = seq![orig[i as int].spec_subject()];
        while j < ops.len()
            invariant
                *ops == plan[i as int],
                n == plan.len(),
                population.subjects.len() == n,
                i < n,
                j <= ops.len(),
                population.pool_size == old(population).pool_size,
                clone_on_mutation ==> population.subjects@ == orig,
                clone_on_mutation ==> appended.len() == before_appended + j,
                !clone_on_mutation ==> appended.len() == 0,
                j == 0 ==> population.subjects@ == at_start,
                j > 0 && !clone_on_mutation ==> mutant_wrapped::<Subject, Mutator, Data>(population.subjects[i as int]),
                !clone_on_mutation ==> mutation_trace::<Subject, Mutator, Data>(*context, ops@.subrange(0, j as int), trace),
                trace.len() > 0,
                trace[0] == orig[i as int].spec_subject(),
                !clone_on_mutation ==> trace.last() == population.subjects[i as int].spec_subject(),
                at_start[i as int] == orig[i as int],
                forall|k: int| 0 <= k < n && k != i ==> population.subjects[k] == at_start[k],
                forall|k: int|
                    0 <= k < appended.len() ==> mutant_wrapped::<Subject, Mutator, Data>(#[trigger] appended[k])
                        && mutant_of::<Subject, Mutator, Data>(*context, orig, plan@, appended[k]),
            decreases ops.len() - j,
        {
            let ghost parent = population.subjects@[i as int].spec_subject();
            let mutated = ops[j].apply(context, population.subjects[i].subject());
            let ghost result = mutated;
            proof {
                assert(call_ensures(Mutator::apply, (&ops[j as int], context, &parent), mutated));
                let prefix = ops@.subrange(0, j as int + 1);
                assert(prefix.drop_last() =~= ops@.subrange(0, j as int));
                assert(prefix.last() == ops[j as int]);
                if !clone_on_mutation {
                    assert(parent == trace.last());
                    let next = trace.push(mutated);
                    assert forall|k: int| #![trigger prefix[k]] 0 <= k < prefix.len() implies call_ensures(
                        Mutator::apply,
                        (&prefix[k], &*context, &next[k]),
                        next[k + 1],
                    ) by {
                        if k < j {
                            assert(prefix[k] == ops@.subrange(0, j as int)[k]);
                            assert(next[k] == trace[k] && next[k + 1] == trace[k + 1]);
                        }
                    }
                    trace = next;
                } else {
                    assert(parent == orig[i as int].spec_subject());
                    assert(plan@[i as int][j as int] == ops[j as int]);
                }
            }
            let ghost before_push = appended@;
            let fitness = Mutator::fitness(&mutated);
            let wrapped = FitnessWrapped::new(mutated, fitness);
            if clone_on_mutation {
                appended.push(wrapped);
                proof {
                    let last = appended@.last();
                    assert(last.spec_subject() == result);
                    assert(call_ensures(
                        Mutator::apply,
                        (&plan@[i as int][j as int], &*context, &orig[i as int].spec_subject()),
                        last.spec_subject(),
                    ));
                    assert(mutant_from::<Subject, Mutator, Data>(*context, orig, plan@, i as int, j as int, last));
                    assert(mutant_of::<Subject, Mutator, Data>(*context, orig, plan@, last));
                    assert forall|k: int|
                        0 <= k < appended.len() implies mutant_wrapped::<Subject, Mutator, Data>(#[trigger] appended[k])
                            && mutant_of::<Subject, Mutator, Data>(*context, orig, plan@, appended[k]) by {
                        if k < before_push.len() {
                            assert(appended[k] == before_push[k]);
                        }
                    }
                }
            } else {
                population.subjects.set(i, wrapped);
            }
            j = j + 1;
        }
        proof {
            let next = plan@.subrange(0, i as int + 1);
            assert(next.drop_last() =~= plan@.subrange(0, i as int));
        }
        i = i + 1;
        proof {
            assert forall|k: int| i <= k < n implies #[trigger] population.subjects[k] == orig[k] by {
                assert(population.subjects[k] == at_start[k]);
            }
            assert forall|k: int| 0 <= k < i && #[trigger] plan[k].len() == 0 implies population.subjects[k] == orig[k] by {
                if k != i - 1 {
                    assert(population.subjects[k] == at_start[k]);
                } else {
                    assert(j == 0);
                    assert(population.subjects@ == at_start);
                    assert(at_start[k] == orig[k]);
                }
            }
            assert forall|k: int|
                0 <= k < i && #[trigger] plan[k].len() > 0 && !clone_on_mutation implies mutant_wrapped::<Subject, Mutator, Data>(
                    population.subjects[k],
                ) && mutation_chain::<Subject, Mutator, Data>(
                    *context,
                    plan[k]@,
                    orig[k].spec_subject(),
                    population.subjects[k].spec_subject(),
                ) by {
                if k != i - 1 {
                    assert(population.subjects[k] == at_start[k]);
                } else {
                    assert(ops@.subrange(0, j as int) =~= plan[k]@);
                    assert(mutation_trace::<Subject, Mutator, Data>(*context, plan[k]@, trace));
                }
            }
        }
    }
    proof {
        assert(plan@.subrange(0, n as int) =~= plan@);
    }
    let ghost tail = appended@;
    population.subjects.append(&mut appended);
    proof {
        if clone_on_mutation {
            assert(population.subjects@.subrange(0, orig.len() as int) =~= orig);
            assert forall|k: int| orig.len() <= k < population.subjects.len() implies mutant_wrapped::<Subject, Mutator, Data>(
                #[trigger] population.subjects[k]) by {
                assert(population.subjects[k] == tail[k - orig.len()]);
            }
        }
    }
}

/// What a mutation pass with `options` may leave: the target size kept; a
/// plan with one entry per member, each entry empty (coin not up) or a
/// sample of the operators, all of them samples when the chance is one,
/// applied as `mutation_applied` says; nothing changed when the chance is zero.
pub open spec fn mutations_done<
    Subject,
    Mutator: ApplyMutation<Data, Subject = Subject>,
    Actions: SampleSelf<Output = Vec<Mutator>>,
    Data,
>(
    context: GaContext<Data>,
    options: ApplyMutationOptions<Actions>,
    before: Population<Subject>,
    after: Population<Subject>,
) -> bool {
    &&& mutation_keeps(before, after, options.clone_on_mutation)
    &&& options.overall_mutation_chance == 0 ==> after.subjects@ == before.subjects@
    &&& exists|plan: Seq<Vec<Mutator>>|
        {
            &&& plan.len() == before.subjects.len()
            &&& forall|i: int|
                0 <= i < plan.len() ==> #[trigger] plan[i].len() == 0 || options.mutation_actions.samples(plan[i])
            &&& options.overall_mutation_chance == ODDS_ONE ==> forall|i: int|
                0 <= i < plan.len() ==> options.mutation_actions.samples(#[trigger] plan[i])
            &&& #[trigger] mutation_applied::<Subject, Mutator, Data>(context, before, after, plan, options.clone_on_mutation)
        }
}

/// Flips a coin with the overall chance for each member; for each member
/// whose coin came up, samples the operators to apply; then applies them.
pub fn apply_mutations<Subject, Mutator: ApplyMutation<Data, Subject = Subject>, Actions: SampleSelf<Output = Vec<Mutator>>, Data>(
    context: &GaContext<Data>,
    population: &mut Population<Subject>,
    options: &ApplyMutationOptions<Actions>,
)
    requires
        options.overall_mutation_chance <= ODDS_ONE,
        options.mutation_actions.can_sample(),
    ensures
        mutations_done::<Subject, Mutator, Actions, Data>(*context, *options, *old(population), *final(population)),
{
    let n = population.subjects.len();
    let mut plan: Vec<Vec<Mutator>> = Vec::new();
    let mut i: usize = 0;
    while i < n
        invariant
            i <= n,
            plan.len() == i,
            options.overall_mutation_chance <= ODDS_ONE,
            options.mutation_actions.can_sample(),
            options.overall_mutation_chance == 0 ==> forall|k: int| 0 <= k < i ==> #[trigger] plan[k].len() == 0,
            forall|k: int| 0 <= k < i ==> #[trigger] plan[k].len() == 0 || options.mutation_actions.samples(plan[k]),
            options.overall_mutation_chance == ODDS_ONE ==> forall|k: int| 0 <= k < i ==> options.mutation_actions.samples(#[trigger] plan[k]),
        decreases n - i,
    {
        if coin_flip(options.overall_mutation_chance) {
            plan.push(options.mutation_actions.sample_self());
        } else {
            plan.push(Vec::new());
        }
        i = i + 1;
    }
    proof {
        if options.overall_mutation_chance == 0 {
            lemma_plan_total_empty(plan@);
        }
    }
    let ghost orig = population.subjects@;
    let ghost before_pop = *population;
    apply_mutation_plan(context, population, &plan, options.clone_on_mutation);
    proof {
        assert(mutation_applied::<Subject, Mutator, Data>(
            *context,
            before_pop,
            *population,
            plan@,
            options.clone_on_mutation,
        ));
        assert(plan@.len() == orig.len());
        if options.overall_mutation_chance == 0 {
            if options.clone_on_mutation {
                assert(population.subjects@ =~= population.subjects@.subrange(0, orig.len() as int));
            } else {
                assert forall|k: int| 0 <= k < orig.len() implies population.subjects@[k] == orig[k] by {
                    assert(plan[k].len() == 0);
                }
                assert(population.subjects@ =~= orig);
            }
        }
    }
}

pub proof fn lemma_plan_total_empty<T>(plan: Seq<Vec<T>>)
    requires
        forall|k: int| 0 <= k < plan.len() ==> #[trigger] plan[k].len() == 0,
    ensures
        plan_total(plan) == 0,
    decreases plan.len(),
{
    if plan.len() > 0 {
        assert(plan[plan.len() - 1].len() == 0);
        lemma_plan_total_empty(plan.drop_last());
    }
}

/// The mutation stage as a pipeline stage.
pub struct GenericMutator<Mutator, Subject, Actions> {
    _subject: PhantomData<Subject>,
    _mutator: PhantomData<Mutator>,
    options: ApplyMutationOptions<Actions>,
}

impl<Mutator, Subject, Actions> GenericMutator<Mutator, Subject, Actions> {
    pub closed spec fn spec_options(&self) -> ApplyMutationOptions<Actions> {
        self.options
    }

    pub fn new(options: ApplyMutationOptions<Actions>) -> (r: Self)
        ensures
            r.spec_options() == options,
    {
        Self { _subject: PhantomData, _mutator: PhantomData, options }
    }
}

impl<Mutator, Subject, Actions: Default> Default for GenericMutator<Mutator, Subject, Actions> {
    fn default() -> (r: Self)
        ensures
            r.spec_options().overall_mutation_chance == 0,
            !r.spec_options().clone_on_mutation,
    {
        Self::new(
            ApplyMutationOptions {
                overall_mutation_chance: 0,
                mutation_actions: Actions::default(),
                clone_on_mutation: false,
            },
        )
    }
}

impl<Mutator, Subject, Actions, Data> GaAction<Data> for GenericMutator<Mutator, Subject, Actions> where
    Mutator: ApplyMutation<Data, Subject = Subject>,
    Actions: SampleSelf<Output = Vec<Mutator>>,
 {
    type Subject = Subject;

    open spec fn can_perform(&self) -> bool {
        &&& self.spec_options().overall_mutation_chance <= ODDS_ONE
        &&& self.spec_options().mutation_actions.can_sample()
    }

    open spec fn performs(&self, context: GaContext<Data>, before: Population<Subject>, after: Population<Subject>) -> bool {
        mutations_done::<Subject, Mutator, Actions, Data>(context, self.spec_options(), before, after)
    }

    fn perform_action(&self, context: &GaContext<Data>, population: &mut Population<Subject>) {
        apply_mutations(context, population, &self.options);
    }
}

} // verus!
