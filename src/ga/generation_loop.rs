//! A self-contained generation loop with a fixed stage order: prune to the
//! target size, reproduce, mutate, and optionally dedupe down to the target size.
use std::ops::Range;

use vstd::prelude::*;

use crate::ga::dedupe::{dedupe_members_above, deduped_above};
use crate::ga::fitness::Fitness;
use crate::ga::ga_iterator::{in_range, reports_ordered, is_best_fitness, judge_front, lemma_sorted_front_is_best, verdict_of, GenerationVerdict};
use crate::ga::ga_runner::TerminationReason;
use crate::ga::mutation::{apply_mutations, mutations_done, ApplyMutation, ApplyMutationOptions};
use crate::ga::fitness::FitnessWrapped;
use crate::ga::population::{sorted_by_fitness, Population};
use crate::ga::prune::{prune_to_length, pruned_to};
use crate::ga::reproduction::{apply_reproductions, reproductions_done, ApplyReproduction, ApplyReproductionOptions};
use crate::ga::select::SelectOther;
use crate::ga::{GaContext, SampleSelf};
use crate::util::{Bias, ODDS_ONE};

verus! {

broadcast use vstd::seq_lib::group_to_multiset_ensures;

/// The loop's settings.
pub struct GenerationLoopOptions<MutatorActions, ReproducerActions, Selector, DebugPrint> {
    /// dedupe after each generation, never below the target size
    pub remove_duplicates: bool,
    /// initial fitness to target fitness
    pub fitness_initial_to_target_range: Range<Fitness>,
    /// min and max fitness range to terminate the loop
    pub fitness_range: Range<Fitness>,
    pub mutation_options: ApplyMutationOptions<MutatorActions>,
    pub reproduction_options: ApplyReproductionOptions<ReproducerActions, Selector>,
    pub debug_print: DebugPrint,
}

/// The loop's state.
#[derive(Debug, Clone)]
pub struct GenerationLoopState<Subject> {
    pub population: Population<Subject>,
}

/// One full generation through the given intermediate populations: the
/// members sorted best first, pruned to the target size sparing the best,
/// then reproduction, mutation and, when asked, duplicates removed down to
/// the target size.
pub open spec fn generation_via<Subject: PartialEq, Mutator, Reproducer, MutatorActions, ReproducerActions, Selector, DebugPrint>(
    options: GenerationLoopOptions<MutatorActions, ReproducerActions, Selector, DebugPrint>,
    context: GaContext<()>,
    before: Population<Subject>,
    sorted: Seq<FitnessWrapped<Subject>>,
    pruned: Population<Subject>,
    grown: Population<Subject>,
    mutated: Population<Subject>,
    after: Population<Subject>,
) -> bool where
    Mutator: ApplyMutation<(), Subject = Subject>,
    Reproducer: ApplyReproduction<(), Subject = Subject>,
    MutatorActions: SampleSelf<Output = Vec<Mutator>>,
    ReproducerActions: SampleSelf<Output = Vec<Reproducer>>,
    Selector: SelectOther<usize, Output = Vec<usize>>,
 {
    &&& sorted.to_multiset() == before.subjects@.to_multiset()
    &&& sorted_by_fitness(
        sorted,
        options.fitness_initial_to_target_range.start < options.fitness_initial_to_target_range.end,
    )
    &&& pruned.pool_size == before.pool_size
    &&& pruned_to(sorted, pruned.subjects@, before.pool_size as int, true)
    &&& reproductions_done::<Subject, Reproducer, Selector, ReproducerActions, ()>(
        context,
        options.reproduction_options,
        pruned,
        grown,
    )
    &&& mutations_done::<Subject, Mutator, MutatorActions, ()>(context, options.mutation_options, grown, mutated)
    &&& after.pool_size == mutated.pool_size
    &&& if options.remove_duplicates {
        deduped_above(mutated.subjects@, after.subjects@, mutated.pool_size as int)
    } else {
        after == mutated
    }
}

/// One full generation of the loop from `before` to `after`.
pub open spec fn generation_step<Subject: PartialEq, Mutator, Reproducer, MutatorActions, ReproducerActions, Selector, DebugPrint>(
    options: GenerationLoopOptions<MutatorActions, ReproducerActions, Selector, DebugPrint>,
    context: GaContext<()>,
    before: Population<Subject>,
    after: Population<Subject>,
) -> bool where
    Mutator: ApplyMutation<(), Subject = Subject>,
    Reproducer: ApplyReproduction<(), Subject = Subject>,
    MutatorActions: SampleSelf<Output = Vec<Mutator>>,
    ReproducerActions: SampleSelf<Output = Vec<Reproducer>>,
    Selector: SelectOther<usize, Output = Vec<usize>>,
 {
    exists|sorted: Seq<FitnessWrapped<Subject>>, pruned: Population<Subject>, grown: Population<Subject>, mutated: Population<Subject>|
        #[trigger] generation_via::<Subject, Mutator, Reproducer, MutatorActions, ReproducerActions, Selector, DebugPrint>(
            options,
            context,
            before,
            sorted,
            pruned,
            grown,
            mutated,
            after,
        )
}

/// `trace` starts at `start`, and each entry is one full generation on from
/// the one before it.
pub open spec fn generation_trace<Subject: PartialEq, Mutator, Reproducer, MutatorActions, ReproducerActions, Selector, DebugPrint>(
    options: GenerationLoopOptions<MutatorActions, ReproducerActions, Selector, DebugPrint>,
    context: GaContext<()>,
    start: Population<Subject>,
    trace: Seq<Population<Subject>>,
) -> bool where
    Mutator: ApplyMutation<(), Subject = Subject>,
    Reproducer: ApplyReproduction<(), Subject = Subject>,
    MutatorActions: SampleSelf<Output = Vec<Mutator>>,
    ReproducerActions: SampleSelf<Output = Vec<Reproducer>>,
    Selector: SelectOther<usize, Output = Vec<usize>>,
 {
    &&& trace.len() >= 1
    &&& trace[0] == start
    &&& forall|k: int|
        #![trigger trace[k]]
        0 <= k < trace.len() - 1 ==> generation_step::<
            Subject,
            Mutator,
            Reproducer,
            MutatorActions,
            ReproducerActions,
            Selector,
            DebugPrint,
        >(options, context, trace[k], trace[k + 1])
}

/// Runs generations until the best fitness leaves the range or reaches the
/// target, or the generation counter runs out; returns why, and how many
/// generations ran, with each subject handed to `debug_print` and the best
/// fitness recorded at that moment. Each generation sorts (best
/// first), reports an improved best to `debug_print`, and then prunes to the
/// target size sparing the best, reproduces, mutates, and dedupes when asked.
pub fn generation_loop<Subject, Mutator, Reproducer, MutatorActions, ReproducerActions, Selector, DebugPrint>(
    options: &GenerationLoopOptions<MutatorActions, ReproducerActions, Selector, DebugPrint>,
    state: &mut GenerationLoopState<Subject>,
) -> (r: (TerminationReason, usize, Ghost<Seq<(Subject, Fitness)>>)) where
    Subject: PartialEq,
    Mutator: ApplyMutation<(), Subject = Subject>,
    Reproducer: ApplyReproduction<(), Subject = Subject>,
    MutatorActions: SampleSelf<Output = Vec<Mutator>>,
    ReproducerActions: SampleSelf<Output = Vec<Reproducer>>,
    Selector: SelectOther<usize, Output = Vec<usize>>,
    DebugPrint: Fn(&Subject),

    requires
        options.mutation_options.overall_mutation_chance <= ODDS_ONE,
        options.mutation_options.mutation_actions.can_sample(),
        options.reproduction_options.overall_reproduction_chance <= ODDS_ONE,
        options.reproduction_options.reproduction_actions.can_sample(),
        forall|s: &Subject| #[trigger] options.debug_print.requires((s,)),
    ensures
        final(state).population.pool_size == old(state).population.pool_size,
        r.0 != TerminationReason::HookRequested,
        r.0 == TerminationReason::GenerationsExhausted ==> r.1 == usize::MAX,
        exists|context: GaContext<()>, trace: Seq<Population<Subject>>|
            {
                &&& #[trigger] generation_trace::<Subject, Mutator, Reproducer, MutatorActions, ReproducerActions, Selector, DebugPrint>(*options, context, old(state).population, trace)
                &&& r.0 == TerminationReason::GenerationsExhausted ==> {
                    &&& trace.len() == r.1 + 1
                    &&& final(state).population == trace.last()
                }
                &&& r.0 == TerminationReason::OutOfRange || r.0 == TerminationReason::TargetReached ==> {
                    &&& trace.len() == r.1
                    &&& final(state).population.pool_size == trace.last().pool_size
                    &&& final(state).population.subjects@.to_multiset() == trace.last().subjects@.to_multiset()
                    &&& sorted_by_fitness(
                        final(state).population.subjects@,
                        options.fitness_initial_to_target_range.start < options.fitness_initial_to_target_range.end,
                    )
                }
            },
        forall|i: int, j: int|
            0 <= i < j < r.2@.len() ==> if options.fitness_initial_to_target_range.start
                < options.fitness_initial_to_target_range.end {
                r.2@[i].1 <= r.2@[j].1
            } else {
                r.2@[i].1 >= r.2@[j].1
            },
        forall|i: int| 0 <= i < r.2@.len() ==> options.debug_print.ensures((&#[trigger] r.2@[i].0,), ()),
        r.0 == TerminationReason::OutOfRange || r.0 == TerminationReason::TargetReached ==> r.2@.len() > 0
            && r.2@.last().0 == final(state).population.subjects[0].spec_subject(),
        r.1 >= 1 || old(state).population.subjects.len() == 0,
        old(state).population.subjects.len() > 0 ==> exists|best: Fitness|
            {
                &&& is_best_fitness(
                    old(state).population.subjects@,
                    best,
                    options.fitness_initial_to_target_range.start < options.fitness_initial_to_target_range.end,
                )
                &&& verdict_of(options.fitness_range, options.fitness_initial_to_target_range.end, best)
                    == GenerationVerdict::OutOfRange ==> r.0 == TerminationReason::OutOfRange && r.1 == 1
                &&& verdict_of(options.fitness_range, options.fitness_initial_to_target_range.end, best)
                    == GenerationVerdict::TargetReached ==> r.0 == TerminationReason::TargetReached && r.1 == 1
            },
        r.0 == TerminationReason::OutOfRange ==> final(state).population.subjects.len() > 0 && !in_range(
            options.fitness_range,
            final(state).population.subjects[0].spec_fitness(),
        ),
        r.0 == TerminationReason::TargetReached ==> final(state).population.subjects.len() > 0
            && final(state).population.subjects[0].spec_fitness()
            == options.fitness_initial_to_target_range.end,
{
    let context = GaContext::create_from_data(());
    let reverse = options.fitness_initial_to_target_range.start < options.fitness_initial_to_target_range.end;
    let target = options.fitness_initial_to_target_range.end;
    let mut current: Option<Fitness> = Some(options.fitness_initial_to_target_range.start);
    let mut generation: usize = 0;
    let ghost initial = state.population.subjects@;
    let ghost mut first_best: Fitness = 0;
    let ghost mut reports: Seq<(Subject, Fitness)> = Seq::empty();
    let ghost start = state.population;
    let ghost mut trace: Seq<Population<Subject>> = seq![state.population];
    loop
        invariant
            generation_trace::<Subject, Mutator, Reproducer, MutatorActions, ReproducerActions, Selector, DebugPrint>(*options, context, start, trace),
            start == old(state).population,
            trace.len() == generation + 1,
            trace.last() == state.population,
            reports_ordered(reports, reverse, current),
            current is Some,
            forall|i: int| 0 <= i < reports.len() ==> options.debug_print.ensures((&#[trigger] reports[i].0,), ()),
            target == options.fitness_initial_to_target_range.end,
            reverse == (options.fitness_initial_to_target_range.start < options.fitness_initial_to_target_range.end),
            initial == old(state).population.subjects@,
            generation == 0 ==> state.population.subjects@ == initial,
            generation >= 1 && initial.len() > 0 ==> {
                &&& is_best_fitness(initial, first_best, reverse)
                &&& verdict_of(options.fitness_range, target, first_best) == GenerationVerdict::Continue
            },
            state.population.pool_size == old(state).population.pool_size,
            options.mutation_options.overall_mutation_chance <= ODDS_ONE,
            options.mutation_options.mutation_actions.can_sample(),
            options.reproduction_options.overall_reproduction_chance <= ODDS_ONE,
            options.reproduction_options.reproduction_actions.can_sample(),
            forall|s: &Subject| #[trigger] options.debug_print.requires((s,)),
        decreases usize::MAX - generation,
    {
        if generation == usize::MAX {
            assert(generation_trace::<Subject, Mutator, Reproducer, MutatorActions, ReproducerActions, Selector, DebugPrint>(*options, context, start, trace));
            return (TerminationReason::GenerationsExhausted, generation, Ghost(reports));
        }
        generation = generation + 1;
        let ghost start_pop = state.population;
        let ghost before = state.population.subjects@;
        if reverse {
            state.population.sort_rev();
        } else {
            state.population.sort();
        }
        assert(before.to_multiset().len() == before.len());
        assert(state.population.subjects@.to_multiset().len() == state.population.subjects@.len());
        if state.population.subjects.len() > 0 {
            proof {
                lemma_sorted_front_is_best(before, state.population.subjects@, reverse);
            }
            let front = state.population.subjects[0].fitness();
            proof {
                if generation == 1 {
                    first_best = front;
                }
            }
            let judgement = judge_front(reverse, current, front, &options.fitness_range, target);
            current = judgement.current_fitness;
            let ghost best = state.population.subjects@[0].spec_subject();
            if judgement.improved {
                (options.debug_print)(state.population.subjects[0].subject());
                proof {
                    reports = reports.push((best, front));
                }
            }
            match judgement.verdict {
                GenerationVerdict::Continue => {},
                _ => {
                    (options.debug_print)(state.population.subjects[0].subject());
                    let ghost recorded = match current {
                        Some(c) => c,
                        None => 0,
                    };
                    proof {
                        reports = reports.push((best, recorded));
                    }
                    let reason = match judgement.verdict {
                        GenerationVerdict::OutOfRange => TerminationReason::OutOfRange,
                        _ => TerminationReason::TargetReached,
                    };
                    assert(generation_trace::<Subject, Mutator, Reproducer, MutatorActions, ReproducerActions, Selector, DebugPrint>(*options, context, start, trace));
                    return (reason, generation, Ghost(reports));
                },
            }
        }
        let ghost sorted = state.population.subjects@;
        let pool_size = state.population.pool_size;
        prune_to_length(&mut state.population.subjects, pool_size, Bias::Back, true);
        let ghost pruned = state.population;
        apply_reproductions(&context, &mut state.population, &options.reproduction_options);
        let ghost grown = state.population;
        apply_mutations(&context, &mut state.population, &options.mutation_options);
        let ghost mutated = state.population;
        if options.remove_duplicates {
            let pool_size = state.population.pool_size;
            dedupe_members_above(&mut state.population.subjects, pool_size);
        }
        proof {
            assert(generation_via::<Subject, Mutator, Reproducer, MutatorActions, ReproducerActions, Selector, DebugPrint>(
                *options,
                context,
                start_pop,
                sorted,
                pruned,
                grown,
                mutated,
                state.population,
            ));
            let next = trace.push(state.population);
            assert forall|k: int| #![trigger next[k]] 0 <= k < next.len() - 1 implies generation_step::<
                Subject, Mutator, Reproducer, MutatorActions, ReproducerActions, Selector, DebugPrint,
            >(*options, context, next[k], next[k + 1]) by {
                if k < trace.len() - 1 {
                    assert(next[k] == trace[k] && next[k + 1] == trace[k + 1]);
                    assert(generation_step::<Subject, Mutator, Reproducer, MutatorActions, ReproducerActions, Selector, DebugPrint>(*options, context, trace[k], trace[k + 1]));
                } else {
                    assert(next[k] == start_pop);
                }
            }
            trace = next;
        }
    }
}

} // verus!
