//! The runner: drives the iterator until the run ends, with hooks before and
//! after each generation.
use vstd::prelude::*;

use crate::ga::fitness::Fitness;
use crate::ga::ga_iterator::{
    debug_print_ready, in_range, reports_ordered, reports_printed, is_best_fitness, reverse_mode_of, verdict_of, GaIterOptions, GaIterState, GaIterator,
    GenerationVerdict,
};
use crate::ga::population::Population;
use crate::ga::{GaAction, GaContext, GeneticAlgorithmOptions};

verus! {

/// What a hook can ask of the runner.
#[derive(Debug, Copy, Clone, PartialEq, Eq, Hash, PartialOrd, Ord)]
pub enum GaRunnerCustomForEachGenerationResult {
    Terminate,
}

/// Why a run ended.
#[derive(Debug, Copy, Clone, PartialEq, Eq, Structural)]
pub enum TerminationReason {
    /// the best fitness left the acceptable range
    OutOfRange,
    /// the best fitness reached the target
    TargetReached,
    /// a hook asked to stop
    HookRequested,
    /// the generation counter cannot go further
    GenerationsExhausted,
}

/// The runner's callbacks.
#[derive(Debug, Clone, Default)]
pub struct GaRunnerOptions<DebugPrint, Before, After> {
    pub debug_print: Option<DebugPrint>,
    pub before_each_generation: Option<Before>,
    pub after_each_generation: Option<After>,
}

/// The end of a run: the final state and the reason it ended.
pub struct GaRunOutcome<Subject, Data> {
    pub state: GaIterState<Subject, Data>,
    pub reason: TerminationReason,
    /// the answer of the hook that ended the run, if one did
    pub hook_answer: Option<GaRunnerCustomForEachGenerationResult>,
    /// each subject handed to the debug callback, with the best fitness
    /// recorded at that moment
    pub reports: Ghost<Seq<(Subject, Fitness)>>,
}

/// A hook, where there is one, accepts every state.
pub open spec fn hook_ready<Subject, Data, Hook: Fn(&mut GaIterState<Subject, Data>) -> Option<
    GaRunnerCustomForEachGenerationResult,
>>(hook: Option<Hook>) -> bool {
    hook matches Some(f) ==> forall|s: &mut GaIterState<Subject, Data>| #[trigger] f.requires((s,))
}

/// Runs generations until the best fitness leaves its range or reaches the target.
pub struct GaRunner<DebugPrint, Before, After> {
    runner_options: GaRunnerOptions<DebugPrint, Before, After>,
}

impl<DebugPrint: Copy, Before, After> GaRunner<DebugPrint, Before, After> {
    pub closed spec fn spec_runner_options(&self) -> GaRunnerOptions<DebugPrint, Before, After> {
        self.runner_options
    }

    pub fn new(runner_options: GaRunnerOptions<DebugPrint, Before, After>) -> (r: Self)
        ensures
            r.spec_runner_options() == runner_options,
    {
        Self { runner_options }
    }

    /// Runs a population to the end: while the recorded best is within range
    /// and not at the target, calls the before hook, steps once, and calls
    /// the after hook; a hook that answers `Terminate` ends the run.
    pub fn run<Subject, Data: Default, Actions>(
        &mut self,
        ga_options: GeneticAlgorithmOptions<Actions, Data>,
        population: Population<Subject>,
    ) -> (r: GaRunOutcome<Subject, Data>) where
        Actions: GaAction<Data, Subject = Subject>,
        DebugPrint: Fn(&Subject),
        Before: Fn(&mut GaIterState<Subject, Data>) -> Option<GaRunnerCustomForEachGenerationResult>,
        After: Fn(&mut GaIterState<Subject, Data>) -> Option<GaRunnerCustomForEachGenerationResult>,

        requires
            ga_options.actions.can_perform(),
            debug_print_ready::<Subject, DebugPrint>(
                GaIterOptions { debug_print: old(self).spec_runner_options().debug_print },
            ),
            hook_ready(old(self).spec_runner_options().before_each_generation),
            hook_ready(old(self).spec_runner_options().after_each_generation),
        ensures
            r.reason == TerminationReason::GenerationsExhausted ==> r.state.spec_context().spec_generation()
                == usize::MAX,
            r.reason == TerminationReason::OutOfRange ==> match r.state.spec_current_fitness() {
                Some(f) => !in_range(ga_options.fitness_range, f),
                None => false,
            } || (r.state.spec_population().subjects.len() > 0 && !in_range(
                ga_options.fitness_range,
                r.state.spec_population().subjects[0].spec_fitness(),
            )),
            r.reason == TerminationReason::TargetReached ==> r.state.spec_current_fitness() == Some(
                ga_options.fitness_initial_to_target_range.end,
            ) || (r.state.spec_population().subjects.len() > 0
                && r.state.spec_population().subjects[0].spec_fitness()
                == ga_options.fitness_initial_to_target_range.end),
            r.reason == TerminationReason::HookRequested <==> r.hook_answer is Some,
            r.hook_answer is Some ==> old(self).spec_runner_options().before_each_generation is Some
                || old(self).spec_runner_options().after_each_generation is Some,
            reports_ordered(r.reports@, reverse_mode_of(ga_options), r.state.spec_current_fitness()),
            reports_printed(r.reports@, GaIterOptions { debug_print: old(self).spec_runner_options().debug_print }),
            old(self).spec_runner_options().before_each_generation is None && population.subjects.len() > 0 ==> exists|best: Fitness|
                {
                    &&& is_best_fitness(population.subjects@, best, reverse_mode_of(ga_options))
                    &&& verdict_of(ga_options.fitness_range, ga_options.fitness_initial_to_target_range.end, best)
                        == GenerationVerdict::OutOfRange ==> r.reason == TerminationReason::OutOfRange
                    &&& verdict_of(ga_options.fitness_range, ga_options.fitness_initial_to_target_range.end, best)
                        == GenerationVerdict::TargetReached ==> r.reason == TerminationReason::TargetReached
                },
    {
        let GeneticAlgorithmOptions { fitness_initial_to_target_range, fitness_range, actions, initial_data } =
            ga_options;
        let options = GeneticAlgorithmOptions {
            fitness_initial_to_target_range,
            fitness_range,
            actions,
            initial_data: Data::default(),
        };
        let mut ga_iter = GaIterator::new_with_options(
            options,
            GaIterState::new(GaContext::create_from_data(initial_data), population),
            GaIterOptions { debug_print: self.runner_options.debug_print },
        );
        let reason;
        let mut hook_answer: Option<GaRunnerCustomForEachGenerationResult> = None;
        let ghost initial = population;
        let ghost mut stepped = false;
        let ghost mut first_best: Fitness = 0;
        let ghost no_before = self.runner_options.before_each_generation is None;
        loop
            invariant_except_break
                hook_answer is None,
                stepped && no_before && initial.subjects.len() > 0 ==> {
                    &&& is_best_fitness(initial.subjects@, first_best, reverse_mode_of(ga_options))
                    &&& verdict_of(ga_options.fitness_range, ga_options.fitness_initial_to_target_range.end, first_best)
                        == GenerationVerdict::Continue
                },
            invariant
                self.runner_options == old(self).runner_options,
                ga_iter.spec_iter_options() == (GaIterOptions { debug_print: self.runner_options.debug_print }),
                no_before == (self.runner_options.before_each_generation is None),
                ga_iter.spec_is_reverse_mode() == reverse_mode_of(ga_options),
                !stepped && no_before ==> {
                    &&& ga_iter.spec_state().spec_population() == initial
                    &&& ga_iter.spec_state().spec_current_fitness() is None
                    &&& ga_iter.spec_state().spec_context().spec_generation() == 0
                },
                ga_iter.ready(),
                ga_iter.spec_options().fitness_range == ga_options.fitness_range,
                ga_iter.spec_options().fitness_initial_to_target_range == ga_options.fitness_initial_to_target_range,
                hook_ready(self.runner_options.before_each_generation),
                hook_ready(self.runner_options.after_each_generation),
            ensures
                reason == TerminationReason::GenerationsExhausted ==> ga_iter.spec_state().spec_context().spec_generation()
                    == usize::MAX,
                reason == TerminationReason::OutOfRange ==> match ga_iter.spec_state().spec_current_fitness() {
                    Some(f) => !in_range(ga_options.fitness_range, f),
                    None => false,
                } || (ga_iter.spec_state().spec_population().subjects.len() > 0 && !in_range(
                    ga_options.fitness_range,
                    ga_iter.spec_state().spec_population().subjects[0].spec_fitness(),
                )),
                reason == TerminationReason::TargetReached ==> ga_iter.spec_state().spec_current_fitness() == Some(
                    ga_options.fitness_initial_to_target_range.end,
                ) || (ga_iter.spec_state().spec_population().subjects.len() > 0
                    && ga_iter.spec_state().spec_population().subjects[0].spec_fitness()
                    == ga_options.fitness_initial_to_target_range.end),
                reason == TerminationReason::HookRequested <==> hook_answer is Some,
                hook_answer is Some ==> self.runner_options.before_each_generation is Some
                    || self.runner_options.after_each_generation is Some,
                no_before && initial.subjects.len() > 0 ==> exists|best: Fitness|
                    {
                        &&& is_best_fitness(initial.subjects@, best, reverse_mode_of(ga_options))
                        &&& verdict_of(ga_options.fitness_range, ga_options.fitness_initial_to_target_range.end, best)
                            == GenerationVerdict::OutOfRange ==> reason == TerminationReason::OutOfRange
                        &&& verdict_of(ga_options.fitness_range, ga_options.fitness_initial_to_target_range.end, best)
                            == GenerationVerdict::TargetReached ==> reason == TerminationReason::TargetReached
                    },
            decreases usize::MAX - ga_iter.spec_state().spec_context().spec_generation(),
        {
            if !ga_iter.is_fitness_within_range() {
                reason = TerminationReason::OutOfRange;
                break ;
            }
            if ga_iter.is_fitness_at_target() {
                reason = TerminationReason::TargetReached;
                break ;
            }
            let generation = ga_iter.state().context().generation();
            if generation == usize::MAX {
                reason = TerminationReason::GenerationsExhausted;
                break ;
            }
            match &self.runner_options.before_each_generation {
                Some(before_each) => {
                    let current = ga_iter.state().current_fitness();
                    let answer = before_each(ga_iter.state_mut());
                    ga_iter.state_mut().restore_bookkeeping(generation, current);
                    if answer.is_some() {
                        hook_answer = answer;
                        reason = TerminationReason::HookRequested;
                        break ;
                    }
                },
                None => {},
            }
            let (_, verdict) = ga_iter.step();
            proof {
                if !stepped && no_before && initial.subjects.len() > 0 {
                    let front = choose|front: Fitness|
                        {
                            &&& is_best_fitness(initial.subjects@, front, reverse_mode_of(ga_options))
                            &&& verdict == verdict_of(
                                ga_options.fitness_range,
                                ga_options.fitness_initial_to_target_range.end,
                                front,
                            )
                        };
                    first_best = front;
                }
                stepped = true;
            }
            match verdict {
                GenerationVerdict::OutOfRange => {
                    reason = TerminationReason::OutOfRange;
                    break ;
                },
                GenerationVerdict::TargetReached => {
                    reason = TerminationReason::TargetReached;
                    break ;
                },
                GenerationVerdict::Continue => {},
            }
            match &self.runner_options.after_each_generation {
                Some(after_each) => {
                    let current = ga_iter.state().current_fitness();
                    let answer = after_each(ga_iter.state_mut());
                    ga_iter.state_mut().restore_bookkeeping(generation + 1, current);
                    if answer.is_some() {
                        hook_answer = answer;
                        reason = TerminationReason::HookRequested;
                        break ;
                    }
                },
                None => {},
            }
        }
        let ghost reports = ga_iter.spec_reports();
        GaRunOutcome { state: ga_iter.into_state(), reason, hook_answer, reports: Ghost(reports) }
    }
}

/// Runs a population to the end with a fresh runner.
pub fn ga_runner<Subject, Actions, Data: Default, DebugPrint: Copy, Before, After>(
    ga_options: GeneticAlgorithmOptions<Actions, Data>,
    runner_options: GaRunnerOptions<DebugPrint, Before, After>,
    population: Population<Subject>,
) -> (r: GaRunOutcome<Subject, Data>) where
    Actions: GaAction<Data, Subject = Subject>,
    DebugPrint: Fn(&Subject),
    Before: Fn(&mut GaIterState<Subject, Data>) -> Option<GaRunnerCustomForEachGenerationResult>,
    After: Fn(&mut GaIterState<Subject, Data>) -> Option<GaRunnerCustomForEachGenerationResult>,

    requires
        ga_options.actions.can_perform(),
        debug_print_ready::<Subject, DebugPrint>(GaIterOptions { debug_print: runner_options.debug_print }),
        hook_ready(runner_options.before_each_generation),
        hook_ready(runner_options.after_each_generation),
    ensures
        r.reason == TerminationReason::GenerationsExhausted ==> r.state.spec_context().spec_generation()
            == usize::MAX,
        r.reason == TerminationReason::OutOfRange ==> match r.state.spec_current_fitness() {
            Some(f) => !in_range(ga_options.fitness_range, f),
            None => false,
        } || (r.state.spec_population().subjects.len() > 0 && !in_range(
            ga_options.fitness_range,
            r.state.spec_population().subjects[0].spec_fitness(),
        )),
        r.reason == TerminationReason::TargetReached ==> r.state.spec_current_fitness() == Some(
            ga_options.fitness_initial_to_target_range.end,
        ) || (r.state.spec_population().subjects.len() > 0
            && r.state.spec_population().subjects[0].spec_fitness()
            == ga_options.fitness_initial_to_target_range.end),
        r.reason == TerminationReason::HookRequested <==> r.hook_answer is Some,
        r.hook_answer is Some ==> runner_options.before_each_generation is Some
            || runner_options.after_each_generation is Some,
        reports_ordered(r.reports@, reverse_mode_of(ga_options), r.state.spec_current_fitness()),
        reports_printed(r.reports@, GaIterOptions { debug_print: runner_options.debug_print }),
        runner_options.before_each_generation is None && population.subjects.len() > 0 ==> exists|best: Fitness|
            {
                &&& is_best_fitness(population.subjects@, best, reverse_mode_of(ga_options))
                &&& verdict_of(ga_options.fitness_range, ga_options.fitness_initial_to_target_range.end, best)
                    == GenerationVerdict::OutOfRange ==> r.reason == TerminationReason::OutOfRange
                &&& verdict_of(ga_options.fitness_range, ga_options.fitness_initial_to_target_range.end, best)
                    == GenerationVerdict::TargetReached ==> r.reason == TerminationReason::TargetReached
            },
{
    let mut runner = GaRunner::new(runner_options);
    runner.run(ga_options, population)
}

} // verus!
