use std::cell::RefCell;

use rand::Rng;
use simple_ga::ga::action::{DefaultActions, EmptyAction};
use simple_ga::ga::dedupe::{DedupeAction, DefaultDedupe};
use simple_ga::ga::fitness::{Fit, Fitness, FitnessWrapped};
use simple_ga::ga::ga_iterator::{judge_front, GaIterState, GaIterator, GenerationVerdict};
use simple_ga::ga::ga_runner::{ga_runner, GaRunnerCustomForEachGenerationResult, GaRunnerOptions, TerminationReason};
use simple_ga::ga::generation_loop::{generation_loop, GenerationLoopOptions, GenerationLoopState};
use simple_ga::ga::inflate::InflateUntilFull;
use simple_ga::ga::mutation::{ApplyMutation, ApplyMutationOptions, GenericMutator};
use simple_ga::ga::population::Population;
use simple_ga::ga::prune::{PruneAction, PruneExtraBackSkipFirst};
use simple_ga::ga::reproduction::{ApplyReproduction, ApplyReproductionOptions, GenericReproducer, ReproductionResult};
use simple_ga::ga::select::SelectRandomManyWithBias;
use simple_ga::ga::subject::GaSubject;
use simple_ga::ga::{
    create_population_pool, CreatePopulationOptions, GaContext, GeneticAlgorithmOptions, WeightedAction,
    WeightedActionsSampleOne,
};
use simple_ga::util::{Bias, ODDS_ONE};

const TARGET: &str = "314159265358979";

#[derive(Debug, Clone, PartialEq, Eq, Hash)]
struct Digits(String);

impl Fit<Fitness> for Digits {
    fn measure(&self) -> Fitness {
        self.0.chars().zip(TARGET.chars()).take_while(|(a, b)| a == b).count() as Fitness
    }
}

impl GaSubject for Digits {}

fn random_digits() -> Digits {
    let mut rng = rand::thread_rng();
    Digits((0..TARGET.len()).map(|_| char::from(b'0' + rng.gen_range(0..10u8))).collect())
}

#[derive(Debug, Clone, Copy, Default)]
struct ChangeDigit;

impl ApplyMutation<()> for ChangeDigit {
    type Subject = Digits;

    fn apply(&self, _context: &GaContext<()>, subject: &Digits) -> Digits {
        let mut rng = rand::thread_rng();
        let position = rng.gen_range(0..TARGET.len());
        let digit = char::from(b'0' + rng.gen_range(0..10u8));
        Digits(subject.0.chars().enumerate().map(|(i, c)| if i == position { digit } else { c }).collect())
    }

    fn fitness(subject: &Digits) -> Fitness {
        subject.measure()
    }
}

#[derive(Debug, Clone, Copy, Default)]
struct Crossover;

impl ApplyReproduction<()> for Crossover {
    type Subject = Digits;

    fn apply(&self, _context: &GaContext<()>, subject_a: &Digits, subject_b: &Digits) -> Option<ReproductionResult<Digits>> {
        let cut = rand::thread_rng().gen_range(0..=TARGET.len());
        let a = format!("{}{}", &subject_a.0[..cut], &subject_b.0[cut..]);
        let b = format!("{}{}", &subject_b.0[..cut], &subject_a.0[cut..]);
        Some(ReproductionResult::Double(Digits(a), Digits(b)))
    }

    fn fitness(subject: &Digits) -> Fitness {
        subject.measure()
    }
}

#[test]
fn scenario_digits_reach_the_target() {
    let create = |_: &GaContext<()>| random_digits();
    let population_size = 100;
    let actions = DefaultActions {
        prune: PruneAction::new(PruneExtraBackSkipFirst::new(population_size)),
        mutation: GenericMutator::<ChangeDigit, Digits, _>::new(ApplyMutationOptions {
            overall_mutation_chance: ODDS_ONE,
            mutation_actions: WeightedActionsSampleOne(vec![WeightedAction { action: ChangeDigit, weight: ODDS_ONE }]),
            clone_on_mutation: true,
        }),
        reproduction: GenericReproducer::<Crossover, _, Digits, _>::new(ApplyReproductionOptions {
            selector: SelectRandomManyWithBias::new(20, Bias::Front),
            overall_reproduction_chance: ODDS_ONE / 2,
            reproduction_actions: WeightedActionsSampleOne(vec![WeightedAction { action: Crossover, weight: ODDS_ONE }]),
        }),
        dedupe: DedupeAction::new(DefaultDedupe::default()),
        inflate: InflateUntilFull(create),
    };
    let target_fitness = TARGET.len() as Fitness;
    let ga_options = GeneticAlgorithmOptions {
        fitness_initial_to_target_range: 0..target_fitness,
        fitness_range: 0..target_fitness + 1,
        actions,
        initial_data: (),
    };
    let seen: RefCell<Vec<Fitness>> = RefCell::new(Vec::new());
    let record = |subject: &Digits| seen.borrow_mut().push(subject.measure());
    let stop_late = |state: &mut GaIterState<Digits, ()>| {
        if state.context().generation() > 20000 {
            Some(GaRunnerCustomForEachGenerationResult::Terminate)
        } else {
            None
        }
    };
    let runner_options = GaRunnerOptions {
        debug_print: Some(record),
        before_each_generation: Some(stop_late),
        after_each_generation: None::<fn(&mut GaIterState<Digits, ()>) -> Option<GaRunnerCustomForEachGenerationResult>>,
    };
    let population = create_population_pool(CreatePopulationOptions { population_size, create_subject_fn: create });
    let outcome = ga_runner(ga_options, runner_options, population);
    assert_eq!(outcome.reason, TerminationReason::TargetReached);
    assert_eq!(outcome.state.current_fitness(), Some(target_fitness));
    let seen = seen.borrow();
    assert!(!seen.is_empty());
    assert!(seen.windows(2).all(|w| w[0] <= w[1]));
    assert_eq!(*seen.last().unwrap(), target_fitness);
}

fn numbers(values: &[i64]) -> Population<i64> {
    Population {
        pool_size: values.len(),
        subjects: values.iter().map(|v| FitnessWrapped::new(*v, *v)).collect(),
    }
}

#[test]
fn reverse_mode_treats_largest_fitness_as_best() {
    let options = GeneticAlgorithmOptions {
        fitness_initial_to_target_range: 0..10,
        fitness_range: 0..20,
        actions: EmptyAction::<i64>::new(),
        initial_data: (),
    };
    let state = GaIterState::new(GaContext::create_from_data(()), numbers(&[3, 9, 1, 5]));
    let mut iter = GaIterator::<i64, EmptyAction<i64>, (), fn(&i64)>::new(options, state);
    assert_eq!(iter.next_generation(), Some(9));
    assert_eq!(iter.state().current_fitness(), Some(9));
    assert_eq!(iter.state().population.subjects[0].fitness(), 9);
    assert_eq!(iter.state().context().generation(), 1);
    iter.state_mut().population.add(FitnessWrapped::new(12, 12));
    assert_eq!(iter.next_generation(), Some(12));
    iter.state_mut().population.add(FitnessWrapped::new(10, 10));
    assert_eq!(iter.next_generation(), Some(12));
    assert!(!iter.is_fitness_at_target());
}

#[test]
fn standard_mode_treats_smallest_fitness_as_best_and_stops_at_target() {
    let options = GeneticAlgorithmOptions {
        fitness_initial_to_target_range: 10..0,
        fitness_range: -5..20,
        actions: EmptyAction::<i64>::new(),
        initial_data: (),
    };
    let state = GaIterState::new(GaContext::create_from_data(()), numbers(&[3, 9, 1, 5]));
    let mut iter = GaIterator::<i64, EmptyAction<i64>, (), fn(&i64)>::new(options, state);
    assert_eq!(iter.next_generation(), Some(1));
    iter.state_mut().population.add(FitnessWrapped::new(0, 0));
    assert_eq!(iter.next_generation(), None);
    assert!(iter.is_fitness_at_target());
    iter.state_mut().population.add(FitnessWrapped::new(-9, -9));
    assert_eq!(iter.next_generation(), None);
    assert!(!iter.is_fitness_within_range());
}

#[test]
fn judge_front_verdicts() {
    let range = 0..10;
    let j = judge_front(true, None, 4, &range, 9);
    assert!(j.improved);
    assert_eq!(j.current_fitness, Some(4));
    assert_eq!(j.verdict, GenerationVerdict::Continue);
    let j = judge_front(true, Some(6), 4, &range, 9);
    assert!(!j.improved);
    assert_eq!(j.current_fitness, Some(6));
    let j = judge_front(false, Some(6), 4, &range, 4);
    assert!(j.improved);
    assert_eq!(j.verdict, GenerationVerdict::TargetReached);
    let j = judge_front(false, Some(6), 10, &range, 4);
    assert_eq!(j.verdict, GenerationVerdict::OutOfRange);
}

#[test]
fn hook_can_stop_the_run() {
    let options = GeneticAlgorithmOptions {
        fitness_initial_to_target_range: 0..100,
        fitness_range: 0..200,
        actions: EmptyAction::<i64>::new(),
        initial_data: (),
    };
    let stop = |state: &mut GaIterState<i64, ()>| {
        if state.context().generation() >= 3 {
            Some(GaRunnerCustomForEachGenerationResult::Terminate)
        } else {
            None
        }
    };
    let runner_options = GaRunnerOptions {
        debug_print: None::<fn(&i64)>,
        before_each_generation: None::<fn(&mut GaIterState<i64, ()>) -> Option<GaRunnerCustomForEachGenerationResult>>,
        after_each_generation: Some(stop),
    };
    let outcome = ga_runner(options, runner_options, numbers(&[1, 2]));
    assert_eq!(outcome.reason, TerminationReason::HookRequested);
    assert_eq!(outcome.hook_answer, Some(GaRunnerCustomForEachGenerationResult::Terminate));
    assert_eq!(outcome.state.context().generation(), 3);
    assert_eq!(outcome.state.current_fitness(), Some(2));
}

#[test]
fn generation_loop_reaches_the_target() {
    let population = create_population_pool(CreatePopulationOptions {
        population_size: 100,
        create_subject_fn: |_: &GaContext<()>| random_digits(),
    });
    let target_fitness = TARGET.len() as Fitness;
    let options = GenerationLoopOptions {
        remove_duplicates: true,
        fitness_initial_to_target_range: 0..target_fitness,
        fitness_range: 0..target_fitness + 1,
        mutation_options: ApplyMutationOptions {
            overall_mutation_chance: ODDS_ONE,
            mutation_actions: WeightedActionsSampleOne(vec![WeightedAction { action: ChangeDigit, weight: ODDS_ONE }]),
            clone_on_mutation: true,
        },
        reproduction_options: ApplyReproductionOptions {
            selector: SelectRandomManyWithBias::new(20, Bias::Front),
            overall_reproduction_chance: ODDS_ONE / 2,
            reproduction_actions: WeightedActionsSampleOne(vec![WeightedAction { action: Crossover, weight: ODDS_ONE }]),
        },
        debug_print: |_: &Digits| {},
    };
    let mut state = GenerationLoopState { population };
    let (reason, generations, _) = generation_loop(&options, &mut state);
    assert_eq!(reason, TerminationReason::TargetReached);
    assert!(generations >= 1);
    assert_eq!(state.population.subjects[0].fitness(), target_fitness);
    assert_eq!(state.population.pool_size, 100);
}

#[test]
fn generation_loop_stops_at_once_when_the_best_is_out_of_range() {
    let population = Population { pool_size: 3, subjects: vec![FitnessWrapped::new(Digits(TARGET.to_string()), 15)] };
    let options = GenerationLoopOptions {
        remove_duplicates: false,
        fitness_initial_to_target_range: 0..20,
        fitness_range: 0..10,
        mutation_options: ApplyMutationOptions {
            overall_mutation_chance: 0,
            mutation_actions: WeightedActionsSampleOne(vec![WeightedAction { action: ChangeDigit, weight: ODDS_ONE }]),
            clone_on_mutation: false,
        },
        reproduction_options: ApplyReproductionOptions {
            selector: SelectRandomManyWithBias::new(2, Bias::Front),
            overall_reproduction_chance: 0,
            reproduction_actions: WeightedActionsSampleOne(vec![WeightedAction { action: Crossover, weight: ODDS_ONE }]),
        },
        debug_print: |_: &Digits| {},
    };
    let mut state = GenerationLoopState { population };
    let (reason, generations, _) = generation_loop(&options, &mut state);
    assert_eq!((reason, generations), (TerminationReason::OutOfRange, 1));
}
