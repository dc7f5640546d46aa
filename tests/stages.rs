use std::collections::HashSet;

use simple_ga::ga::dedupe::{dedupe_members, dedupe_members_above, DedupeKeepPoolSize, DedupeOther, DefaultDedupe};
use simple_ga::ga::fitness::{Fit, Fitness, FitnessWrapped};
use simple_ga::ga::mutation::{apply_mutation_plan, apply_mutations, ApplyMutation, ApplyMutationOptions};
use simple_ga::ga::population::Population;
use simple_ga::ga::reproduction::{
    apply_reproduction_plan, apply_reproductions, asexual_reproduction, offspring_of, sliding_pairs,
    ApplyReproduction, ApplyReproductionOptions, ReproductionResult,
};
use simple_ga::ga::select::SelectAll;
use simple_ga::ga::subject::GaSubject;
use simple_ga::ga::{GaContext, SampleSelf, WeightedAction, WeightedActionsSampleAll, WeightedActionsSampleOne};
use simple_ga::util::ODDS_ONE;

#[derive(Debug, Clone, PartialEq, Eq, Hash)]
struct Num(i64);

impl Fit<Fitness> for Num {
    fn measure(&self) -> Fitness {
        self.0
    }
}

impl GaSubject for Num {}

#[derive(Debug, Clone, Copy, Default)]
struct AddTen;

impl ApplyMutation<()> for AddTen {
    type Subject = Num;

    fn apply(&self, _context: &GaContext<()>, subject: &Num) -> Num {
        Num(subject.0 + 10)
    }

    fn fitness(subject: &Num) -> Fitness {
        subject.measure()
    }
}

#[derive(Debug, Clone, Copy, Default)]
struct TwinsOfFirst;

impl ApplyReproduction<()> for TwinsOfFirst {
    type Subject = Num;

    fn apply(&self, _context: &GaContext<()>, subject_a: &Num, _subject_b: &Num) -> Option<ReproductionResult<Num>> {
        Some(ReproductionResult::Double(subject_a.clone(), subject_a.clone()))
    }

    fn fitness(subject: &Num) -> Fitness {
        subject.measure()
    }
}

fn population_of(values: &[i64]) -> Population<Num> {
    Population {
        pool_size: values.len(),
        subjects: values.iter().map(|v| FitnessWrapped::new(Num(*v), *v)).collect(),
    }
}

fn fitness_of(population: &Population<Num>) -> Vec<Fitness> {
    population.subjects.iter().map(|w| w.fitness()).collect()
}

#[test]
fn dedupe_is_idempotent_and_counts_distinct_pairs() {
    let mut items: Vec<FitnessWrapped<Num>> = [(1, 1), (2, 2), (1, 1), (3, 3), (2, 2), (1, 5)]
        .iter()
        .map(|(s, f)| FitnessWrapped::new(Num(*s), *f))
        .collect();
    let distinct: HashSet<(i64, i64)> = items.iter().map(|w| (w.fitness(), w.subject().0)).collect();
    dedupe_members(&mut items);
    assert_eq!(items.len(), distinct.len());
    let once: Vec<(i64, i64)> = items.iter().map(|w| (w.subject().0, w.fitness())).collect();
    assert_eq!(once, vec![(1, 1), (2, 2), (3, 3), (1, 5)]);
    dedupe_members(&mut items);
    let twice: Vec<(i64, i64)> = items.iter().map(|w| (w.subject().0, w.fitness())).collect();
    assert_eq!(once, twice);
}

#[test]
fn default_dedupe_keeps_pool_size() {
    let mut population = population_of(&[4, 4, 4, 5]);
    population.pool_size = 9;
    DefaultDedupe::default().dedupe(&mut population);
    assert_eq!(fitness_of(&population), vec![4, 5]);
    assert_eq!(population.pool_size, 9);
}

#[test]
fn mutation_in_place_keeps_size() {
    let mut population = population_of(&[1, 2, 3]);
    let plan = vec![vec![AddTen], vec![], vec![AddTen, AddTen]];
    apply_mutation_plan(&GaContext::default(), &mut population, &plan, false);
    assert_eq!(fitness_of(&population), vec![11, 2, 23]);
}

#[test]
fn mutation_with_clone_grows_by_applications() {
    let mut population = population_of(&[1, 2, 3]);
    let plan = vec![vec![AddTen], vec![], vec![AddTen, AddTen]];
    apply_mutation_plan(&GaContext::default(), &mut population, &plan, true);
    assert_eq!(fitness_of(&population), vec![1, 2, 3, 11, 13, 13]);
}

#[test]
fn mutation_with_certain_chance_touches_every_member() {
    let options = ApplyMutationOptions {
        overall_mutation_chance: ODDS_ONE,
        mutation_actions: WeightedActionsSampleOne(vec![WeightedAction { action: AddTen, weight: ODDS_ONE }]),
        clone_on_mutation: true,
    };
    let mut population = population_of(&[1, 2]);
    apply_mutations(&GaContext::default(), &mut population, &options);
    assert_eq!(fitness_of(&population), vec![1, 2, 11, 12]);
    let options = ApplyMutationOptions { overall_mutation_chance: 0, ..options };
    apply_mutations(&GaContext::default(), &mut population, &options);
    assert_eq!(population.subjects.len(), 4);
}

#[test]
fn reproduction_with_two_offspring_grows_by_twice_the_pairs() {
    let mut population = population_of(&[1, 2, 3, 4]);
    let pairs = sliding_pairs(&vec![0, 1, 2, 3]);
    assert_eq!(pairs, vec![(0, 1), (1, 2), (2, 3)]);
    let plan = vec![vec![TwinsOfFirst], vec![], vec![TwinsOfFirst]];
    apply_reproduction_plan(&GaContext::default(), &mut population, &pairs, &plan);
    assert_eq!(population.subjects.len(), 4 + 2 * 2);
    assert_eq!(fitness_of(&population), vec![1, 2, 3, 4, 1, 1, 3, 3]);
}

#[test]
fn twin_offspring_share_the_parent_fitness() {
    let mut population = population_of(&[7, 2]);
    apply_reproduction_plan(&GaContext::default(), &mut population, &vec![(0, 1)], &vec![vec![TwinsOfFirst]]);
    assert_eq!(population.subjects.len(), 4);
    assert_eq!(population.subjects[2].fitness(), population.subjects[0].fitness());
    assert_eq!(population.subjects[3].fitness(), population.subjects[0].fitness());
}

#[test]
fn reproduction_over_all_members_pairs_neighbours() {
    let options = ApplyReproductionOptions {
        selector: SelectAll,
        overall_reproduction_chance: ODDS_ONE,
        reproduction_actions: WeightedActionsSampleOne(vec![WeightedAction { action: TwinsOfFirst, weight: ODDS_ONE }]),
    };
    let mut population = population_of(&[5, 6, 7]);
    apply_reproductions(&GaContext::default(), &mut population, &options);
    assert_eq!(fitness_of(&population), vec![5, 6, 7, 5, 5, 6, 6]);
}

#[test]
fn offspring_lists_in_order() {
    assert_eq!(offspring_of::<u8>(None), Vec::<u8>::new());
    assert_eq!(offspring_of(Some(ReproductionResult::Triple(1, 2, 3))), vec![1, 2, 3]);
    assert_eq!(offspring_of(Some(ReproductionResult::Quad(1, 2, 3, 4))), vec![1, 2, 3, 4]);
    assert_eq!(asexual_reproduction(&Num(3)), Num(3));
}

#[test]
fn sample_one_never_draws_zero_weight() {
    let actions = WeightedActionsSampleOne(vec![('a', 0).into(), ('b', 300_000).into()]);
    for _ in 0..100 {
        assert_eq!(actions.sample_self(), vec!['b']);
    }
}

#[test]
fn sample_all_follows_certain_weights() {
    let actions = WeightedActionsSampleAll(vec![
        WeightedAction { action: 'a', weight: ODDS_ONE },
        WeightedAction { action: 'b', weight: 0 },
        WeightedAction { action: 'c', weight: ODDS_ONE },
    ]);
    for _ in 0..100 {
        assert_eq!(actions.sample_self(), vec!['a', 'c']);
    }
    assert_eq!(actions.sample_gated(&vec![false, true, true]), vec!['b', 'c']);
}

#[test]
fn dedupe_keeping_pool_size_stops_at_the_floor() {
    let mut population = population_of(&[4, 4, 4, 5, 5]);
    population.pool_size = 3;
    DedupeKeepPoolSize::default().dedupe(&mut population);
    assert_eq!(fitness_of(&population), vec![4, 4, 5]);

    let mut population = population_of(&[4, 4, 4, 5, 5]);
    population.pool_size = 1;
    DedupeKeepPoolSize::default().dedupe(&mut population);
    assert_eq!(fitness_of(&population), vec![4, 5]);

    let mut items = population_of(&[4, 4, 4]).subjects;
    dedupe_members_above(&mut items, 10);
    assert_eq!(items.len(), 3);
}
