use simple_ga::ga::fitness::{Fitness, FitnessWrapped};
use simple_ga::ga::population::Population;
use simple_ga::ga::prune::{PruneExtraBackSkipFirst, PruneSingleBackSkipFirst};
use simple_ga::ga::select::{SelectOther, SelectRandomManyWithBias};
use simple_ga::util::Bias;

fn test_subject(id: u32) -> FitnessWrapped<u32> {
    FitnessWrapped::new(id, id as Fitness)
}

fn make_population(size: usize) -> Population<u32> {
    Population {
        pool_size: size,
        subjects: (0..size as u32).map(test_subject).collect(),
    }
}

#[test]
fn population_test_prune_random() {
    let size = 3;
    let mut population = make_population(size);
    for n in 1..3 {
        population.prune_random(PruneSingleBackSkipFirst);
        assert_eq!(population.subjects.len(), size - n);
    }
}

#[test]
fn test_generic_select() {
    let population = make_population(2);
    for n in 0..=2 {
        let selected = population.select_random(SelectRandomManyWithBias::new(n, Bias::Front));
        assert_eq!(selected.len(), n);
    }
}

#[test]
fn test_select_front() {
    let population = make_population(2);
    for n in 0..=2 {
        let selected = SelectRandomManyWithBias::new(n, Bias::Front).select_from(population.subjects.iter().collect());
        assert_eq!(selected.len(), n);
    }
}

#[test]
fn test_select_back() {
    let population = make_population(2);
    for n in 0..=2 {
        let selected = SelectRandomManyWithBias::new(n, Bias::Back).select_from(population.subjects.iter().collect());
        assert_eq!(selected.len(), n);
    }
}

#[test]
fn test_sort() {
    let mut population = make_population(2);
    population.subjects.insert(0, test_subject(3));
    assert_eq!(population.subjects, vec![test_subject(3), test_subject(0), test_subject(1)]);
    population.sort();
    assert_eq!(population.subjects, vec![test_subject(0), test_subject(1), test_subject(3)]);
}

#[test]
fn test_add() {
    let mut population = make_population(0);
    for n in 1..3 {
        population.add(test_subject(n));
        assert_eq!(population.subjects, (1..=n).map(test_subject).collect::<Vec<_>>());
    }
}

#[test]
fn sort_rev_orders_by_descending_fitness() {
    let mut population = make_population(4);
    population.sort_rev();
    let fitness: Vec<Fitness> = population.subjects.iter().map(|w| w.fitness()).collect();
    assert_eq!(fitness, vec![3, 2, 1, 0]);
}

#[test]
fn scenario_prune_then_sort() {
    let mut population = make_population(10);
    population.prune_random(PruneExtraBackSkipFirst::new(5));
    assert_eq!(population.subjects.len(), 5);
    population.sort();
    let fitness: Vec<Fitness> = population.subjects.iter().map(|w| w.fitness()).collect();
    assert!(fitness.windows(2).all(|w| w[0] <= w[1]));
}

#[test]
fn parallel_sorts_order_by_fitness() {
    let mut population = make_population(50);
    population.par_sort_rev();
    let fitness: Vec<Fitness> = population.subjects.iter().map(|w| w.fitness()).collect();
    assert_eq!(fitness, (0..50).rev().collect::<Vec<Fitness>>());
    population.par_sort();
    let fitness: Vec<Fitness> = population.subjects.iter().map(|w| w.fitness()).collect();
    assert_eq!(fitness, (0..50).collect::<Vec<Fitness>>());
}
