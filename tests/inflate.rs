use std::sync::Arc;

use simple_ga::ga::fitness::{Fit, Fitness};
use simple_ga::ga::inflate::InflateUntilFull;
use simple_ga::ga::population::Population;
use simple_ga::ga::subject::GaSubject;
use simple_ga::ga::{GaAction, GaContext};

#[derive(Debug, Copy, Clone, Eq, PartialEq, Hash)]
struct TestSubject;

impl Fit<Fitness> for TestSubject {
    fn measure(&self) -> Fitness {
        0
    }
}

impl GaSubject for TestSubject {}

#[test]
fn create_subject_arc() {
    let create_subject: Arc<dyn Fn(&GaContext<()>) -> TestSubject> = Arc::new(|_: &GaContext<()>| TestSubject);
    let foo = create_subject.clone();
    let create_subject: Box<dyn Fn(&GaContext<()>) -> TestSubject> =
        Box::new(move |ctx: &GaContext<()>| create_subject.clone()(ctx));
    let inflate = InflateUntilFull(create_subject);
    let mut population = Population::empty(100);
    inflate.perform_action(&GaContext::default(), &mut population);
    assert_eq!(population.subjects.len(), population.pool_size);
    assert_eq!(foo(&GaContext::default()), TestSubject);
}

#[test]
fn create_subject_box() {
    let create_subject: Box<dyn Fn(&GaContext<()>) -> TestSubject> = Box::new(|_: &GaContext<()>| TestSubject);
    let inflate = InflateUntilFull(create_subject);
    let mut population = Population::empty(100);
    inflate.perform_action(&GaContext::default(), &mut population);
    assert_eq!(population.subjects.len(), population.pool_size);
}

#[test]
fn create_subject_closure() {
    let create_subject: Box<dyn Fn(&GaContext<()>) -> TestSubject> =
        Box::new(|_: &GaContext<()>| -> TestSubject { TestSubject });
    let inflate = InflateUntilFull(create_subject);
    let mut population = Population::empty(100);
    inflate.perform_action(&GaContext::default(), &mut population);
    assert_eq!(population.subjects.len(), population.pool_size);
}

#[test]
fn create_subject_fn_pointer() {
    fn create_subject(_: &GaContext<()>) -> TestSubject {
        TestSubject
    }
    let create_subject: Box<dyn Fn(&GaContext<()>) -> TestSubject> = Box::new(create_subject);
    let inflate = InflateUntilFull(create_subject);
    let mut population = Population::empty(100);
    inflate.perform_action(&GaContext::default(), &mut population);
    assert_eq!(population.subjects.len(), population.pool_size);
}

#[test]
fn inflate_keeps_an_overfull_population() {
    let inflate = InflateUntilFull(|_: &GaContext<()>| TestSubject);
    let mut population = Population::empty(2);
    for _ in 0..3 {
        inflate.fill(&GaContext::default(), &mut population);
        assert_eq!(population.subjects.len(), 2);
    }
    population.pool_size = 1;
    inflate.fill(&GaContext::default(), &mut population);
    assert_eq!(population.subjects.len(), 2);
}

#[test]
fn inflate_counts_new_members_at_target() {
    let inflate = InflateUntilFull(|_: &GaContext<()>| TestSubject);
    let mut population = Population::empty(3);
    assert_eq!(inflate.fill_counting(&GaContext::default(), &mut population, Some(0)), 3);
    population.pool_size = 5;
    assert_eq!(inflate.fill_counting(&GaContext::default(), &mut population, Some(1)), 0);
    assert_eq!(population.subjects.len(), 5);
}
