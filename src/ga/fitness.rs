//! Subjects paired with the fitness measured when they were wrapped.
use vstd::prelude::*;

verus! {

/// A subject's score; which direction is better is fixed per run.
pub type Fitness = i64;

/// Measures a subject's fitness.
pub trait Fit<F> {
    fn measure(&self) -> F;
}

/// A subject together with its fitness, measured once at wrapping time.
#[derive(Debug, Clone, PartialEq, Eq)]
pub struct FitnessWrapped<Subject> {
    fitness: Fitness,
    subject: Subject,
}

impl<Subject> FitnessWrapped<Subject> {
    pub closed spec fn spec_fitness(&self) -> Fitness {
        self.fitness
    }

    pub closed spec fn spec_subject(&self) -> Subject {
        self.subject
    }

    pub fn new(subject: Subject, fitness: Fitness) -> (r: Self)
        ensures
            r.spec_fitness() == fitness,
            r.spec_subject() == subject,
    {
        FitnessWrapped { fitness, subject }
    }

    /// Wraps a subject with the fitness it measures.
    pub fn from_subject(subject: Subject) -> (r: Self) where Subject: Fit<Fitness>
        ensures
            r.spec_subject() == subject,
            call_ensures(Subject::measure, (&subject,), r.spec_fitness()),
    {
        let fitness = subject.measure();
        Self::new(subject, fitness)
    }

    pub fn fitness(&self) -> (r: Fitness)
        ensures
            r == self.spec_fitness(),
    {
        self.fitness
    }

    pub fn subject(&self) -> (r: &Subject)
        ensures
            *r == self.spec_subject(),
    {
        &self.subject
    }
}

/// The member's fitness is what `measure` returned for its subject.
pub open spec fn is_measured<Subject: Fit<Fitness>>(e: FitnessWrapped<Subject>) -> bool {
    call_ensures(Subject::measure, (&e.spec_subject(),), e.spec_fitness())
}

impl<T> Fit<Fitness> for FitnessWrapped<T> {
    fn measure(&self) -> Fitness {
        self.fitness
    }
}

} // verus!
