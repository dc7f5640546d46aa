//! The generation iterator: the convergence state machine that sorts,
//! judges the best member, and runs the pipeline once per step.
use std::ops::Range;

use vstd::prelude::*;

use crate::ga::fitness::{Fitness, FitnessWrapped};
use crate::ga::population::{sorted_by_fitness, Population};
use crate::ga::{GaAction, GaContext, GeneticAlgorithmOptions};

verus! {

broadcast use vstd::seq_lib::group_to_multiset_ensures;

/// The iterator's settings.
#[derive(Debug, Clone)]
pub struct GaIterOptions<DebugPrint> {
    /// called with the best subject when it improves and when the run ends
    pub debug_print: Option<DebugPrint>,
}

impl<DebugPrint> Default for GaIterOptions<DebugPrint> {
    fn default() -> (r: Self)
        ensures
            r.debug_print is None,
    {
        Self { debug_print: None }
    }
}

/// `f` is a fitness of `items` that no other member beats: the largest when
/// `reverse`, else the smallest.
pub open spec fn is_best_fitness<Subject>(items: Seq<FitnessWrapped<Subject>>, f: Fitness, reverse: bool) -> bool {
    &&& exists|i: int| 0 <= i < items.len() && #[trigger] items[i].spec_fitness() == f
    &&& forall|j: int|
        0 <= j < items.len() ==> if reverse {
            #[trigger] items[j].spec_fitness() <= f
        } else {
            items[j].spec_fitness() >= f
        }
}

/// The best member's fitness improves on the recorded best: any fitness does
/// when nothing is recorded.
pub open spec fn improves(reverse: bool, current: Option<Fitness>, front: Fitness) -> bool {
    match current {
        None => true,
        Some(c) => if reverse {
            front > c
        } else {
            front < c
        },
    }
}

pub open spec fn in_range(range: Range<Fitness>, f: Fitness) -> bool {
    range.start <= f < range.end
}

/// How a generation step ends.
#[derive(Debug, Copy, Clone, PartialEq, Eq, Structural)]
pub enum GenerationVerdict {
    /// the pipeline ran
    Continue,
    /// the best fitness left the acceptable range
    OutOfRange,
    /// the best fitness equals the target
    TargetReached,
}

/// The verdict on the best member's fitness.
pub open spec fn verdict_of(range: Range<Fitness>, target: Fitness, front: Fitness) -> GenerationVerdict {
    if !in_range(range, front) {
        GenerationVerdict::OutOfRange
    } else if front == target {
        GenerationVerdict::TargetReached
    } else {
        GenerationVerdict::Continue
    }
}

/// The judgement on the best member of a generation.
#[derive(Debug, Copy, Clone, PartialEq, Eq, Structural)]
pub struct FrontJudgement {
    /// the recorded best fitness afterwards
    pub current_fitness: Option<Fitness>,
    /// the best fitness improved, so the new best is reported
    pub improved: bool,
    pub verdict: GenerationVerdict,
}

/// Judges the best member's fitness `front` against the recorded best, the
/// acceptable range and the target.
pub fn judge_front(
    reverse: bool,
    current: Option<Fitness>,
    front: Fitness,
    range: &Range<Fitness>,
    target: Fitness,
) -> (r: FrontJudgement)
    ensures
        r.improved == improves(reverse, current, front),
        r.current_fitness == if r.improved {
            Some(front)
        } else {
            current
        },
        r.verdict == verdict_of(*range, target, front),
{
    let improved = match current {
        None => true,
        Some(c) => if reverse {
            front > c
        } else {
            front < c
        },
    };
    let current_fitness = if improved {
        Some(front)
    } else {
        current
    };
    let verdict = if !(range.start <= front && front < range.end) {
        GenerationVerdict::OutOfRange
    } else if front == target {
        GenerationVerdict::TargetReached
    } else {
        GenerationVerdict::Continue
    };
    FrontJudgement { current_fitness, improved, verdict }
}

/// The direction a run optimises in: higher fitness is better when the
/// initial fitness lies below the target.
pub open spec fn reverse_mode_of<Actions, Data>(options: GeneticAlgorithmOptions<Actions, Data>) -> bool {
    options.fitness_initial_to_target_range.start < options.fitness_initial_to_target_range.end
}

/// The live state of a run.
pub struct GaIterState<Subject, Data> {
    context: GaContext<Data>,
    current_fitness: Option<Fitness>,
    reverse_mode_enabled: Option<bool>,
    pub population: Population<Subject>,
}

impl<Subject, Data> GaIterState<Subject, Data> {
    pub closed spec fn spec_context(&self) -> GaContext<Data> {
        self.context
    }

    pub closed spec fn spec_current_fitness(&self) -> Option<Fitness> {
        self.current_fitness
    }

    pub closed spec fn spec_reverse_mode_enabled(&self) -> Option<bool> {
        self.reverse_mode_enabled
    }

    pub closed spec fn spec_population(&self) -> Population<Subject> {
        self.population
    }

    pub fn new(context: GaContext<Data>, population: Population<Subject>) -> (r: Self)
        ensures
            r.spec_context() == context,
            r.spec_population() == population,
            r.spec_current_fitness() is None,
            r.spec_reverse_mode_enabled() is None,
    {
        Self { population, context, current_fitness: None, reverse_mode_enabled: None }
    }

    pub fn context(&self) -> (r: &GaContext<Data>)
        ensures
            *r == self.spec_context(),
    {
        &self.context
    }

    /// Puts back the generation counter and the recorded best, which only
    /// the iterator changes.
    pub(crate) fn restore_bookkeeping(&mut self, generation: usize, current_fitness: Option<Fitness>)
        ensures
            final(self).spec_context().spec_generation() == generation,
            final(self).spec_current_fitness() == current_fitness,
            final(self).spec_population() == old(self).spec_population(),
            final(self).spec_reverse_mode_enabled() == old(self).spec_reverse_mode_enabled(),
    {
        self.context.set_generation(generation);
        self.current_fitness = current_fitness;
    }

    /// The best fitness recorded so far.
    pub fn current_fitness(&self) -> (r: Option<Fitness>)
        ensures
            r == self.spec_current_fitness(),
    {
        self.current_fitness
    }

    /// The recorded direction, or the one the options imply.
    pub(crate) fn get_or_determine_reverse_mode_from_options<Actions>(
        &self,
        options: &GeneticAlgorithmOptions<Actions, Data>,
    ) -> (r: bool)
        ensures
            r == match self.spec_reverse_mode_enabled() {
                Some(b) => b,
                None => reverse_mode_of(*options),
            },
    {
        match self.reverse_mode_enabled {
            Some(reverse_mode_enabled) => reverse_mode_enabled,
            None => options.initial_fitness() < options.target_fitness(),
        }
    }

    /// Fixes the direction once: the recorded one, or the one the options imply.
    pub(crate) fn get_or_init_reverse_mode_enabled<Actions>(
        &mut self,
        options: &GeneticAlgorithmOptions<Actions, Data>,
    ) -> (r: bool)
        ensures
            r == match old(self).spec_reverse_mode_enabled() {
                Some(b) => b,
                None => reverse_mode_of(*options),
            },
            final(self).spec_reverse_mode_enabled() == Some(r),
            final(self).spec_context() == old(self).spec_context(),
            final(self).spec_current_fitness() == old(self).spec_current_fitness(),
            final(self).spec_population() == old(self).spec_population(),
    {
        match self.reverse_mode_enabled {
            Some(reverse_mode_enabled) => reverse_mode_enabled,
            None => {
                let reverse_mode_enabled = self.get_or_determine_reverse_mode_from_options(options);
                self.reverse_mode_enabled = Some(reverse_mode_enabled);
                reverse_mode_enabled
            },
        }
    }
}

/// The debug callback, where there is one, accepts every subject.
pub open spec fn debug_print_ready<Subject, DebugPrint: Fn(&Subject)>(options: GaIterOptions<DebugPrint>) -> bool {
    options.debug_print matches Some(f) ==> forall|s: &Subject| #[trigger] f.requires((s,))
}

/// The recorded best of successive reports never gets worse, and the last
/// report carries the best recorded now.
pub open spec fn reports_ordered<Subject>(reports: Seq<(Subject, Fitness)>, reverse: bool, current: Option<Fitness>) -> bool {
    &&& forall|i: int, j: int|
        0 <= i < j < reports.len() ==> if reverse {
            reports[i].1 <= reports[j].1
        } else {
            reports[i].1 >= reports[j].1
        }
    &&& reports.len() > 0 ==> current == Some(reports.last().1)
}

/// Where there is a debug callback, it was called with each reported subject.
pub open spec fn reports_printed<Subject, DebugPrint: Fn(&Subject)>(
    reports: Seq<(Subject, Fitness)>,
    options: GaIterOptions<DebugPrint>,
) -> bool {
    options.debug_print matches Some(f) ==> forall|i: int| 0 <= i < reports.len() ==> f.ensures((&#[trigger] reports[i].0,), ())
}

/// `new` is `old` followed by `count` reports that carry the recorded best `best`.
pub open spec fn reports_extended<Subject>(
    old: Seq<(Subject, Fitness)>,
    new: Seq<(Subject, Fitness)>,
    count: int,
    best: Option<Fitness>,
) -> bool {
    &&& new.len() == old.len() + count
    &&& new.subrange(0, old.len() as int) == old
    &&& forall|k: int| old.len() <= k < new.len() ==> Some(#[trigger] new[k].1) == best
}

/// Drives one run: each step sorts, judges the best member, and, unless the
/// run ends there, performs the pipeline once.
pub struct GaIterator<Subject, Actions, Data, DebugPrint> {
    options: GeneticAlgorithmOptions<Actions, Data>,
    state: GaIterState<Subject, Data>,
    is_reverse_mode: bool,
    ga_iter_options: GaIterOptions<DebugPrint>,
    /// each subject handed to the debug callback, with the best fitness
    /// recorded at that moment
    reports: Ghost<Seq<(Subject, Fitness)>>,
}

pub(crate) proof fn lemma_sorted_front_is_best<Subject>(
    before: Seq<FitnessWrapped<Subject>>,
    after: Seq<FitnessWrapped<Subject>>,
    reverse: bool,
)
    requires
        after.to_multiset() == before.to_multiset(),
        sorted_by_fitness(after, reverse),
        after.len() > 0,
    ensures
        is_best_fitness(before, after[0].spec_fitness(), reverse),
        before.len() == after.len(),
{
    assert(before.len() == before.to_multiset().len());
    assert(after.len() == after.to_multiset().len());
    assert(after.to_multiset().count(after[0]) > 0);
    assert(before.to_multiset().count(after[0]) > 0);
    assert(before.contains(after[0]));
    let i = choose|i: int| 0 <= i < before.len() && before[i] == after[0];
    assert(before[i].spec_fitness() == after[0].spec_fitness());
    assert forall|j: int| 0 <= j < before.len() implies if reverse {
        #[trigger] before[j].spec_fitness() <= after[0].spec_fitness()
    } else {
        before[j].spec_fitness() >= after[0].spec_fitness()
    } by {
        assert(before.to_multiset().count(before[j]) > 0);
        assert(after.to_multiset().count(before[j]) > 0);
        assert(after.contains(before[j]));
        let k = choose|k: int| 0 <= k < after.len() && after[k] == before[j];
        if k > 0 {
            assert(sorted_by_fitness(after, reverse));
        }
    }
}

impl<Subject, Actions, Data, DebugPrint: Fn(&Subject)> GaIterator<Subject, Actions, Data, DebugPrint> where
    Actions: GaAction<Data, Subject = Subject>,
 {
    pub closed spec fn spec_options(&self) -> GeneticAlgorithmOptions<Actions, Data> {
        self.options
    }

    pub closed spec fn spec_state(&self) -> GaIterState<Subject, Data> {
        self.state
    }

    pub closed spec fn spec_is_reverse_mode(&self) -> bool {
        self.is_reverse_mode
    }

    pub closed spec fn spec_iter_options(&self) -> GaIterOptions<DebugPrint> {
        self.ga_iter_options
    }

    pub closed spec fn spec_reports(&self) -> Seq<(Subject, Fitness)> {
        self.reports@
    }

    /// The iterator can step: the pipeline can run, the callback accepts
    /// every subject, and the reports so far are in order and end at the
    /// recorded best.
    pub open spec fn ready(&self) -> bool {
        &&& self.spec_options().actions.can_perform()
        &&& debug_print_ready::<Subject, DebugPrint>(self.spec_iter_options())
        &&& reports_ordered(self.spec_reports(), self.spec_is_reverse_mode(), self.spec_state().spec_current_fitness())
        &&& reports_printed(self.spec_reports(), self.spec_iter_options())
    }

    /// An iterator without a debug callback; the direction is fixed here.
    pub fn new(options: GeneticAlgorithmOptions<Actions, Data>, state: GaIterState<Subject, Data>) -> (r: Self)
        ensures
            r.spec_is_reverse_mode() == match state.spec_reverse_mode_enabled() {
                Some(b) => b,
                None => reverse_mode_of(options),
            },
            r.spec_options() == options,
            r.spec_state().spec_context() == state.spec_context(),
            r.spec_state().spec_population() == state.spec_population(),
            r.spec_state().spec_current_fitness() == state.spec_current_fitness(),
            r.spec_iter_options().debug_print is None,
            r.spec_state().spec_reverse_mode_enabled() == Some(r.spec_is_reverse_mode()),
            r.spec_reports().len() == 0,
    {
        let mut state = state;
        let is_reverse_mode = state.get_or_init_reverse_mode_enabled(&options);
        Self {
            ga_iter_options: GaIterOptions { debug_print: None },
            is_reverse_mode,
            options,
            state,
            reports: Ghost(Seq::empty()),
        }
    }

    pub fn new_with_options(
        options: GeneticAlgorithmOptions<Actions, Data>,
        state: GaIterState<Subject, Data>,
        ga_iter_options: GaIterOptions<DebugPrint>,
    ) -> (r: Self)
        ensures
            r.spec_is_reverse_mode() == match state.spec_reverse_mode_enabled() {
                Some(b) => b,
                None => reverse_mode_of(options),
            },
            r.spec_options() == options,
            r.spec_state().spec_context() == state.spec_context(),
            r.spec_state().spec_population() == state.spec_population(),
            r.spec_state().spec_current_fitness() == state.spec_current_fitness(),
            r.spec_iter_options() == ga_iter_options,
            r.spec_state().spec_reverse_mode_enabled() == Some(r.spec_is_reverse_mode()),
            r.spec_reports().len() == 0,
    {
        let mut iter = Self::new(options, state);
        iter.ga_iter_options = ga_iter_options;
        iter
    }

    /// Ends the iteration and hands back its state.
    pub fn into_state(self) -> (r: GaIterState<Subject, Data>)
        ensures
            r == self.spec_state(),
    {
        self.state
    }

    pub fn state(&self) -> (r: &GaIterState<Subject, Data>)
        ensures
            *r == self.spec_state(),
    {
        &self.state
    }

    pub fn state_mut(&mut self) -> (r: &mut GaIterState<Subject, Data>)
        ensures
            *r == old(self).spec_state(),
            *final(r) == final(self).spec_state(),
            final(self).spec_options() == old(self).spec_options(),
            final(self).spec_is_reverse_mode() == old(self).spec_is_reverse_mode(),
            final(self).spec_iter_options() == old(self).spec_iter_options(),
            final(self).spec_reports() == old(self).spec_reports(),
    {
        &mut self.state
    }

    pub fn is_fitness_at_target(&self) -> (r: bool)
        ensures
            r == (self.spec_state().spec_current_fitness() == Some(
                self.spec_options().fitness_initial_to_target_range.end,
            )),
    {
        match self.state.current_fitness {
            Some(f) => f == self.options.target_fitness(),
            None => false,
        }
    }

    pub fn is_fitness_within_range(&self) -> (r: bool)
        ensures
            r == match self.spec_state().spec_current_fitness() {
                None => true,
                Some(f) => in_range(self.spec_options().fitness_range, f),
            },
    {
        match self.state.current_fitness {
            None => true,
            Some(f) => self.options.fitness_range.start <= f && f < self.options.fitness_range.end,
        }
    }

    /// Hands a subject to the debug callback, if there is one.
    pub fn debug_print(&self, subject: &Subject)
        requires
            debug_print_ready::<Subject, DebugPrint>(self.spec_iter_options()),
        ensures
            self.spec_iter_options().debug_print matches Some(f) ==> f.ensures((subject,), ()),
    {
        match &self.ga_iter_options.debug_print {
            Some(f) => {
                f(subject);
            },
            None => {},
        }
    }

    /// What one step leaves: the counter advanced, the best member judged for
    /// the run's direction, and either the population sorted with the run
    /// ended, or the pipeline performed on the sorted population.
    pub open spec fn step_done(old: Self, new: Self, r: (Option<Fitness>, GenerationVerdict)) -> bool {
        &&& new.ready()
        &&& new.spec_options() == old.spec_options()
        &&& new.spec_is_reverse_mode() == old.spec_is_reverse_mode()
        &&& new.spec_iter_options() == old.spec_iter_options()
        &&& new.spec_state().spec_context().spec_generation() == old.spec_state().spec_context().spec_generation() + 1
        &&& new.spec_state().spec_population().pool_size == old.spec_state().spec_population().pool_size
            || r.1 == GenerationVerdict::Continue
        &&& old.spec_state().spec_population().subjects.len() == 0 ==> {
            &&& r.1 == GenerationVerdict::Continue
            &&& new.spec_state().spec_current_fitness() == old.spec_state().spec_current_fitness()
            &&& new.spec_reports() == old.spec_reports()
        }
        &&& old.spec_state().spec_population().subjects.len() > 0 ==> reports_extended(
            old.spec_reports(),
            new.spec_reports(),
            (if new.spec_state().spec_current_fitness() != old.spec_state().spec_current_fitness() {
                1int
            } else {
                0int
            }) + (if r.1 != GenerationVerdict::Continue {
                1int
            } else {
                0int
            }),
            new.spec_state().spec_current_fitness(),
        )
        &&& r.1 != GenerationVerdict::Continue ==> new.spec_reports().last().0
            == new.spec_state().spec_population().subjects[0].spec_subject()
        &&& old.spec_state().spec_population().subjects.len() > 0 ==> exists|front: Fitness|
            {
                &&& is_best_fitness(old.spec_state().spec_population().subjects@, front, old.spec_is_reverse_mode())
                &&& new.spec_state().spec_current_fitness() == if improves(
                    old.spec_is_reverse_mode(),
                    old.spec_state().spec_current_fitness(),
                    front,
                ) {
                    Some(front)
                } else {
                    old.spec_state().spec_current_fitness()
                }
                &&& r.1 == verdict_of(
                    old.spec_options().fitness_range,
                    old.spec_options().fitness_initial_to_target_range.end,
                    front,
                )
            }
        &&& r.1 == GenerationVerdict::Continue ==> r.0 == new.spec_state().spec_current_fitness()
        &&& r.1 != GenerationVerdict::Continue ==> {
            &&& r.0 is None
            &&& new.spec_state().spec_population().subjects.len() > 0
            &&& r.1 == verdict_of(
                old.spec_options().fitness_range,
                old.spec_options().fitness_initial_to_target_range.end,
                new.spec_state().spec_population().subjects[0].spec_fitness(),
            )
            &&& new.spec_state().spec_population().subjects@.to_multiset()
                == old.spec_state().spec_population().subjects@.to_multiset()
            &&& sorted_by_fitness(new.spec_state().spec_population().subjects@, old.spec_is_reverse_mode())
        }
        &&& r.1 == GenerationVerdict::Continue ==> exists|sorted: Population<Subject>|
            #![trigger old.spec_options().actions.performs(new.spec_state().spec_context(), sorted, new.spec_state().spec_population())]
            {
                &&& sorted.pool_size == old.spec_state().spec_population().pool_size
                &&& sorted.subjects@.to_multiset() == old.spec_state().spec_population().subjects@.to_multiset()
                &&& sorted_by_fitness(sorted.subjects@, old.spec_is_reverse_mode())
                &&& old.spec_options().actions.performs(new.spec_state().spec_context(), sorted, new.spec_state().spec_population())
            }
    }

    /// One generation step, with the verdict it ended on.
    pub fn step(&mut self) -> (r: (Option<Fitness>, GenerationVerdict))
        requires
            old(self).ready(),
            old(self).spec_state().spec_context().spec_generation() < usize::MAX,
        ensures
            Self::step_done(*old(self), *final(self), r),
    {
        self.state.context.increment_generation();
        let ghost before = self.state.population.subjects@;
        let ghost mut front_seen: Fitness = 0;
        if self.is_reverse_mode {
            self.state.population.sort_rev();
        } else {
            self.state.population.sort();
        }
        assert(before.to_multiset().len() == before.len());
        assert(self.state.population.subjects@.to_multiset().len() == self.state.population.subjects@.len());
        if self.state.population.subjects.len() > 0 {
            proof {
                lemma_sorted_front_is_best(before, self.state.population.subjects@, self.is_reverse_mode);
            }
            let front = self.state.population.subjects[0].fitness();
            proof {
                front_seen = front;
                assert(is_best_fitness(before, front_seen, self.is_reverse_mode));
            }
            let judgement = judge_front(
                self.is_reverse_mode,
                self.state.current_fitness,
                front,
                &self.options.fitness_range,
                self.options.target_fitness(),
            );
            let ghost old_reports = self.reports@;
            let ghost old_current = self.state.current_fitness;
            self.state.current_fitness = judgement.current_fitness;
            if judgement.improved {
                self.debug_print(self.state.population.subjects[0].subject());
                self.reports = Ghost(self.reports@.push((self.state.population.subjects@[0].spec_subject(), front)));
            }
            proof {
                let n: int = if judgement.improved { 1 } else { 0 };
                assert(self.reports@.subrange(0, old_reports.len() as int) =~= old_reports);
                assert(reports_extended(old_reports, self.reports@, n, self.state.current_fitness));
                assert(judgement.improved <==> self.state.current_fitness != old_current);
            }
            match judgement.verdict {
                GenerationVerdict::Continue => {},
                _ => {
                    self.debug_print(self.state.population.subjects[0].subject());
                    let ghost best = match self.state.current_fitness {
                        Some(c) => c,
                        None => 0,
                    };
                    let ghost mid = self.reports@;
                    self.reports = Ghost(self.reports@.push((self.state.population.subjects@[0].spec_subject(), best)));
                    proof {
                        assert(self.reports@.subrange(0, mid.len() as int) =~= mid);
                        assert(self.reports@.subrange(0, old_reports.len() as int) =~= old_reports);
                    }
                    return (None, judgement.verdict);
                },
            }
        }
        let ghost judged = self.state.current_fitness;
        let ghost sorted = self.state.population;
        self.options.actions.perform_action(&self.state.context, &mut self.state.population);
        assert(self.options.actions.performs(self.state.context, sorted, self.state.population));
        assert(old(self).spec_options().actions.performs(
            self.spec_state().spec_context(),
            sorted,
            self.spec_state().spec_population(),
        ));
        assert(self.state.current_fitness == judged);
        assert(before.len() > 0 ==> is_best_fitness(before, front_seen, self.is_reverse_mode));
        (self.state.current_fitness, GenerationVerdict::Continue)
    }

    /// One generation step: `None` when the run ends here, else the best
    /// fitness so far.
    pub fn next_generation(&mut self) -> (r: Option<Fitness>)
        requires
            old(self).ready(),
            old(self).spec_state().spec_context().spec_generation() < usize::MAX,
        ensures
            exists|verdict: GenerationVerdict| Self::step_done(*old(self), *final(self), (r, verdict)),
            r is Some ==> r == final(self).spec_state().spec_current_fitness(),
    {
        let (r, verdict) = self.step();
        r
    }
}

} // verus!
