//! The reproduction stage: neighbouring members of a selected breeding pool
//! are paired and produce offspring through sampled operators.
use std::marker::PhantomData;

use vstd::prelude::*;

use crate::ga::fitness::{Fitness, FitnessWrapped};
use crate::ga::mutation::plan_total;
use crate::ga::population::Population;
use crate::ga::select::SelectOther;
use crate::ga::subject::GaSubject;
use crate::ga::{GaAction, GaContext, SampleSelf};
use crate::util::{coin_flip, Odds, ODDS_ONE};

verus! {

/// An offspring that is a copy of its single parent.
pub fn asexual_reproduction<Subject: Clone>(subject: &Subject) -> (r: Subject)
    ensures
        cloned(*subject, r),
{
    subject.clone()
}

/// One to four offspring of a pairing.
#[derive(Debug, Clone)]
pub enum ReproductionResult<T> {
    Single(T),
    Double(T, T),
    Triple(T, T, T),
    Quad(T, T, T, T),
}

/// The offspring that a pairing's result lists, in order.
pub open spec fn offspring_seq<T>(result: Option<ReproductionResult<T>>) -> Seq<T> {
    match result {
        None => seq![],
        Some(ReproductionResult::Single(a)) => seq![a],
        Some(ReproductionResult::Double(a, b)) => seq![a, b],
        Some(ReproductionResult::Triple(a, b, c)) => seq![a, b, c],
        Some(ReproductionResult::Quad(a, b, c, d)) => seq![a, b, c, d],
    }
}

/// The offspring of a pairing's result as a list.
pub fn offspring_of<T>(result: Option<ReproductionResult<T>>) -> (r: Vec<T>)
    ensures
        r@ == offspring_seq(result),
        r.len() <= 4,
{
    match result {
        None => Vec::new(),
        Some(ReproductionResult::Single(a)) => vec![a],
        Some(ReproductionResult::Double(a, b)) => vec![a, b],
        Some(ReproductionResult::Triple(a, b, c)) => vec![a, b, c],
        Some(ReproductionResult::Quad(a, b, c, d)) => vec![a, b, c, d],
    }
}

/// A reproduction operator: maps two parents to zero to four offspring.
/// It reads its parents and must not change them.
pub trait ApplyReproduction<Data> {
    type Subject: GaSubject;

    fn apply(
        &self,
        context: &GaContext<Data>,
        subject_a: &Self::Subject,
        subject_b: &Self::Subject,
    ) -> Option<ReproductionResult<Self::Subject>>;

    fn fitness(subject: &Self::Subject) -> Fitness;
}

/// The reproduction stage's settings.
#[derive(Debug, Clone, Default)]
pub struct ApplyReproductionOptions<Actions, Selector> {
    /// picks the breeding pool, as positions of the population
    pub selector: Selector,
    pub overall_reproduction_chance: Odds,
    pub reproduction_actions: Actions,
}

/// The overlapping neighbour pairs of a pool: `(pool[i], pool[i + 1])`.
pub fn sliding_pairs(pool: &Vec<usize>) -> (r: Vec<(usize, usize)>)
    ensures
        r.len() == if pool.len() > 0 {
            pool.len() - 1
        } else {
            0
        },
        forall|i: int| 0 <= i < r.len() ==> #[trigger] r[i] == (pool[i], pool[i + 1]),
{
    let mut r: Vec<(usize, usize)> = Vec::new();
    if pool.len() == 0 {
        return r;
    }
    let mut i: usize = 0;
    while i + 1 < pool.len()
        invariant
            pool.len() > 0,
            i < pool.len(),
            r.len() == i,
            forall|k: int| 0 <= k < i ==> #[trigger] r[k] == (pool[k], pool[k + 1]),
        decreases pool.len() - i,
    {
        r.push((pool[i], pool[i + 1]));
        i = i + 1;
    }
    r
}

/// What a reproduction pass may leave: the members and target size are
/// kept, and offspring are only appended.
pub open spec fn reproduction_keeps<Subject>(before: Population<Subject>, after: Population<Subject>) -> bool {
    &&& after.pool_size == before.pool_size
    &&& after.subjects.len() >= before.subjects.len()
    &&& after.subjects@.subrange(0, before.subjects.len() as int) == before.subjects@
}

/// An offspring wrapped with the fitness that the reproduction operators give it.
pub open spec fn offspring_wrapped<Subject, Reproducer: ApplyReproduction<Data, Subject = Subject>, Data>(
    e: FitnessWrapped<Subject>,
) -> bool {
    call_ensures(Reproducer::fitness, (&e.spec_subject(),), e.spec_fitness())
}

/// Appends the offspring of `result`, in order, each wrapped with the
/// operators' fitness; returns how many there were.
pub fn append_offspring<Subject, Reproducer: ApplyReproduction<Data, Subject = Subject>, Data>(
    appended: &mut Vec<FitnessWrapped<Subject>>,
    result: Option<ReproductionResult<Subject>>,
) -> (n: usize)
    ensures
        n == offspring_seq(result).len(),
        final(appended).len() == old(appended).len() + n,
        final(appended)@.subrange(0, old(appended).len() as int) == old(appended)@,
        forall|k: int|
            0 <= k < n ==> (#[trigger] final(appended)[old(appended).len() + k]).spec_subject() == offspring_seq(result)[k]
                && offspring_wrapped::<Subject, Reproducer, Data>(final(appended)[old(appended).len() + k]),
{
    let ghost start = appended@;
    let ghost all = offspring_seq(result);
    let mut offspring = offspring_of(result);
    let n = offspring.len();
    let mut done: usize = 0;
    while offspring.len() > 0
        invariant
            n == all.len(),
            n <= 4,
            done + offspring.len() == n,
            offspring@ == all.subrange(done as int, n as int),
            appended.len() == start.len() + done,
            appended@.subrange(0, start.len() as int) == start,
            forall|k: int|
                0 <= k < done ==> (#[trigger] appended[start.len() + k]).spec_subject() == all[k]
                    && offspring_wrapped::<Subject, Reproducer, Data>(appended[start.len() + k]),
        decreases offspring.len(),
    {
        let ghost rest = offspring@;
        let child = offspring.remove(0);
        assert(child == all[done as int]);
        assert(offspring@ =~= all.subrange(done as int + 1, n as int));
        let fitness = Reproducer::fitness(&child);
        let ghost before = appended@;
        appended.push(FitnessWrapped::new(child, fitness));
        assert(appended@.subrange(0, start.len() as int) =~= before.subrange(0, start.len() as int));
        assert forall|k: int|
            0 <= k < done + 1 implies (#[trigger] appended[start.len() + k]).spec_subject() == all[k]
                && offspring_wrapped::<Subject, Reproducer, Data>(appended[start.len() + k]) by {
            if k < done {
                assert(appended[start.len() + k] == before[start.len() + k]);
            }
        }
        done = done + 1;
    }
    n
}

/// The offspring of a list of operator results, joined in order.
pub open spec fn offspring_joined<Subject>(results: Seq<Option<ReproductionResult<Subject>>>) -> Seq<Subject>
    decreases results.len(),
{
    if results.len() == 0 {
        Seq::empty()
    } else {
        offspring_joined(results.drop_last()) + offspring_seq(results.last())
    }
}

/// The offspring of all pairs' results, pair after pair.
pub open spec fn offspring_of_pairs<Subject>(results: Seq<Seq<Option<ReproductionResult<Subject>>>>) -> Seq<Subject>
    decreases results.len(),
{
    if results.len() == 0 {
        Seq::empty()
    } else {
        offspring_of_pairs(results.drop_last()) + offspring_joined(results.last())
    }
}

/// `results[w][j]` is what operator `plan[w][j]` returned when given the
/// parents `pairs[w]` of `members` in `context`.
pub open spec fn calls_made<Subject, Reproducer: ApplyReproduction<Data, Subject = Subject>, Data>(
    context: GaContext<Data>,
    members: Seq<FitnessWrapped<Subject>>,
    pairs: Seq<(usize, usize)>,
    plan: Seq<Vec<Reproducer>>,
    results: Seq<Seq<Option<ReproductionResult<Subject>>>>,
) -> bool {
    &&& results.len() == plan.len()
    &&& forall|w: int| 0 <= w < plan.len() ==> #[trigger] results[w].len() == plan[w].len()
    &&& forall|w: int, j: int|
        0 <= w < plan.len() && 0 <= j < plan[w].len() ==> call_ensures(
            Reproducer::apply,
            (
                &plan[w][j],
                &context,
                &members[pairs[w].0 as int].spec_subject(),
                &members[pairs[w].1 as int].spec_subject(),
            ),
            #[trigger] results[w][j],
        )
}

/// What applying reproduction operators left: the members and target size
/// kept, followed by every offspring that the calls returned, in order, each
/// wrapped with the operators' fitness.
pub open spec fn reproduction_applied<Subject, Reproducer: ApplyReproduction<Data, Subject = Subject>, Data>(
    context: GaContext<Data>,
    before: Population<Subject>,
    after: Population<Subject>,
    pairs: Seq<(usize, usize)>,
    plan: Seq<Vec<Reproducer>>,
    results: Seq<Seq<Option<ReproductionResult<Subject>>>>,
) -> bool {
    &&& reproduction_keeps(before, after)
    &&& calls_made::<Subject, Reproducer, Data>(context, before.subjects@, pairs, plan, results)
    &&& after.subjects.len() == before.subjects.len() + offspring_of_pairs(results).len()
    &&& forall|k: int|
        0 <= k < offspring_of_pairs(results).len() ==> (#[trigger] after.subjects[before.subjects.len() + k]).spec_subject()
            == offspring_of_pairs(results)[k] && offspring_wrapped::<Subject, Reproducer, Data>(
            after.subjects[before.subjects.len() + k],
        )
}

/// The number of operator calls that a list of per-pair results records.
pub open spec fn call_count<T>(results: Seq<Seq<T>>) -> nat
    decreases results.len(),
{
    if results.len() == 0 {
        0
    } else {
        call_count(results.drop_last()) + results.last().len()
    }
}

proof fn lemma_joined_two_each<Subject>(results: Seq<Option<ReproductionResult<Subject>>>)
    requires
        forall|j: int| 0 <= j < results.len() ==> offspring_seq(#[trigger] results[j]).len() == 2,
    ensures
        offspring_joined(results).len() == 2 * results.len(),
    decreases results.len(),
{
    if results.len() > 0 {
        lemma_joined_two_each(results.drop_last());
        assert(offspring_seq(results[results.len() - 1]).len() == 2);
    }
}

/// When every call of the operators returns exactly two offspring, a
/// reproduction pass appends twice as many members as it made calls.
pub proof fn lemma_double_operators<Subject, Reproducer: ApplyReproduction<Data, Subject = Subject>, Data>(
    context: GaContext<Data>,
    members: Seq<FitnessWrapped<Subject>>,
    pairs: Seq<(usize, usize)>,
    plan: Seq<Vec<Reproducer>>,
    results: Seq<Seq<Option<ReproductionResult<Subject>>>>,
)
    requires
        forall|op: Reproducer, a: Subject, b: Subject, result: Option<ReproductionResult<Subject>>|
            #[trigger] call_ensures(Reproducer::apply, (&op, &context, &a, &b), result) ==> offspring_seq(result).len()
                == 2,
        calls_made::<Subject, Reproducer, Data>(context, members, pairs, plan, results),
    ensures
        offspring_of_pairs(results).len() == 2 * call_count(results),
    decreases results.len(),
{
    if results.len() > 0 {
        let w = results.len() - 1;
        assert forall|j: int| 0 <= j < results[w].len() implies offspring_seq(#[trigger] results[w][j]).len() == 2 by {
            assert(results[w].len() == plan[w].len());
            assert(call_ensures(
                Reproducer::apply,
                (
                    &plan[w][j],
                    &context,
                    &members[pairs[w].0 as int].spec_subject(),
                    &members[pairs[w].1 as int].spec_subject(),
                ),
                results[w][j],
            ));
        }
        lemma_joined_two_each(results[w]);
        let rest = results.drop_last();
        let plan_rest = plan.drop_last();
        assert forall|v: int| 0 <= v < plan_rest.len() implies #[trigger] rest[v].len() == plan_rest[v].len() by {
            assert(results[v].len() == plan[v].len());
        }
        assert forall|v: int, j: int| 0 <= v < plan_rest.len() && 0 <= j < plan_rest[v].len() implies call_ensures(
            Reproducer::apply,
            (
                &plan_rest[v][j],
                &context,
                &members[pairs[v].0 as int].spec_subject(),
                &members[pairs[v].1 as int].spec_subject(),
            ),
            #[trigger] rest[v][j],
        ) by {
            assert(rest[v] == results[v]);
            assert(plan_rest[v] == plan[v]);
        }
        lemma_double_operators::<Subject, Reproducer, Data>(context, members, pairs, plan_rest, rest);
    }
}

/// The positions `0..n` of a population of `n` members.
pub open spec fn positions_upto(n: nat) -> Seq<usize> {
    Seq::new(n, |i: int| i as usize)
}

/// The selected positions that lie inside a population of `n` members, in order.
pub open spec fn pool_within(selected: Seq<usize>, n: int) -> Seq<usize>
    decreases selected.len(),
{
    if selected.len() == 0 {
        selected
    } else if (selected.last() as int) < n {
        pool_within(selected.drop_last(), n).push(selected.last())
    } else {
        pool_within(selected.drop_last(), n)
    }
}

proof fn lemma_joined_twins<Subject>(results: Seq<Option<ReproductionResult<Subject>>>, x: Subject)
    requires
        forall|j: int| 0 <= j < results.len() ==> #[trigger] results[j] == Some(ReproductionResult::Double(x, x)),
    ensures
        offspring_joined(results) =~= Seq::new(2 * results.len(), |i: int| x),
    decreases results.len(),
{
    if results.len() > 0 {
        lemma_joined_twins(results.drop_last(), x);
        assert(results[results.len() - 1] == Some(ReproductionResult::Double(x, x)));
    }
}

/// When every operator call returns its first parent twice, the offspring
/// of each pair are copies of that pair's first parent, two per call; and
/// when the operators' fitness gives one value per subject, every such copy
/// carries the fitness of a parent wrapped with it.
pub proof fn lemma_twins_of_first<Subject, Reproducer: ApplyReproduction<Data, Subject = Subject>, Data>(
    context: GaContext<Data>,
    before: Population<Subject>,
    after: Population<Subject>,
    pairs: Seq<(usize, usize)>,
    plan: Seq<Vec<Reproducer>>,
    results: Seq<Seq<Option<ReproductionResult<Subject>>>>,
)
    requires
        forall|op: Reproducer, a: Subject, b: Subject, result: Option<ReproductionResult<Subject>>|
            #[trigger] call_ensures(Reproducer::apply, (&op, &context, &a, &b), result) ==> result == Some(
                ReproductionResult::Double(a, a),
            ),
        reproduction_applied::<Subject, Reproducer, Data>(context, before, after, pairs, plan, results),
    ensures
        forall|w: int|
            0 <= w < results.len() ==> offspring_joined(#[trigger] results[w]) =~= Seq::new(
                2 * results[w].len(),
                |i: int| before.subjects[pairs[w].0 as int].spec_subject(),
            ),
        (forall|x: Subject, f1: Fitness, f2: Fitness|
            #[trigger] call_ensures(Reproducer::fitness, (&x,), f1) && #[trigger] call_ensures(Reproducer::fitness, (&x,), f2)
                ==> f1 == f2) ==> forall|k: int, p: FitnessWrapped<Subject>|
            before.subjects.len() <= k < after.subjects.len() && #[trigger] offspring_wrapped::<Subject, Reproducer, Data>(p)
                && p.spec_subject() == (#[trigger] after.subjects[k]).spec_subject() ==> after.subjects[k].spec_fitness()
                == p.spec_fitness(),
{
    assert forall|w: int| 0 <= w < results.len() implies offspring_joined(#[trigger] results[w]) =~= Seq::new(
        2 * results[w].len(),
        |i: int| before.subjects[pairs[w].0 as int].spec_subject(),
    ) by {
        let x = before.subjects[pairs[w].0 as int].spec_subject();
        assert forall|j: int| 0 <= j < results[w].len() implies #[trigger] results[w][j] == Some(
            ReproductionResult::Double(x, x),
        ) by {
            assert(results[w].len() == plan[w].len());
            assert(call_ensures(
                Reproducer::apply,
                (&plan[w][j], &context, &x, &before.subjects[pairs[w].1 as int].spec_subject()),
                results[w][j],
            ));
        }
        lemma_joined_twins(results[w], x);
    }
    if forall|x: Subject, f1: Fitness, f2: Fitness|
        #[trigger] call_ensures(Reproducer::fitness, (&x,), f1) && #[trigger] call_ensures(Reproducer::fitness, (&x,), f2) ==> f1
            == f2 {
        assert forall|k: int, p: FitnessWrapped<Subject>|
            before.subjects.len() <= k < after.subjects.len() && #[trigger] offspring_wrapped::<Subject, Reproducer, Data>(p)
                && p.spec_subject() == (#[trigger] after.subjects[k]).spec_subject() implies after.subjects[k].spec_fitness()
            == p.spec_fitness() by {
            let i = k - before.subjects.len();
            assert(after.subjects[before.subjects.len() + i] == after.subjects[k]);
            assert(offspring_wrapped::<Subject, Reproducer, Data>(after.subjects[k]));
        }
    }
}

/// The overlapping neighbour pairs of a pool: `(pool[i], pool[i + 1])`.
pub open spec fn neighbour_pairs(pool: Seq<usize>) -> Seq<(usize, usize)> {
    Seq::new(pair_count(pool.len() as int) as nat, |i: int| (pool[i], pool[i + 1]))
}

proof fn lemma_no_calls_no_offspring<Subject>(results: Seq<Seq<Option<ReproductionResult<Subject>>>>)
    requires
        forall|w: int| 0 <= w < results.len() ==> #[trigger] results[w].len() == 0,
    ensures
        offspring_of_pairs(results).len() == 0,
    decreases results.len(),
{
    if results.len() > 0 {
        assert(results[results.len() - 1].len() == 0);
        assert(offspring_joined(results.last()) =~= Seq::<Subject>::empty());
        lemma_no_calls_no_offspring(results.drop_last());
    }
}

/// The number of neighbour pairs in a pool.
pub open spec fn pair_count(len: int) -> int {
    if len > 0 {
        len - 1
    } else {
        0
    }
}

/// For each pair `pairs[w]`, applies the operators that `plan[w]` lists to
/// the two parents and appends every offspring, measured, after the members.
pub fn apply_reproduction_plan<Subject, Reproducer: ApplyReproduction<Data, Subject = Subject>, Data>(
    context: &GaContext<Data>,
    population: &mut Population<Subject>,
    pairs: &Vec<(usize, usize)>,
    plan: &Vec<Vec<Reproducer>>,
)
    requires
        pairs.len() == plan.len(),
        forall|w: int|
            0 <= w < pairs.len() ==> #[trigger] pairs[w].0 < old(population).subjects.len()
                && pairs[w].1 < old(population).subjects.len(),
    ensures
        exists|results: Seq<Seq<Option<ReproductionResult<Subject>>>>|
            reproduction_applied::<Subject, Reproducer, Data>(
                *context,
                *old(population),
                *final(population),
                pairs@,
                plan@,
                results,
            ),
{
    let ghost orig = population.subjects@;
    let ghost mut results: Seq<Seq<Option<ReproductionResult<Subject>>>> = Seq::empty();
    let mut appended: Vec<FitnessWrapped<Subject>> = Vec::new();
    let mut w: usize = 0;
    while w < pairs.len()
        invariant
            pairs.len() == plan.len(),
            w <= pairs.len(),
            population == old(population),
            orig == population.subjects@,
            forall|v: int|
                0 <= v < pairs.len() ==> #[trigger] pairs[v].0 < population.subjects.len()
                    && pairs[v].1 < population.subjects.len(),
            calls_made::<Subject, Reproducer, Data>(*context, orig, pairs@, plan@.subrange(0, w as int), results),
            appended.len() == offspring_of_pairs(results).len(),
            forall|k: int|
                0 <= k < appended.len() ==> (#[trigger] appended[k]).spec_subject() == offspring_of_pairs(results)[k]
                    && offspring_wrapped::<Subject, Reproducer, Data>(appended[k]),
        decreases pairs.len() - w,
    {
        let (a, b) = pairs[w];
        let ops = &plan[w];
        let mut j: usize = 0;
        let ghost done = offspring_of_pairs(results);
        let ghost mut cur: Seq<Option<ReproductionResult<Subject>>> = Seq::empty();
        while j < ops.len()
            invariant
                *ops == plan[w as int],
                j <= ops.len(),
                a as int == pairs[w as int].0,
                b as int == pairs[w as int].1,
                a < population.subjects.len(),
                b < population.subjects.len(),
                population == old(population),
                orig == population.subjects@,
                cur.len() == j,
                forall|i: int|
                    0 <= i < j ==> call_ensures(
                        Reproducer::apply,
                        (&ops[i], context, &orig[a as int].spec_subject(), &orig[b as int].spec_subject()),
                        #[trigger] cur[i],
                    ),
                appended.len() == done.len() + offspring_joined(cur).len(),
                forall|k: int|
                    0 <= k < appended.len() ==> (#[trigger] appended[k]).spec_subject() == (done + offspring_joined(
                        cur,
                    ))[k] && offspring_wrapped::<Subject, Reproducer, Data>(appended[k]),
            decreases ops.len() - j,
        {
            let parent_a = population.subjects[a].subject();
            let parent_b = population.subjects[b].subject();
            let result = ops[j].apply(context, parent_a, parent_b);
            assert(call_ensures(Reproducer::apply, (&ops[j as int], context, parent_a, parent_b), result));
            let ghost before = appended@;
            let ghost joined = done + offspring_joined(cur);
            append_offspring::<Subject, Reproducer, Data>(&mut appended, result);
            proof {
                let next = cur.push(result);
                assert(next.drop_last() =~= cur);
                assert(offspring_joined(next) == offspring_joined(cur) + offspring_seq(result));
                assert(done + offspring_joined(next) =~= joined + offspring_seq(result));
                assert forall|k: int| 0 <= k < appended.len() implies (#[trigger] appended[k]).spec_subject() == (done
                    + offspring_joined(next))[k] && offspring_wrapped::<Subject, Reproducer, Data>(appended[k]) by {
                    if k < before.len() {
                        assert(appended@.subrange(0, before.len() as int)[k] == before[k]);
                    } else {
                        assert(appended[before.len() + (k - before.len())] == appended[k]);
                    }
                }
                cur = next;
            }
            j = j + 1;
        }
        proof {
            let next = results.push(cur);
            assert(next.drop_last() =~= results);
            assert(offspring_of_pairs(next) =~= done + offspring_joined(cur));
            let prefix = plan@.subrange(0, w as int + 1);
            assert forall|v: int| 0 <= v < prefix.len() implies #[trigger] next[v].len() == prefix[v].len() by {
                if v < w {
                    assert(next[v] == results[v]);
                    assert(prefix[v] == plan@.subrange(0, w as int)[v]);
                }
            }
            assert forall|v: int, i: int| 0 <= v < prefix.len() && 0 <= i < prefix[v].len() implies call_ensures(
                Reproducer::apply,
                (
                    &prefix[v][i],
                    context,
                    &orig[pairs@[v].0 as int].spec_subject(),
                    &orig[pairs@[v].1 as int].spec_subject(),
                ),
                #[trigger] next[v][i],
            ) by {
                if v < w {
                    assert(next[v] == results[v]);
                    assert(prefix[v] == plan@.subrange(0, w as int)[v]);
                } else {
                    assert(next[v] == cur);
                    assert(prefix[v] == plan[w as int]);
                }
            }
            results = next;
        }
        w = w + 1;
    }
    proof {
        assert(plan@.subrange(0, pairs.len() as int) =~= plan@);
    }
    let ghost tail = appended@;
    population.subjects.append(&mut appended);
    assert(population.subjects@.subrange(0, orig.len() as int) =~= orig);
    assert forall|k: int|
        0 <= k < offspring_of_pairs(results).len() implies (#[trigger] population.subjects[orig.len() + k]).spec_subject()
            == offspring_of_pairs(results)[k] && offspring_wrapped::<Subject, Reproducer, Data>(
            population.subjects[orig.len() + k],
        ) by {
        assert(population.subjects[orig.len() + k] == tail[k]);
    }
    assert(reproduction_applied::<Subject, Reproducer, Data>(
        *context,
        *old(population),
        *population,
        pairs@,
        plan@,
        results,
    ));
}

/// What a reproduction pass with `options` may leave: the members and
/// target size kept; the selector's pool over the positions; one plan entry
/// per neighbour pair of the pool, each empty (coin not up) or a sample of the
/// operators, all of them samples when the chance is one; every call made on
/// that pair's parents and its offspring appended, as `reproduction_applied`
/// says; nothing changed when the chance is zero or the pool is too short.
pub open spec fn reproductions_done<
    Subject,
    Reproducer: ApplyReproduction<Data, Subject = Subject>,
    Selector: SelectOther<usize, Output = Vec<usize>>,
    Actions: SampleSelf<Output = Vec<Reproducer>>,
    Data,
>(
    context: GaContext<Data>,
    options: ApplyReproductionOptions<Actions, Selector>,
    before: Population<Subject>,
    after: Population<Subject>,
) -> bool {
    &&& reproduction_keeps(before, after)
    &&& options.overall_reproduction_chance == 0 ==> after.subjects@ == before.subjects@
    &&& exists|selected: Vec<usize>, plan: Seq<Vec<Reproducer>>, results: Seq<Seq<Option<ReproductionResult<Subject>>>>|
        {
            &&& options.selector.selects(positions_upto(before.subjects.len() as nat), selected)
            &&& plan.len() == pair_count(pool_within(selected@, before.subjects.len() as int).len() as int)
            &&& forall|v: int|
                0 <= v < plan.len() ==> #[trigger] plan[v].len() == 0 || options.reproduction_actions.samples(plan[v])
            &&& options.overall_reproduction_chance == ODDS_ONE ==> forall|v: int|
                0 <= v < plan.len() ==> options.reproduction_actions.samples(#[trigger] plan[v])
            &&& reproduction_applied::<Subject, Reproducer, Data>(
                context,
                before,
                after,
                neighbour_pairs(pool_within(selected@, before.subjects.len() as int)),
                plan,
                results,
            )
            &&& pool_within(selected@, before.subjects.len() as int).len() < 2 ==> after.subjects@
                == before.subjects@
        }
}

/// Selects a breeding pool with the selector and pairs its neighbours; flips
/// a coin with the overall chance for each pair, and for each pair whose
/// coin came up samples the operators to apply; then applies them.
pub fn apply_reproductions<
    Subject,
    Reproducer: ApplyReproduction<Data, Subject = Subject>,
    Selector: SelectOther<usize, Output = Vec<usize>>,
    Actions: SampleSelf<Output = Vec<Reproducer>>,
    Data,
>(
    context: &GaContext<Data>,
    population: &mut Population<Subject>,
    options: &ApplyReproductionOptions<Actions, Selector>,
)
    requires
        options.overall_reproduction_chance <= ODDS_ONE,
        options.reproduction_actions.can_sample(),
    ensures
        reproductions_done::<Subject, Reproducer, Selector, Actions, Data>(*context, *options, *old(population), *final(population)),
{
    let n = population.subjects.len();
    let mut positions: Vec<usize> = Vec::new();
    let mut i: usize = 0;
    while i < n
        invariant
            i <= n,
            positions.len() == i,
            forall|m: int| 0 <= m < i ==> #[trigger] positions[m] == m,
        decreases n - i,
    {
        positions.push(i);
        i = i + 1;
    }
    assert(positions@ =~= positions_upto(n as nat));
    let selected = options.selector.select_from(positions);
    let mut pool: Vec<usize> = Vec::new();
    let mut k: usize = 0;
    while k < selected.len()
        invariant
            k <= selected.len(),
            forall|m: int| 0 <= m < pool.len() ==> #[trigger] pool[m] < n,
            pool@ == pool_within(selected@.subrange(0, k as int), n as int),
        decreases selected.len() - k,
    {
        assert(selected@.subrange(0, k as int + 1).drop_last() =~= selected@.subrange(0, k as int));
        if selected[k] < n {
            pool.push(selected[k]);
        }
        k = k + 1;
    }
    assert(selected@.subrange(0, selected.len() as int) =~= selected@);
    let pairs = sliding_pairs(&pool);
    let mut plan: Vec<Vec<Reproducer>> = Vec::new();
    let mut w: usize = 0;
    while w < pairs.len()
        invariant
            w <= pairs.len(),
            plan.len() == w,
            options.overall_reproduction_chance <= ODDS_ONE,
            options.reproduction_actions.can_sample(),
            options.overall_reproduction_chance == 0 ==> forall|v: int| 0 <= v < w ==> #[trigger] plan[v].len() == 0,
            forall|v: int| 0 <= v < w ==> #[trigger] plan[v].len() == 0 || options.reproduction_actions.samples(plan[v]),
            options.overall_reproduction_chance == ODDS_ONE ==> forall|v: int| 0 <= v < w ==> options.reproduction_actions.samples(#[trigger] plan[v]),
        decreases pairs.len() - w,
    {
        if coin_flip(options.overall_reproduction_chance) {
            plan.push(options.reproduction_actions.sample_self());
        } else {
            plan.push(Vec::new());
        }
        w = w + 1;
    }
    proof {
        if options.overall_reproduction_chance == 0 {
            crate::ga::mutation::lemma_plan_total_empty(plan@);
        }
        assert forall|v: int| 0 <= v < pairs.len() implies #[trigger] pairs[v].0 < n && pairs[v].1 < n by {
            assert(pairs[v] == (pool[v], pool[v + 1]));
        }
    }
    let ghost orig = population.subjects@;
    assert(pairs@ =~= neighbour_pairs(pool@));
    let ghost before_pop = *population;
    apply_reproduction_plan(context, population, &pairs, &plan);
    proof {
        let results = choose|results: Seq<Seq<Option<ReproductionResult<Subject>>>>|
            reproduction_applied::<Subject, Reproducer, Data>(*context, before_pop, *population, pairs@, plan@, results);
        if options.overall_reproduction_chance == 0 || pool.len() < 2 {
            assert forall|v: int| 0 <= v < results.len() implies #[trigger] results[v].len() == 0 by {
                assert(results[v].len() == plan@[v].len());
            }
            lemma_no_calls_no_offspring(results);
            assert(population.subjects@ =~= population.subjects@.subrange(0, orig.len() as int));
        }
        assert(reproduction_applied::<Subject, Reproducer, Data>(
            *context,
            before_pop,
            *population,
            neighbour_pairs(pool_within(selected@, orig.len() as int)),
            plan@,
            results,
        ));
    }
}

/// The reproduction stage as a pipeline stage.
pub struct GenericReproducer<Reproducer, Selector, Subject, Actions> {
    _marker: PhantomData<Subject>,
    _reproducer: PhantomData<Reproducer>,
    options: ApplyReproductionOptions<Actions, Selector>,
}

impl<Reproducer, Selector, Subject, Actions> GenericReproducer<Reproducer, Selector, Subject, Actions> {
    pub closed spec fn spec_options(&self) -> ApplyReproductionOptions<Actions, Selector> {
        self.options
    }

    pub fn new(options: ApplyReproductionOptions<Actions, Selector>) -> (r: Self)
        ensures
            r.spec_options() == options,
    {
        Self { _marker: PhantomData, _reproducer: PhantomData, options }
    }
}

impl<Reproducer, Selector: Default, Subject, Actions: Default> Default for GenericReproducer<
    Reproducer,
    Selector,
    Subject,
    Actions,
> {
    fn default() -> (r: Self)
        ensures
            r.spec_options().overall_reproduction_chance == 0,
    {
        Self::new(
            ApplyReproductionOptions {
                selector: Selector::default(),
                overall_reproduction_chance: 0,
                reproduction_actions: Actions::default(),
            },
        )
    }
}

impl<Reproducer, Selector, Subject, Actions, Data> GaAction<Data> for GenericReproducer<
    Reproducer,
    Selector,
    Subject,
    Actions,
> where
    Reproducer: ApplyReproduction<Data, Subject = Subject>,
    Selector: SelectOther<usize, Output = Vec<usize>>,
    Actions: SampleSelf<Output = Vec<Reproducer>>,
 {
    type Subject = Subject;

    open spec fn can_perform(&self) -> bool {
        &&& self.spec_options().overall_reproduction_chance <= ODDS_ONE
        &&& self.spec_options().reproduction_actions.can_sample()
    }

    open spec fn performs(&self, context: GaContext<Data>, before: Population<Subject>, after: Population<Subject>) -> bool {
        reproductions_done::<Subject, Reproducer, Selector, Actions, Data>(context, self.spec_options(), before, after)
    }

    fn perform_action(&self, context: &GaContext<Data>, population: &mut Population<Subject>) {
        apply_reproductions(context, population, &self.options);
    }
}

} // verus!
