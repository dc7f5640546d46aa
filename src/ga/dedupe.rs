//! Deduplication: members equal in fitness and subject to an earlier member go.
use std::marker::PhantomData;

use vstd::prelude::*;
use vstd::std_specs::cmp::PartialEqSpec;

use crate::ga::fitness::FitnessWrapped;
use crate::ga::population::Population;
use crate::ga::{GaAction, GaContext};
use crate::util::{count_true, is_ordered_pick, picks, take_ordered};

verus! {

/// A strategy that removes duplicates from a collection.
pub trait DedupeOther<T> {
    /// What a call of `dedupe` leaves, given what it started from.
    spec fn dedupes(&self, before: T, after: T) -> bool;

    fn dedupe(&self, items: &mut T)
        ensures
            self.dedupes(*old(items), *final(items)),
    ;
}

/// Two members are duplicates: the same fitness and equal subjects.
pub open spec fn same_entry<Subject: PartialEq>(a: FitnessWrapped<Subject>, b: FitnessWrapped<Subject>) -> bool {
    a.spec_fitness() == b.spec_fitness() && a.spec_subject().eq_spec(&b.spec_subject())
}

/// No member before position `i` duplicates the member at `i`.
pub open spec fn first_occurrence<Subject: PartialEq>(s: Seq<FitnessWrapped<Subject>>, i: int) -> bool {
    forall|j: int| 0 <= j < i ==> !#[trigger] same_entry(s[j], s[i])
}

/// The members that duplicate no earlier member, in order.
pub open spec fn deduped<Subject: PartialEq>(s: Seq<FitnessWrapped<Subject>>) -> Seq<FitnessWrapped<Subject>>
    decreases s.len(),
{
    if s.len() == 0 {
        s
    } else if first_occurrence(s, s.len() - 1) {
        deduped(s.drop_last()).push(s.last())
    } else {
        deduped(s.drop_last())
    }
}

/// For each member, whether it duplicates no earlier member.
fn first_occurrence_flags<Subject: PartialEq>(items: &Vec<FitnessWrapped<Subject>>) -> (r: Vec<bool>)
    ensures
        r.len() == items.len(),
        Subject::obeys_eq_spec() ==> forall|i: int| 0 <= i < r.len() ==> r[i] == first_occurrence(items@, i),
{
    let mut flags: Vec<bool> = Vec::new();
    let mut i: usize = 0;
    while i < items.len()
        invariant
            i <= items.len(),
            flags.len() == i,
            Subject::obeys_eq_spec() ==> forall|k: int| 0 <= k < i ==> flags[k] == first_occurrence(items@, k),
        decreases items.len() - i,
    {
        let mut j: usize = 0;
        let mut duplicate = false;
        while j < i && !duplicate
            invariant
                j <= i < items.len(),
                Subject::obeys_eq_spec() ==> (duplicate <==> exists|k: int|
                    0 <= k < j && #[trigger] same_entry(items@[k], items@[i as int])),
            decreases i - j,
        {
            let same_fitness = items[j].fitness() == items[i].fitness();
            if same_fitness {
                let same_subject = items[j].subject().eq(items[i].subject());
                if same_subject {
                    duplicate = true;
                }
                proof {
                    if Subject::obeys_eq_spec() {
                        assert(same_subject == same_entry(items@[j as int], items@[i as int]));
                    }
                }
            }
            proof {
                if Subject::obeys_eq_spec() && !duplicate {
                    assert(!same_entry(items@[j as int], items@[i as int]));
                    assert forall|k: int| 0 <= k < j + 1 implies !#[trigger] same_entry(items@[k], items@[i as int]) by {
                    }
                }
            }
            j = j + 1;
        }
        proof {
            if Subject::obeys_eq_spec() {
                if duplicate {
                    let k = choose|k: int| 0 <= k < j && #[trigger] same_entry(items@[k], items@[i as int]);
                    assert(!first_occurrence(items@, i as int));
                } else {
                    assert(first_occurrence(items@, i as int));
                }
            }
        }
        flags.push(!duplicate);
        i = i + 1;
    }
    flags
}

/// The positions of the members that duplicate no earlier member, in order.
fn first_occurrence_positions<Subject: PartialEq>(items: &Vec<FitnessWrapped<Subject>>, flags: &Vec<bool>) -> (r: Vec<usize>)
    requires
        flags.len() == items.len(),
        Subject::obeys_eq_spec() ==> forall|i: int| 0 <= i < flags.len() ==> flags[i] == first_occurrence(items@, i),
    ensures
        r.len() == count_true(flags@),
        forall|a: int, b: int| 0 <= a < b < r.len() ==> r[a] < r[b],
        forall|a: int| 0 <= a < r.len() ==> #[trigger] r[a] < items.len() && flags[r[a] as int],
        Subject::obeys_eq_spec() ==> picks(items@, deduped(items@), r@.map_values(|k: usize| k as int)),
{
    let ghost orig = items@;
    let mut ix: Vec<usize> = Vec::new();
    let mut i: usize = 0;
    while i < items.len()
        invariant
            i <= items.len(),
            items@ == orig,
            flags.len() == items.len(),
            Subject::obeys_eq_spec() ==> forall|k: int| 0 <= k < flags.len() ==> flags[k] == first_occurrence(orig, k),
            forall|a: int, b: int| 0 <= a < b < ix.len() ==> ix[a] < ix[b],
            forall|a: int| 0 <= a < ix.len() ==> #[trigger] ix[a] < i && flags[ix[a] as int],
            ix.len() == count_true(flags@.subrange(0, i as int)),
            Subject::obeys_eq_spec() ==> picks(
                orig,
                deduped(orig.subrange(0, i as int)),
                ix@.map_values(|k: usize| k as int),
            ),
        decreases items.len() - i,
    {
        let ghost prefix = orig.subrange(0, i as int + 1);
        let ghost old_ix = ix@;
        assert(prefix.drop_last() =~= orig.subrange(0, i as int));
        assert(flags@.subrange(0, i as int + 1).drop_last() =~= flags@.subrange(0, i as int));
        if flags[i] {
            ix.push(i);
        }
        proof {
            if Subject::obeys_eq_spec() {
                let ixs = ix@.map_values(|k: usize| k as int);
                if first_occurrence(orig, i as int) {
                    assert forall|j: int| 0 <= j < i implies !#[trigger] same_entry(prefix[j], prefix[i as int]) by {
                        assert(prefix[j] == orig[j] && prefix[i as int] == orig[i as int]);
                    }
                } else {
                    let j = choose|j: int| 0 <= j < i && #[trigger] same_entry(orig[j], orig[i as int]);
                    assert(prefix[j] == orig[j] && prefix[i as int] == orig[i as int]);
                    assert(same_entry(prefix[j], prefix[i as int]));
                }
                assert(first_occurrence(prefix, i as int) == first_occurrence(orig, i as int));
                if flags[i as int] {
                    assert(ixs =~= old_ix.map_values(|k: usize| k as int).push(i as int));
                } else {
                    assert(ixs =~= old_ix.map_values(|k: usize| k as int));
                }
            }
        }
        i = i + 1;
    }
    assert(orig.subrange(0, orig.len() as int) =~= orig);
    assert(flags@.subrange(0, flags.len() as int) =~= flags@);
    ix
}

/// Removes every member that duplicates an earlier member; the rest keep their order.
pub fn dedupe_members<Subject: PartialEq>(items: &mut Vec<FitnessWrapped<Subject>>)
    ensures
        is_ordered_pick(old(items)@, final(items)@),
        Subject::obeys_eq_spec() ==> final(items)@ == deduped(old(items)@),
{
    let ghost orig = items@;
    let flags = first_occurrence_flags(items);
    let ix = first_occurrence_positions(items, &flags);
    let taken = items.split_off(0);
    let r = take_ordered(taken, &ix);
    proof {
        let ixs = ix@.map_values(|k: usize| k as int);
        assert(picks(orig, r@, ixs));
        if Subject::obeys_eq_spec() {
            let d = deduped(orig);
            assert forall|k: int| 0 <= k < r.len() implies r@[k] == d[k] by {
                assert(r@[k] == orig[ixs[k]]);
                assert(d[k] == orig[ixs[k]]);
            }
            assert(r@ =~= d);
        }
    }
    *items = r;
}

/// What removing duplicates down to `floor` leaves: the members in order;
/// nothing removed at or below the floor; above it, either every duplicate
/// gone or exactly `floor` members left.
pub open spec fn deduped_above<Subject: PartialEq>(
    before: Seq<FitnessWrapped<Subject>>,
    after: Seq<FitnessWrapped<Subject>>,
    floor: int,
) -> bool {
    &&& is_ordered_pick(before, after)
    &&& before.len() <= floor ==> after == before
    &&& Subject::obeys_eq_spec() && before.len() > floor ==> after.len() == if deduped(before).len() > floor {
        deduped(before).len() as int
    } else {
        floor
    }
    &&& Subject::obeys_eq_spec() && before.len() > floor && deduped(before).len() >= floor ==> after == deduped(before)
}

/// Removes duplicates, the last first, only while there are more than
/// `floor` members: the population never drops below `floor` on this account.
pub fn dedupe_members_above<Subject: PartialEq>(items: &mut Vec<FitnessWrapped<Subject>>, floor: usize)
    ensures
        deduped_above(old(items)@, final(items)@, floor as int),
{
    let ghost orig = items@;
    if items.len() <= floor {
        let ghost id = Seq::new(orig.len(), |i: int| i);
        assert(picks(orig, orig, id));
        return;
    }
    let flags = first_occurrence_flags(items);
    let firsts = first_occurrence_positions(items, &flags);
    if firsts.len() >= floor {
        let taken = items.split_off(0);
        let r = take_ordered(taken, &firsts);
        proof {
            let ixs = firsts@.map_values(|k: usize| k as int);
            assert(picks(orig, r@, ixs));
            if Subject::obeys_eq_spec() {
                let d = deduped(orig);
                assert forall|k: int| 0 <= k < r.len() implies r@[k] == d[k] by {
                    assert(r@[k] == orig[ixs[k]]);
                    assert(d[k] == orig[ixs[k]]);
                }
                assert(r@ =~= d);
            }
        }
        *items = r;
        return;
    }
    let need: usize = floor - firsts.len();
    let mut ix: Vec<usize> = Vec::new();
    let mut kept_duplicates: usize = 0;
    let mut firsts_seen: usize = 0;
    let mut i: usize = 0;
    while i < items.len()
        invariant
            i <= items.len(),
            flags.len() == items.len(),
            kept_duplicates <= need,
            firsts_seen <= i,
            ix.len() == firsts_seen + kept_duplicates,
            kept_duplicates == need || kept_duplicates == i - firsts_seen,
            firsts_seen == count_true(flags@.subrange(0, i as int)),
            forall|a: int, b: int| 0 <= a < b < ix.len() ==> ix[a] < ix[b],
            forall|a: int| 0 <= a < ix.len() ==> #[trigger] ix[a] < i,
        decreases items.len() - i,
    {
        assert(flags@.subrange(0, i as int + 1).drop_last() =~= flags@.subrange(0, i as int));
        if flags[i] {
            ix.push(i);
            firsts_seen = firsts_seen + 1;
        } else if kept_duplicates < need {
            ix.push(i);
            kept_duplicates = kept_duplicates + 1;
        }
        i = i + 1;
    }
    proof {
        assert(flags@.subrange(0, flags.len() as int) =~= flags@);
    }
    let taken = items.split_off(0);
    let r = take_ordered(taken, &ix);
    proof {
        let ixs = ix@.map_values(|k: usize| k as int);
        assert(picks(orig, r@, ixs));
        if Subject::obeys_eq_spec() {
            assert(deduped(orig).len() == firsts.len());
        }
    }
    *items = r;
}

/// Applies a deduplication strategy to the population as a pipeline stage.
#[derive(Debug)]
pub struct DedupeAction<T, D> {
    _marker: PhantomData<T>,
    action: D,
}

impl<T, D> DedupeAction<T, D> {
    pub closed spec fn spec_action(&self) -> D {
        self.action
    }

    pub fn new(action: D) -> (r: Self)
        ensures
            r.spec_action() == action,
    {
        Self { _marker: PhantomData, action }
    }
}

impl<Subject> Default for DedupeAction<Subject, DefaultDedupe<Subject>> {
    fn default() -> (r: Self)
        ensures
            r.spec_action() == DefaultDedupe::<Subject>::spec_new(),
    {
        Self::new(DefaultDedupe::default())
    }
}

impl<Subject, D, Data> GaAction<Data> for DedupeAction<Subject, D> where D: DedupeOther<Population<Subject>> {
    type Subject = Subject;

    open spec fn can_perform(&self) -> bool {
        true
    }

    open spec fn performs(&self, context: GaContext<Data>, before: Population<Subject>, after: Population<Subject>) -> bool {
        self.spec_action().dedupes(before, after)
    }

    fn perform_action(&self, _context: &GaContext<Data>, population: &mut Population<Subject>) {
        self.action.dedupe(population);
    }
}

/// Removes every member equal in fitness and subject to an earlier member.
#[derive(Debug)]
pub struct DefaultDedupe<T> {
    _marker: PhantomData<T>,
}

impl<T> DefaultDedupe<T> {
    pub closed spec fn spec_new() -> Self {
        DefaultDedupe { _marker: PhantomData }
    }
}

impl<T> Default for DefaultDedupe<T> {
    fn default() -> (r: Self)
        ensures
            r == Self::spec_new(),
    {
        Self { _marker: PhantomData }
    }
}

impl<Subject: PartialEq> DedupeOther<Population<Subject>> for DefaultDedupe<Subject> {
    open spec fn dedupes(&self, before: Population<Subject>, after: Population<Subject>) -> bool {
        &&& after.pool_size == before.pool_size
        &&& is_ordered_pick(before.subjects@, after.subjects@)
        &&& (Subject::obeys_eq_spec() ==> after.subjects@ == deduped(before.subjects@))
    }

    fn dedupe(&self, population: &mut Population<Subject>) {
        dedupe_members(&mut population.subjects);
    }
}

/// Removes duplicates like `DefaultDedupe`, the last first, but stops once
/// the population is down to its target size.
#[derive(Debug)]
pub struct DedupeKeepPoolSize<T> {
    _marker: PhantomData<T>,
}

impl<T> Default for DedupeKeepPoolSize<T> {
    fn default() -> Self {
        Self { _marker: PhantomData }
    }
}

impl<Subject: PartialEq> DedupeOther<Population<Subject>> for DedupeKeepPoolSize<Subject> {
    open spec fn dedupes(&self, before: Population<Subject>, after: Population<Subject>) -> bool {
        &&& after.pool_size == before.pool_size
        &&& is_ordered_pick(before.subjects@, after.subjects@)
        &&& before.subjects.len() <= before.pool_size ==> after.subjects@ == before.subjects@
        &&& Subject::obeys_eq_spec() && before.subjects.len() > before.pool_size ==> after.subjects.len() == if deduped(
            before.subjects@,
        ).len() > before.pool_size {
            deduped(before.subjects@).len() as int
        } else {
            before.pool_size as int
        }
    }

    fn dedupe(&self, population: &mut Population<Subject>) {
        dedupe_members_above(&mut population.subjects, population.pool_size);
    }
}

/// Leaves the population as it is.
#[derive(Debug, Default, Copy, Clone)]
pub struct EmptyDedupe;

impl<T> DedupeOther<T> for EmptyDedupe {
    open spec fn dedupes(&self, before: T, after: T) -> bool {
        after == before
    }

    fn dedupe(&self, _items: &mut T) {
    }
}

proof fn lemma_deduped_members<Subject: PartialEq>(s: Seq<FitnessWrapped<Subject>>)
    ensures
        deduped(s).len() <= s.len(),
        forall|k: int| 0 <= k < deduped(s).len() ==> exists|m: int| 0 <= m < s.len() && #[trigger] deduped(s)[k] == s[m],
    decreases s.len(),
{
    if s.len() > 0 {
        let p = s.drop_last();
        lemma_deduped_members(p);
        assert forall|k: int| 0 <= k < deduped(s).len() implies exists|m: int| 0 <= m < s.len() && #[trigger] deduped(s)[k] == s[m] by {
            if k < deduped(p).len() {
                let m = choose|m: int| 0 <= m < p.len() && #[trigger] deduped(p)[k] == p[m];
                assert(deduped(s)[k] == s[m]);
            } else {
                assert(deduped(s)[k] == s[s.len() - 1]);
            }
        }
    }
}

proof fn lemma_deduped_all_first<Subject: PartialEq>(s: Seq<FitnessWrapped<Subject>>)
    ensures
        forall|k: int| 0 <= k < deduped(s).len() ==> #[trigger] first_occurrence(deduped(s), k),
    decreases s.len(),
{
    if s.len() > 0 {
        let p = s.drop_last();
        let d = deduped(s);
        let dp = deduped(p);
        lemma_deduped_all_first(p);
        lemma_deduped_members(p);
        assert forall|k: int| 0 <= k < d.len() implies #[trigger] first_occurrence(d, k) by {
            if k < dp.len() {
                assert(first_occurrence(dp, k));
                assert forall|j: int| 0 <= j < k implies !#[trigger] same_entry(d[j], d[k]) by {
                    assert(d[j] == dp[j] && d[k] == dp[k]);
                }
            } else {
                assert forall|j: int| 0 <= j < k implies !#[trigger] same_entry(d[j], d[k]) by {
                    let m = choose|m: int| 0 <= m < p.len() && #[trigger] dp[j] == p[m];
                    assert(d[j] == s[m]);
                    assert(d[k] == s[s.len() - 1]);
                    assert(!same_entry(s[m], s[s.len() - 1]));
                }
            }
        }
    }
}

proof fn lemma_deduped_fixed<Subject: PartialEq>(t: Seq<FitnessWrapped<Subject>>)
    requires
        forall|k: int| 0 <= k < t.len() ==> #[trigger] first_occurrence(t, k),
    ensures
        deduped(t) == t,
    decreases t.len(),
{
    if t.len() > 0 {
        let p = t.drop_last();
        assert forall|k: int| 0 <= k < p.len() implies #[trigger] first_occurrence(p, k) by {
            assert(first_occurrence(t, k));
            assert forall|j: int| 0 <= j < k implies !#[trigger] same_entry(p[j], p[k]) by {
                assert(p[j] == t[j] && p[k] == t[k]);
            }
        }
        lemma_deduped_fixed(p);
        assert(first_occurrence(t, t.len() - 1));
        assert(deduped(t) =~= t);
    }
}

/// Deduplicating twice leaves what deduplicating once left.
pub proof fn lemma_dedupe_idempotent<Subject: PartialEq>(s: Seq<FitnessWrapped<Subject>>)
    ensures
        deduped(deduped(s)) == deduped(s),
{
    lemma_deduped_all_first(s);
    lemma_deduped_fixed(deduped(s));
}

/// A member as the pair of its fitness and its subject.
pub open spec fn entry_pair<Subject>(e: FitnessWrapped<Subject>) -> (i64, Subject) {
    (e.spec_fitness(), e.spec_subject())
}

/// The members as (fitness, subject) pairs.
pub open spec fn entry_pairs<Subject>(s: Seq<FitnessWrapped<Subject>>) -> Seq<(i64, Subject)> {
    s.map_values(|e: FitnessWrapped<Subject>| entry_pair(e))
}

proof fn lemma_deduped_covers<Subject: PartialEq>(s: Seq<FitnessWrapped<Subject>>)
    requires
        forall|x: Subject, y: Subject| #[trigger] x.eq_spec(&y) <==> x == y,
    ensures
        forall|m: int| #![trigger s[m]] 0 <= m < s.len() ==> exists|k: int|
            0 <= k < deduped(s).len() && entry_pair(#[trigger] deduped(s)[k]) == entry_pair(s[m]),
    decreases s.len(),
{
    if s.len() > 0 {
        let p = s.drop_last();
        let d = deduped(s);
        let dp = deduped(p);
        lemma_deduped_covers(p);
        assert forall|m: int| #![trigger s[m]] 0 <= m < s.len() implies exists|k: int|
            0 <= k < d.len() && entry_pair(#[trigger] d[k]) == entry_pair(s[m]) by {
            if m < p.len() {
                let k = choose|k: int| 0 <= k < dp.len() && entry_pair(#[trigger] dp[k]) == entry_pair(p[m]);
                assert(d[k] == dp[k]);
            } else if first_occurrence(s, s.len() - 1) {
                assert(d[d.len() - 1] == s[m]);
            } else {
                let j = choose|j: int| 0 <= j < s.len() - 1 && #[trigger] same_entry(s[j], s[s.len() - 1]);
                assert(s[j].spec_subject().eq_spec(&s[m].spec_subject()));
                assert(entry_pair(s[j]) == entry_pair(s[m]));
                let k = choose|k: int| 0 <= k < dp.len() && entry_pair(#[trigger] dp[k]) == entry_pair(p[j]);
                assert(d[k] == dp[k]);
            }
        }
    }
}

/// When subject equality is plain equality, deduplication leaves as many
/// members as there are distinct (fitness, subject) pairs.
pub proof fn lemma_dedupe_counts_distinct<Subject: PartialEq>(s: Seq<FitnessWrapped<Subject>>)
    requires
        forall|x: Subject, y: Subject| #[trigger] x.eq_spec(&y) <==> x == y,
    ensures
        deduped(s).len() == entry_pairs(s).to_set().len(),
{
    let d = deduped(s);
    lemma_deduped_all_first(s);
    lemma_deduped_members(s);
    lemma_deduped_covers(s);
    let pd = entry_pairs(d);
    let ps = entry_pairs(s);
    assert forall|i: int, j: int| 0 <= i < pd.len() && 0 <= j < pd.len() && i != j implies pd[i] != pd[j] by {
        let (a, b) = if i < j { (i, j) } else { (j, i) };
        assert(first_occurrence(d, b));
        assert(!same_entry(d[a], d[b]));
        if pd[a] == pd[b] {
            assert(d[a].spec_subject().eq_spec(&d[b].spec_subject()));
        }
    }
    pd.unique_seq_to_set();
    assert forall|x: (i64, Subject)| pd.to_set().contains(x) <==> ps.to_set().contains(x) by {
        if pd.to_set().contains(x) {
            let k = choose|k: int| 0 <= k < pd.len() && pd[k] == x;
            let m = choose|m: int| 0 <= m < s.len() && #[trigger] d[k] == s[m];
            assert(ps[m] == x);
        }
        if ps.to_set().contains(x) {
            let m = choose|m: int| 0 <= m < ps.len() && ps[m] == x;
            let k = choose|k: int| 0 <= k < d.len() && entry_pair(#[trigger] d[k]) == entry_pair(s[m]);
            assert(pd[k] == x);
        }
    }
    assert(pd.to_set() =~= ps.to_set());
}

} // verus!
