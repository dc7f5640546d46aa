//! Pruners: remove single biased items, or shrink a collection to a length.
use std::marker::PhantomData;

use vstd::prelude::*;

use crate::ga::fitness::FitnessWrapped;
use crate::ga::population::Population;
use crate::ga::{GaAction, GaContext};
use crate::util::{is_ordered_pick, ordered_indices, picks, random_index_bias, Bias, MAX_REDRAWS};

verus! {

/// A strategy that removes items from a collection.
pub trait PruneOther<T> {
    /// What a call of `prune` leaves, given what it started from.
    spec fn prunes(&self, before: T, after: T) -> bool;

    fn prune(&self, items: &mut T)
        ensures
            self.prunes(*old(items), *final(items)),
    ;
}

/// A strategy that removes items from a collection at random.
pub trait PruneRandom<T> {
    /// What a call of `prune_random` leaves, given what it started from.
    spec fn prunes_random(&self, before: T, after: T) -> bool;

    fn prune_random(&self, items: &mut T)
        ensures
            self.prunes_random(*old(items), *final(items)),
    ;
}

/// The number of leading items that a pruner never removes.
pub open spec fn protected_count(skip_first: bool) -> int {
    if skip_first {
        1
    } else {
        0
    }
}

/// The length that pruning towards `target` reaches: `target`, but never
/// below the protected first item, and never more than was there.
pub open spec fn pruned_length(len: int, target: int, skip_first: bool) -> int {
    let floor = if target < protected_count(skip_first) {
        protected_count(skip_first)
    } else {
        target
    };
    if len > floor {
        floor
    } else {
        len
    }
}

/// `after` is `before` shrunk towards `target`, in order, with the first
/// item kept when it is protected.
pub open spec fn pruned_to<T>(before: Seq<T>, after: Seq<T>, target: int, skip_first: bool) -> bool {
    &&& is_ordered_pick(before, after)
    &&& after.len() == pruned_length(before.len() as int, target, skip_first)
    &&& (skip_first && before.len() > 0 ==> after[0] == before[0])
}

/// `round(len * numerator / denominator)`, halves rounded up.
pub open spec fn rounded_share(len: int, numerator: int, denominator: int) -> int {
    (2 * len * numerator + denominator) / (2 * denominator)
}

/// Removes one item at a position drawn with `bias`; with `skip_first` the
/// first item stays. After `MAX_REDRAWS` draws of the first item the
/// neighbour of the first item at the favoured end is taken instead.
pub fn prune_single<T>(items: &mut Vec<T>, bias: Bias, skip_first: bool)
    ensures
        old(items).len() <= protected_count(skip_first) ==> final(items)@ == old(items)@,
        old(items).len() > protected_count(skip_first) ==> exists|j: int|
            protected_count(skip_first) <= j < old(items).len() && final(items)@ == old(items)@.remove(j),
{
    let len = items.len();
    if !skip_first {
        if len == 0 {
            return;
        }
        let j = random_index_bias(len, bias);
        items.remove(j);
        return;
    }
    if len <= 1 {
        return;
    }
    let mut j: usize = 0;
    let mut tries: u32 = 0;
    while j == 0 && tries < MAX_REDRAWS
        invariant
            j < len,
            len > 1,
        decreases MAX_REDRAWS - tries,
    {
        j = random_index_bias(len, bias);
        tries = tries + 1;
    }
    if j == 0 {
        j = match bias {
            Bias::Front | Bias::BackInverse => 1,
            Bias::Back | Bias::FrontInverse => len - 1,
        };
    }
    items.remove(j);
}

proof fn lemma_picks_remove<T>(from: Seq<T>, picked: Seq<T>, ix: Seq<int>, j: int)
    requires
        picks(from, picked, ix),
        0 <= j < picked.len(),
    ensures
        picks(from, picked.remove(j), ix.remove(j)),
        j > 0 && ix.len() > 0 ==> ix.remove(j)[0] == ix[0],
{
    let ix2 = ix.remove(j);
    assert forall|a: int, b: int| 0 <= a < b < ix2.len() implies ix2[a] < ix2[b] by {
        let a0 = if a < j { a } else { a + 1 };
        let b0 = if b < j { b } else { b + 1 };
        assert(ix2[a] == ix[a0] && ix2[b] == ix[b0]);
    }
    assert forall|a: int| 0 <= a < ix2.len() implies 0 <= #[trigger] ix2[a] < from.len() by {
        let a0 = if a < j { a } else { a + 1 };
        assert(ix2[a] == ix[a0]);
    }
    assert forall|k: int| 0 <= k < ix2.len() implies picked.remove(j)[k] == from[#[trigger] ix2[k]] by {
        let k0 = if k < j { k } else { k + 1 };
        assert(ix2[k] == ix[k0]);
    }
}

/// Removes biased items one at a time until at most `max_length` remain
/// (or only the protected first item).
pub fn prune_to_length<T>(items: &mut Vec<T>, max_length: usize, bias: Bias, skip_first: bool)
    ensures
        pruned_to(old(items)@, final(items)@, max_length as int, skip_first),
        old(items).len() <= max_length ==> final(items)@ == old(items)@,
{
    let ghost orig = items@;
    let ghost mut ix: Seq<int> = Seq::new(orig.len(), |i: int| i);
    let floor: usize = if skip_first && max_length < 1 {
        1
    } else {
        max_length
    };
    assert(picks(orig, items@, ix));
    while items.len() > floor
        invariant
            picks(orig, items@, ix),
            items.len() <= orig.len(),
            items.len() >= pruned_length(orig.len() as int, max_length as int, skip_first),
            floor as int == if (max_length as int) < protected_count(skip_first) {
                protected_count(skip_first)
            } else {
                max_length as int
            },
            skip_first && orig.len() > 0 ==> ix[0] == 0,
            orig.len() <= max_length ==> items@ == orig,
        decreases items.len(),
    {
        let ghost before = items@;
        prune_single(items, bias, skip_first);
        proof {
            let j = choose|j: int|
                protected_count(skip_first) <= j < before.len() && items@ == before.remove(j);
            lemma_picks_remove(orig, before, ix, j);
            ix = ix.remove(j);
        }
    }
    assert(is_ordered_pick(orig, items@));
}

/// Removes nothing.
#[derive(Debug, Default, Copy, Clone)]
pub struct EmptyPrune;

impl<T> PruneOther<T> for EmptyPrune {
    open spec fn prunes(&self, before: T, after: T) -> bool {
        after == before
    }

    fn prune(&self, items: &mut T) {
    }
}

/// Applies a pruner to a population's members as a pipeline stage.
#[derive(Debug, Default)]
pub struct PruneAction<T, P> {
    _marker: PhantomData<T>,
    action: P,
}

impl<T, P> PruneAction<T, P> {
    pub closed spec fn spec_action(&self) -> P {
        self.action
    }

    pub fn new(action: P) -> (r: Self)
        ensures
            r.spec_action() == action,
    {
        Self { _marker: PhantomData, action }
    }

    pub fn action(&self) -> (r: &P)
        ensures
            *r == self.spec_action(),
    {
        &self.action
    }
}

impl<Subject, P, Data> GaAction<Data> for PruneAction<Subject, P> where
    P: PruneOther<Vec<FitnessWrapped<Subject>>>,
 {
    type Subject = Subject;

    open spec fn can_perform(&self) -> bool {
        true
    }

    open spec fn performs(&self, context: GaContext<Data>, before: Population<Subject>, after: Population<Subject>) -> bool {
        &&& after.pool_size == before.pool_size
        &&& self.spec_action().prunes(before.subjects, after.subjects)
    }

    fn perform_action(&self, _context: &GaContext<Data>, population: &mut Population<Subject>) {
        self.action.prune(&mut population.subjects);
    }
}

/// `after` is `before` with one item removed at a position past the protected
/// first item, or `before` itself when nothing can be removed.
pub open spec fn removed_one<T>(before: Seq<T>, after: Seq<T>, skip_first: bool) -> bool {
    if before.len() <= protected_count(skip_first) {
        after == before
    } else {
        exists|j: int| protected_count(skip_first) <= j < before.len() && after == before.remove(j)
    }
}

/// Removes a single item, drawn towards the back.
#[derive(Debug, Copy, Clone, Default)]
pub struct PruneSingleBack;

impl<T> PruneOther<Vec<T>> for PruneSingleBack {
    open spec fn prunes(&self, before: Vec<T>, after: Vec<T>) -> bool {
        removed_one(before@, after@, false)
    }

    fn prune(&self, items: &mut Vec<T>) {
        prune_single(items, Bias::Back, false);
    }
}

impl<T> PruneRandom<Vec<T>> for PruneSingleBack {
    open spec fn prunes_random(&self, before: Vec<T>, after: Vec<T>) -> bool {
        removed_one(before@, after@, false)
    }

    fn prune_random(&self, items: &mut Vec<T>) {
        prune_single(items, Bias::Back, false);
    }
}

/// Removes a single item, drawn towards the front.
#[derive(Debug, Copy, Clone, Default)]
pub struct PruneSingleFront;

impl<T> PruneOther<Vec<T>> for PruneSingleFront {
    open spec fn prunes(&self, before: Vec<T>, after: Vec<T>) -> bool {
        removed_one(before@, after@, false)
    }

    fn prune(&self, items: &mut Vec<T>) {
        prune_single(items, Bias::Front, false);
    }
}

impl<T> PruneRandom<Vec<T>> for PruneSingleFront {
    open spec fn prunes_random(&self, before: Vec<T>, after: Vec<T>) -> bool {
        removed_one(before@, after@, false)
    }

    fn prune_random(&self, items: &mut Vec<T>) {
        prune_single(items, Bias::Front, false);
    }
}

/// Removes a single item, drawn towards the back, never the first.
#[derive(Debug, Copy, Clone, Default)]
pub struct PruneSingleBackSkipFirst;

impl<T> PruneOther<Vec<T>> for PruneSingleBackSkipFirst {
    open spec fn prunes(&self, before: Vec<T>, after: Vec<T>) -> bool {
        removed_one(before@, after@, true)
    }

    fn prune(&self, items: &mut Vec<T>) {
        prune_single(items, Bias::Back, true);
    }
}

impl<T> PruneRandom<Vec<T>> for PruneSingleBackSkipFirst {
    open spec fn prunes_random(&self, before: Vec<T>, after: Vec<T>) -> bool {
        removed_one(before@, after@, true)
    }

    fn prune_random(&self, items: &mut Vec<T>) {
        prune_single(items, Bias::Back, true);
    }
}

/// Removes a single item, drawn towards the front, never the first.
#[derive(Debug, Copy, Clone, Default)]
pub struct PruneSingleFrontSkipFirst;

impl<T> PruneOther<Vec<T>> for PruneSingleFrontSkipFirst {
    open spec fn prunes(&self, before: Vec<T>, after: Vec<T>) -> bool {
        removed_one(before@, after@, true)
    }

    fn prune(&self, items: &mut Vec<T>) {
        prune_single(items, Bias::Front, true);
    }
}

impl<T> PruneRandom<Vec<T>> for PruneSingleFrontSkipFirst {
    open spec fn prunes_random(&self, before: Vec<T>, after: Vec<T>) -> bool {
        removed_one(before@, after@, true)
    }

    fn prune_random(&self, items: &mut Vec<T>) {
        prune_single(items, Bias::Front, true);
    }
}

/// Shrinks a collection to `max_length` by removals drawn towards the
/// back, never the first item.
#[derive(Debug, Copy, Clone, Default)]
pub struct PruneExtraBackSkipFirst {
    max_length: usize,
}

impl PruneExtraBackSkipFirst {
    pub closed spec fn spec_max_length(&self) -> usize {
        self.max_length
    }

    /// Creates a pruner that shrinks to `max_length`.
    pub fn new(max_length: usize) -> (r: Self)
        ensures
            r.spec_max_length() == max_length,
    {
        Self { max_length }
    }

    pub fn max_length(&self) -> (r: usize)
        ensures
            r == self.spec_max_length(),
    {
        self.max_length
    }
}

impl<T> PruneOther<Vec<T>> for PruneExtraBackSkipFirst {
    open spec fn prunes(&self, before: Vec<T>, after: Vec<T>) -> bool {
        pruned_to(before@, after@, self.spec_max_length() as int, true)
    }

    fn prune(&self, items: &mut Vec<T>) {
        prune_to_length(items, self.max_length, Bias::Back, true);
    }
}

impl<T> PruneRandom<Vec<T>> for PruneExtraBackSkipFirst {
    open spec fn prunes_random(&self, before: Vec<T>, after: Vec<T>) -> bool {
        pruned_to(before@, after@, self.spec_max_length() as int, true)
    }

    fn prune_random(&self, items: &mut Vec<T>) {
        prune_to_length(items, self.max_length, Bias::Back, true);
    }
}

/// Shrinks a collection to `max_length` by removals drawn towards the
/// front, never the first item.
#[derive(Debug, Copy, Clone)]
pub struct PruneExtraFrontSkipFirst {
    max_length: usize,
}

impl PruneExtraFrontSkipFirst {
    pub closed spec fn spec_max_length(&self) -> usize {
        self.max_length
    }

    /// Creates a pruner that shrinks to `max_length`.
    pub fn new(max_length: usize) -> (r: Self)
        ensures
            r.spec_max_length() == max_length,
    {
        Self { max_length }
    }

    pub fn max_length(&self) -> (r: usize)
        ensures
            r == self.spec_max_length(),
    {
        self.max_length
    }
}

impl<T> PruneOther<Vec<T>> for PruneExtraFrontSkipFirst {
    open spec fn prunes(&self, before: Vec<T>, after: Vec<T>) -> bool {
        pruned_to(before@, after@, self.spec_max_length() as int, true)
    }

    fn prune(&self, items: &mut Vec<T>) {
        prune_to_length(items, self.max_length, Bias::Front, true);
    }
}

impl<T> PruneRandom<Vec<T>> for PruneExtraFrontSkipFirst {
    open spec fn prunes_random(&self, before: Vec<T>, after: Vec<T>) -> bool {
        pruned_to(before@, after@, self.spec_max_length() as int, true)
    }

    fn prune_random(&self, items: &mut Vec<T>) {
        prune_to_length(items, self.max_length, Bias::Front, true);
    }
}

/// Shrinks a collection to `round(len * numerator / denominator)` items.
pub fn prune_share<T>(items: &mut Vec<T>, numerator: u8, denominator: u8, bias: Bias, skip_first: bool)
    requires
        0 < denominator,
        numerator <= denominator,
    ensures
        pruned_to(
            old(items)@,
            final(items)@,
            rounded_share(old(items).len() as int, numerator as int, denominator as int),
            skip_first,
        ),
{
    let len = items.len();
    assert(2 * (len as u128) * (numerator as u128) + denominator as u128 <= 600 * 0x1_0000_0000_0000_0000u128) by (nonlinear_arith)
        requires
            len <= 0xffff_ffff_ffff_ffffu64,
            numerator <= 255,
            denominator <= 255,
    ;
    let target: u128 = (2 * (len as u128) * (numerator as u128) + denominator as u128) / (2
        * denominator as u128);
    assert(target <= len) by (nonlinear_arith)
        requires
            target == (2 * len * numerator + denominator) / (2 * denominator),
            0 < denominator,
            numerator <= denominator,
    ;
    prune_to_length(items, target as usize, bias, skip_first);
}

/// Shrinks a collection to a half of its length by removals drawn
/// towards the back.
#[derive(Debug, Copy, Clone)]
pub struct DefaultPruneHalfBack;

impl<T> PruneOther<Vec<T>> for DefaultPruneHalfBack {
    open spec fn prunes(&self, before: Vec<T>, after: Vec<T>) -> bool {
        pruned_to(before@, after@, rounded_share(before.len() as int, 1, 2), false)
    }

    fn prune(&self, items: &mut Vec<T>) {
        prune_share(items, 1, 2, Bias::Back, false);
    }
}

impl<T> PruneRandom<Vec<T>> for DefaultPruneHalfBack {
    open spec fn prunes_random(&self, before: Vec<T>, after: Vec<T>) -> bool {
        pruned_to(before@, after@, rounded_share(before.len() as int, 1, 2), false)
    }

    fn prune_random(&self, items: &mut Vec<T>) {
        prune_share(items, 1, 2, Bias::Back, false);
    }
}

/// Shrinks a collection to a quarter of its length by removals drawn
/// towards the back.
#[derive(Debug, Copy, Clone)]
pub struct DefaultPruneQuarterBack;

impl<T> PruneOther<Vec<T>> for DefaultPruneQuarterBack {
    open spec fn prunes(&self, before: Vec<T>, after: Vec<T>) -> bool {
        pruned_to(before@, after@, rounded_share(before.len() as int, 1, 4), false)
    }

    fn prune(&self, items: &mut Vec<T>) {
        prune_share(items, 1, 4, Bias::Back, false);
    }
}

impl<T> PruneRandom<Vec<T>> for DefaultPruneQuarterBack {
    open spec fn prunes_random(&self, before: Vec<T>, after: Vec<T>) -> bool {
        pruned_to(before@, after@, rounded_share(before.len() as int, 1, 4), false)
    }

    fn prune_random(&self, items: &mut Vec<T>) {
        prune_share(items, 1, 4, Bias::Back, false);
    }
}

/// Shrinks a collection to three quarters of its length by removals drawn
/// towards the back.
#[derive(Debug, Copy, Clone)]
pub struct DefaultPruneThreeQuarterBack;

impl<T> PruneOther<Vec<T>> for DefaultPruneThreeQuarterBack {
    open spec fn prunes(&self, before: Vec<T>, after: Vec<T>) -> bool {
        pruned_to(before@, after@, rounded_share(before.len() as int, 3, 4), false)
    }

    fn prune(&self, items: &mut Vec<T>) {
        prune_share(items, 3, 4, Bias::Back, false);
    }
}

impl<T> PruneRandom<Vec<T>> for DefaultPruneThreeQuarterBack {
    open spec fn prunes_random(&self, before: Vec<T>, after: Vec<T>) -> bool {
        pruned_to(before@, after@, rounded_share(before.len() as int, 3, 4), false)
    }

    fn prune_random(&self, items: &mut Vec<T>) {
        prune_share(items, 3, 4, Bias::Back, false);
    }
}

/// Shrinks a collection to a third of its length by removals drawn
/// towards the back.
#[derive(Debug, Copy, Clone)]
pub struct DefaultPruneThirdBack;

impl<T> PruneOther<Vec<T>> for DefaultPruneThirdBack {
    open spec fn prunes(&self, before: Vec<T>, after: Vec<T>) -> bool {
        pruned_to(before@, after@, rounded_share(before.len() as int, 1, 3), false)
    }

    fn prune(&self, items: &mut Vec<T>) {
        prune_share(items, 1, 3, Bias::Back, false);
    }
}

impl<T> PruneRandom<Vec<T>> for DefaultPruneThirdBack {
    open spec fn prunes_random(&self, before: Vec<T>, after: Vec<T>) -> bool {
        pruned_to(before@, after@, rounded_share(before.len() as int, 1, 3), false)
    }

    fn prune_random(&self, items: &mut Vec<T>) {
        prune_share(items, 1, 3, Bias::Back, false);
    }
}

/// Shrinks a collection to two thirds of its length by removals drawn
/// towards the back.
#[derive(Debug, Copy, Clone)]
pub struct DefaultPruneTwoThirdBack;

impl<T> PruneOther<Vec<T>> for DefaultPruneTwoThirdBack {
    open spec fn prunes(&self, before: Vec<T>, after: Vec<T>) -> bool {
        pruned_to(before@, after@, rounded_share(before.len() as int, 2, 3), false)
    }

    fn prune(&self, items: &mut Vec<T>) {
        prune_share(items, 2, 3, Bias::Back, false);
    }
}

impl<T> PruneRandom<Vec<T>> for DefaultPruneTwoThirdBack {
    open spec fn prunes_random(&self, before: Vec<T>, after: Vec<T>) -> bool {
        pruned_to(before@, after@, rounded_share(before.len() as int, 2, 3), false)
    }

    fn prune_random(&self, items: &mut Vec<T>) {
        prune_share(items, 2, 3, Bias::Back, false);
    }
}

/// Shrinks a collection to a half of its length by removals drawn
/// towards the front.
#[derive(Debug, Copy, Clone)]
pub struct DefaultPruneHalfFront;

impl<T> PruneOther<Vec<T>> for DefaultPruneHalfFront {
    open spec fn prunes(&self, before: Vec<T>, after: Vec<T>) -> bool {
        pruned_to(before@, after@, rounded_share(before.len() as int, 1, 2), false)
    }

    fn prune(&self, items: &mut Vec<T>) {
        prune_share(items, 1, 2, Bias::Front, false);
    }
}

impl<T> PruneRandom<Vec<T>> for DefaultPruneHalfFront {
    open spec fn prunes_random(&self, before: Vec<T>, after: Vec<T>) -> bool {
        pruned_to(before@, after@, rounded_share(before.len() as int, 1, 2), false)
    }

    fn prune_random(&self, items: &mut Vec<T>) {
        prune_share(items, 1, 2, Bias::Front, false);
    }
}

/// Shrinks a collection to a quarter of its length by removals drawn
/// towards the front.
#[derive(Debug, Copy, Clone)]
pub struct DefaultPruneQuarterFront;

impl<T> PruneOther<Vec<T>> for DefaultPruneQuarterFront {
    open spec fn prunes(&self, before: Vec<T>, after: Vec<T>) -> bool {
        pruned_to(before@, after@, rounded_share(before.len() as int, 1, 4), false)
    }

    fn prune(&self, items: &mut Vec<T>) {
        prune_share(items, 1, 4, Bias::Front, false);
    }
}

impl<T> PruneRandom<Vec<T>> for DefaultPruneQuarterFront {
    open spec fn prunes_random(&self, before: Vec<T>, after: Vec<T>) -> bool {
        pruned_to(before@, after@, rounded_share(before.len() as int, 1, 4), false)
    }

    fn prune_random(&self, items: &mut Vec<T>) {
        prune_share(items, 1, 4, Bias::Front, false);
    }
}

/// Shrinks a collection to three quarters of its length by removals drawn
/// towards the front.
#[derive(Debug, Copy, Clone)]
pub struct DefaultPruneThreeQuarterFront;

impl<T> PruneOther<Vec<T>> for DefaultPruneThreeQuarterFront {
    open spec fn prunes(&self, before: Vec<T>, after: Vec<T>) -> bool {
        pruned_to(before@, after@, rounded_share(before.len() as int, 3, 4), false)
    }

    fn prune(&self, items: &mut Vec<T>) {
        prune_share(items, 3, 4, Bias::Front, false);
    }
}

impl<T> PruneRandom<Vec<T>> for DefaultPruneThreeQuarterFront {
    open spec fn prunes_random(&self, before: Vec<T>, after: Vec<T>) -> bool {
        pruned_to(before@, after@, rounded_share(before.len() as int, 3, 4), false)
    }

    fn prune_random(&self, items: &mut Vec<T>) {
        prune_share(items, 3, 4, Bias::Front, false);
    }
}

/// Shrinks a collection to a third of its length by removals drawn
/// towards the front.
#[derive(Debug, Copy, Clone)]
pub struct DefaultPruneThirdFront;

impl<T> PruneOther<Vec<T>> for DefaultPruneThirdFront {
    open spec fn prunes(&self, before: Vec<T>, after: Vec<T>) -> bool {
        pruned_to(before@, after@, rounded_share(before.len() as int, 1, 3), false)
    }

    fn prune(&self, items: &mut Vec<T>) {
        prune_share(items, 1, 3, Bias::Front, false);
    }
}

impl<T> PruneRandom<Vec<T>> for DefaultPruneThirdFront {
    open spec fn prunes_random(&self, before: Vec<T>, after: Vec<T>) -> bool {
        pruned_to(before@, after@, rounded_share(before.len() as int, 1, 3), false)
    }

    fn prune_random(&self, items: &mut Vec<T>) {
        prune_share(items, 1, 3, Bias::Front, false);
    }
}

/// Shrinks a collection to two thirds of its length by removals drawn
/// towards the front.
#[derive(Debug, Copy, Clone)]
pub struct DefaultPruneTwoThirdFront;

impl<T> PruneOther<Vec<T>> for DefaultPruneTwoThirdFront {
    open spec fn prunes(&self, before: Vec<T>, after: Vec<T>) -> bool {
        pruned_to(before@, after@, rounded_share(before.len() as int, 2, 3), false)
    }

    fn prune(&self, items: &mut Vec<T>) {
        prune_share(items, 2, 3, Bias::Front, false);
    }
}

impl<T> PruneRandom<Vec<T>> for DefaultPruneTwoThirdFront {
    open spec fn prunes_random(&self, before: Vec<T>, after: Vec<T>) -> bool {
        pruned_to(before@, after@, rounded_share(before.len() as int, 2, 3), false)
    }

    fn prune_random(&self, items: &mut Vec<T>) {
        prune_share(items, 2, 3, Bias::Front, false);
    }
}

/// Shrinks a collection to a half of its length by removals drawn
/// towards the back, never the first item.
#[derive(Debug, Copy, Clone, Default)]
pub struct DefaultPruneHalfBackSkipFirst;

impl<T> PruneOther<Vec<T>> for DefaultPruneHalfBackSkipFirst {
    open spec fn prunes(&self, before: Vec<T>, after: Vec<T>) -> bool {
        pruned_to(before@, after@, rounded_share(before.len() as int, 1, 2), true)
    }

    fn prune(&self, items: &mut Vec<T>) {
        prune_share(items, 1, 2, Bias::Back, true);
    }
}

impl<T> PruneRandom<Vec<T>> for DefaultPruneHalfBackSkipFirst {
    open spec fn prunes_random(&self, before: Vec<T>, after: Vec<T>) -> bool {
        pruned_to(before@, after@, rounded_share(before.len() as int, 1, 2), true)
    }

    fn prune_random(&self, items: &mut Vec<T>) {
        prune_share(items, 1, 2, Bias::Back, true);
    }
}

/// Shrinks a collection to a quarter of its length by removals drawn
/// towards the back, never the first item.
#[derive(Debug, Copy, Clone, Default)]
pub struct DefaultPruneQuarterBackSkipFirst;

impl<T> PruneOther<Vec<T>> for DefaultPruneQuarterBackSkipFirst {
    open spec fn prunes(&self, before: Vec<T>, after: Vec<T>) -> bool {
        pruned_to(before@, after@, rounded_share(before.len() as int, 1, 4), true)
    }

    fn prune(&self, items: &mut Vec<T>) {
        prune_share(items, 1, 4, Bias::Back, true);
    }
}

impl<T> PruneRandom<Vec<T>> for DefaultPruneQuarterBackSkipFirst {
    open spec fn prunes_random(&self, before: Vec<T>, after: Vec<T>) -> bool {
        pruned_to(before@, after@, rounded_share(before.len() as int, 1, 4), true)
    }

    fn prune_random(&self, items: &mut Vec<T>) {
        prune_share(items, 1, 4, Bias::Back, true);
    }
}

/// Shrinks a collection to three quarters of its length by removals drawn
/// towards the back, never the first item.
#[derive(Debug, Copy, Clone, Default)]
pub struct DefaultPruneThreeQuarterBackSkipFirst;

impl<T> PruneOther<Vec<T>> for DefaultPruneThreeQuarterBackSkipFirst {
    open spec fn prunes(&self, before: Vec<T>, after: Vec<T>) -> bool {
        pruned_to(before@, after@, rounded_share(before.len() as int, 3, 4), true)
    }

    fn prune(&self, items: &mut Vec<T>) {
        prune_share(items, 3, 4, Bias::Back, true);
    }
}

impl<T> PruneRandom<Vec<T>> for DefaultPruneThreeQuarterBackSkipFirst {
    open spec fn prunes_random(&self, before: Vec<T>, after: Vec<T>) -> bool {
        pruned_to(before@, after@, rounded_share(before.len() as int, 3, 4), true)
    }

    fn prune_random(&self, items: &mut Vec<T>) {
        prune_share(items, 3, 4, Bias::Back, true);
    }
}

/// Shrinks a collection to a third of its length by removals drawn
/// towards the back, never the first item.
#[derive(Debug, Copy, Clone, Default)]
pub struct DefaultPruneThirdBackSkipFirst;

impl<T> PruneOther<Vec<T>> for DefaultPruneThirdBackSkipFirst {
    open spec fn prunes(&self, before: Vec<T>, after: Vec<T>) -> bool {
        pruned_to(before@, after@, rounded_share(before.len() as int, 1, 3), true)
    }

    fn prune(&self, items: &mut Vec<T>) {
        prune_share(items, 1, 3, Bias::Back, true);
    }
}

impl<T> PruneRandom<Vec<T>> for DefaultPruneThirdBackSkipFirst {
    open spec fn prunes_random(&self, before: Vec<T>, after: Vec<T>) -> bool {
        pruned_to(before@, after@, rounded_share(before.len() as int, 1, 3), true)
    }

    fn prune_random(&self, items: &mut Vec<T>) {
        prune_share(items, 1, 3, Bias::Back, true);
    }
}

/// Shrinks a collection to two thirds of its length by removals drawn
/// towards the back, never the first item.
#[derive(Debug, Copy, Clone, Default)]
pub struct DefaultPruneTwoThirdBackSkipFirst;

impl<T> PruneOther<Vec<T>> for DefaultPruneTwoThirdBackSkipFirst {
    open spec fn prunes(&self, before: Vec<T>, after: Vec<T>) -> bool {
        pruned_to(before@, after@, rounded_share(before.len() as int, 2, 3), true)
    }

    fn prune(&self, items: &mut Vec<T>) {
        prune_share(items, 2, 3, Bias::Back, true);
    }
}

impl<T> PruneRandom<Vec<T>> for DefaultPruneTwoThirdBackSkipFirst {
    open spec fn prunes_random(&self, before: Vec<T>, after: Vec<T>) -> bool {
        pruned_to(before@, after@, rounded_share(before.len() as int, 2, 3), true)
    }

    fn prune_random(&self, items: &mut Vec<T>) {
        prune_share(items, 2, 3, Bias::Back, true);
    }
}

/// Shrinks a collection to a half of its length by removals drawn
/// towards the front, never the first item.
#[derive(Debug, Copy, Clone, Default)]
pub struct DefaultPruneHalfFrontSkipFirst;

impl<T> PruneOther<Vec<T>> for DefaultPruneHalfFrontSkipFirst {
    open spec fn prunes(&self, before: Vec<T>, after: Vec<T>) -> bool {
        pruned_to(before@, after@, rounded_share(before.len() as int, 1, 2), true)
    }

    fn prune(&self, items: &mut Vec<T>) {
        prune_share(items, 1, 2, Bias::Front, true);
    }
}

impl<T> PruneRandom<Vec<T>> for DefaultPruneHalfFrontSkipFirst {
    open spec fn prunes_random(&self, before: Vec<T>, after: Vec<T>) -> bool {
        pruned_to(before@, after@, rounded_share(before.len() as int, 1, 2), true)
    }

    fn prune_random(&self, items: &mut Vec<T>) {
        prune_share(items, 1, 2, Bias::Front, true);
    }
}

/// Shrinks a collection to a quarter of its length by removals drawn
/// towards the front, never the first item.
#[derive(Debug, Copy, Clone, Default)]
pub struct DefaultPruneQuarterFrontSkipFirst;

impl<T> PruneOther<Vec<T>> for DefaultPruneQuarterFrontSkipFirst {
    open spec fn prunes(&self, before: Vec<T>, after: Vec<T>) -> bool {
        pruned_to(before@, after@, rounded_share(before.len() as int, 1, 4), true)
    }

    fn prune(&self, items: &mut Vec<T>) {
        prune_share(items, 1, 4, Bias::Front, true);
    }
}

impl<T> PruneRandom<Vec<T>> for DefaultPruneQuarterFrontSkipFirst {
    open spec fn prunes_random(&self, before: Vec<T>, after: Vec<T>) -> bool {
        pruned_to(before@, after@, rounded_share(before.len() as int, 1, 4), true)
    }

    fn prune_random(&self, items: &mut Vec<T>) {
        prune_share(items, 1, 4, Bias::Front, true);
    }
}

/// Shrinks a collection to three quarters of its length by removals drawn
/// towards the front, never the first item.
#[derive(Debug, Copy, Clone, Default)]
pub struct DefaultPruneThreeQuarterFrontSkipFirst;

impl<T> PruneOther<Vec<T>> for DefaultPruneThreeQuarterFrontSkipFirst {
    open spec fn prunes(&self, before: Vec<T>, after: Vec<T>) -> bool {
        pruned_to(before@, after@, rounded_share(before.len() as int, 3, 4), true)
    }

    fn prune(&self, items: &mut Vec<T>) {
        prune_share(items, 3, 4, Bias::Front, true);
    }
}

impl<T> PruneRandom<Vec<T>> for DefaultPruneThreeQuarterFrontSkipFirst {
    open spec fn prunes_random(&self, before: Vec<T>, after: Vec<T>) -> bool {
        pruned_to(before@, after@, rounded_share(before.len() as int, 3, 4), true)
    }

    fn prune_random(&self, items: &mut Vec<T>) {
        prune_share(items, 3, 4, Bias::Front, true);
    }
}

/// Shrinks a collection to a third of its length by removals drawn
/// towards the front, never the first item.
#[derive(Debug, Copy, Clone, Default)]
pub struct DefaultPruneThirdFrontSkipFirst;

impl<T> PruneOther<Vec<T>> for DefaultPruneThirdFrontSkipFirst {
    open spec fn prunes(&self, before: Vec<T>, after: Vec<T>) -> bool {
        pruned_to(before@, after@, rounded_share(before.len() as int, 1, 3), true)
    }

    fn prune(&self, items: &mut Vec<T>) {
        prune_share(items, 1, 3, Bias::Front, true);
    }
}

impl<T> PruneRandom<Vec<T>> for DefaultPruneThirdFrontSkipFirst {
    open spec fn prunes_random(&self, before: Vec<T>, after: Vec<T>) -> bool {
        pruned_to(before@, after@, rounded_share(before.len() as int, 1, 3), true)
    }

    fn prune_random(&self, items: &mut Vec<T>) {
        prune_share(items, 1, 3, Bias::Front, true);
    }
}

/// Shrinks a collection to two thirds of its length by removals drawn
/// towards the front, never the first item.
#[derive(Debug, Copy, Clone, Default)]
pub struct DefaultPruneTwoThirdFrontSkipFirst;

impl<T> PruneOther<Vec<T>> for DefaultPruneTwoThirdFrontSkipFirst {
    open spec fn prunes(&self, before: Vec<T>, after: Vec<T>) -> bool {
        pruned_to(before@, after@, rounded_share(before.len() as int, 2, 3), true)
    }

    fn prune(&self, items: &mut Vec<T>) {
        prune_share(items, 2, 3, Bias::Front, true);
    }
}

impl<T> PruneRandom<Vec<T>> for DefaultPruneTwoThirdFrontSkipFirst {
    open spec fn prunes_random(&self, before: Vec<T>, after: Vec<T>) -> bool {
        pruned_to(before@, after@, rounded_share(before.len() as int, 2, 3), true)
    }

    fn prune_random(&self, items: &mut Vec<T>) {
        prune_share(items, 2, 3, Bias::Front, true);
    }
}

} // verus!
