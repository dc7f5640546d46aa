//! Selectors: take all items, one biased item, or a biased subset in order.
use vstd::prelude::*;

use crate::util::{
    count_true, draw_marked, is_ordered_pick, lemma_count_true_all,
    lemma_count_true_some, lemma_count_true_update, marked_positions, picks, random_index_bias,
    take_ordered, Bias,
};

verus! {

/// A strategy that picks from a collection of items.
pub trait SelectOther<T>: Copy {
    type Output;

    /// `out` is a possible selection from `items`.
    spec fn selects(&self, items: Seq<T>, out: Self::Output) -> bool;

    fn select_from(self, items: Vec<T>) -> (r: Self::Output)
        ensures
            self.selects(items@, r),
    ;
}

/// A strategy that picks from a collection of items at random.
pub trait SelectOtherRandom<T> {
    type Output;

    /// `out` is a possible random selection from `items`.
    spec fn selects_random(&self, items: Seq<T>, out: Self::Output) -> bool;

    fn select_random(self, items: Vec<T>) -> (r: Self::Output)
        ensures
            self.selects_random(items@, r),
    ;
}

/// Selects every item.
#[derive(Debug, Copy, Clone, Default)]
pub struct SelectAll;

impl<T> SelectOther<T> for SelectAll {
    type Output = Vec<T>;

    open spec fn selects(&self, items: Seq<T>, out: Vec<T>) -> bool {
        out@ == items
    }

    fn select_from(self, items: Vec<T>) -> (r: Vec<T>) {
        items
    }
}

/// Selects a single item by a biased draw.
#[derive(Debug, Copy, Clone, Default)]
pub struct SelectRandomWithBias {
    bias: Bias,
}

impl SelectRandomWithBias {
    pub closed spec fn spec_bias(&self) -> Bias {
        self.bias
    }

    pub fn new(bias: Bias) -> (r: Self)
        ensures
            r.spec_bias() == bias,
    {
        Self { bias }
    }

    pub fn bias(&self) -> (r: &Bias)
        ensures
            *r == self.spec_bias(),
    {
        &self.bias
    }

    /// `out` is `None` exactly when there are no items, else one of them.
    pub open spec fn picked_one<T>(items: Seq<T>, out: Option<T>) -> bool {
        &&& out is None <==> items.len() == 0
        &&& out matches Some(x) ==> exists|i: int| 0 <= i < items.len() && items[i] == x
    }

    /// Picks one item, skewed towards the end that the bias favours; `None`
    /// exactly when there are no items.
    pub fn select_one<T>(self, items: Vec<T>) -> (r: Option<T>)
        ensures
            Self::picked_one(items@, r),
    {
        let mut items = items;
        if items.len() == 0 {
            return None;
        }
        let ghost orig = items@;
        let i = random_index_bias(items.len(), self.bias);
        let x = items.swap_remove(i);
        assert(orig[i as int] == x);
        Some(x)
    }
}

impl<T> SelectOther<T> for SelectRandomWithBias {
    type Output = Option<T>;

    open spec fn selects(&self, items: Seq<T>, out: Option<T>) -> bool {
        Self::picked_one(items, out)
    }

    fn select_from(self, items: Vec<T>) -> (r: Option<T>) {
        self.select_one(items)
    }
}

impl<T> SelectOtherRandom<T> for SelectRandomWithBias {
    type Output = Option<T>;

    open spec fn selects_random(&self, items: Seq<T>, out: Option<T>) -> bool {
        Self::picked_one(items, out)
    }

    fn select_random(self, items: Vec<T>) -> (r: Option<T>) {
        self.select_one(items)
    }
}

/// Selects up to `amount` items by biased draws, keeping their relative order.
#[derive(Debug, Copy, Clone, Default)]
pub struct SelectRandomManyWithBias {
    amount: usize,
    bias: Bias,
}

/// The number of items that selecting `amount` out of `len` yields.
pub open spec fn selected_count(amount: int, len: int) -> int {
    if amount < len {
        amount
    } else {
        len
    }
}

impl SelectRandomManyWithBias {
    pub closed spec fn spec_amount(&self) -> usize {
        self.amount
    }

    pub closed spec fn spec_bias(&self) -> Bias {
        self.bias
    }

    pub fn new(amount: usize, bias: Bias) -> (r: Self)
        ensures
            r.spec_amount() == amount,
            r.spec_bias() == bias,
    {
        Self { amount, bias }
    }

    pub fn amount(&self) -> (r: &usize)
        ensures
            *r == self.spec_amount(),
    {
        &self.amount
    }

    pub fn bias(&self) -> (r: &Bias)
        ensures
            *r == self.spec_bias(),
    {
        &self.bias
    }

    /// Chooses `min(amount, len)` distinct positions of `0..len`, in increasing
    /// order. Below half of `len` positions are drawn in; otherwise positions
    /// are drawn out of the full range with the inverse bias.
    pub fn select_random_indexes(&self, len: usize) -> (r: Vec<usize>)
        ensures
            r.len() == selected_count(self.spec_amount() as int, len as int),
            forall|a: int, b: int| 0 <= a < b < r.len() ==> r[a] < r[b],
            forall|a: int| 0 <= a < r.len() ==> #[trigger] r[a] < len,
    {
        let max_amount: usize = if self.amount < len {
            self.amount
        } else {
            len
        };
        if max_amount >= len {
            let mut all: Vec<usize> = Vec::new();
            let mut i: usize = 0;
            while i < len
                invariant
                    i <= len,
                    all.len() == i,
                    forall|a: int| 0 <= a < i ==> #[trigger] all[a] == a,
                decreases len - i,
            {
                all.push(i);
                i = i + 1;
            }
            return all;
        }
        if max_amount < len - max_amount {
            let mut marks: Vec<bool> = vec![false; len];
            let mut count: usize = 0;
            proof {
                lemma_count_true_all(marks@, false);
            }
            while count < max_amount
                invariant
                    marks.len() == len,
                    max_amount < len,
                    count <= max_amount,
                    count_true(marks@) == count,
                decreases max_amount - count,
            {
                proof {
                    lemma_count_true_some(marks@, false);
                }
                let i = draw_marked(&marks, false, self.bias);
                proof {
                    lemma_count_true_update(marks@, i as int, true);
                }
                marks.set(i, true);
                count = count + 1;
            }
            marked_positions(&marks)
        } else {
            let mut marks: Vec<bool> = vec![true; len];
            let mut count: usize = len;
            proof {
                lemma_count_true_all(marks@, true);
            }
            let inverse = self.bias.inverse();
            while count > max_amount
                invariant
                    marks.len() == len,
                    count >= max_amount,
                    count_true(marks@) == count,
                decreases count,
            {
                proof {
                    lemma_count_true_some(marks@, true);
                }
                let i = draw_marked(&marks, true, inverse);
                proof {
                    lemma_count_true_update(marks@, i as int, false);
                }
                marks.set(i, false);
                count = count - 1;
            }
            marked_positions(&marks)
        }
    }

    /// `out` is `min(amount, items.len())` distinct items, in their relative order.
    pub open spec fn picked_many<T>(&self, items: Seq<T>, out: Vec<T>) -> bool {
        &&& out.len() == selected_count(self.spec_amount() as int, items.len() as int)
        &&& is_ordered_pick(items, out@)
    }

    /// Picks `min(amount, items.len())` distinct items, in their relative order.
    pub fn select_random<T>(self, items: Vec<T>) -> (r: Vec<T>)
        ensures
            self.picked_many(items@, r),
    {
        let ix = self.select_random_indexes(items.len());
        let ghost orig = items@;
        let r = take_ordered(items, &ix);
        assert(picks(orig, r@, ix@.map_values(|i: usize| i as int)));
        r
    }
}

impl<T> SelectOther<T> for SelectRandomManyWithBias {
    type Output = Vec<T>;

    open spec fn selects(&self, items: Seq<T>, out: Vec<T>) -> bool {
        self.picked_many(items, out)
    }

    fn select_from(self, items: Vec<T>) -> (r: Vec<T>) {
        self.select_random(items)
    }
}

impl<T> SelectOtherRandom<T> for SelectRandomManyWithBias {
    type Output = Vec<T>;

    open spec fn selects_random(&self, items: Seq<T>, out: Vec<T>) -> bool {
        self.picked_many(items, out)
    }

    fn select_random(self, items: Vec<T>) -> (r: Vec<T>) {
        SelectRandomManyWithBias::select_random(self, items)
    }
}

} // verus!
