//! Random primitives: probabilities in millionths, coin flips, and the
//! biased index sampler that the selectors and pruners are built on.
use vstd::prelude::*;

verus! {

/// A probability in millionths: `0` never happens, `ODDS_ONE` always does.
pub type Odds = u32;

/// The probability one, in millionths.
pub const ODDS_ONE: Odds = 1000000;

/// The number of equally likely points that a uniform draw in `[0, 1)` takes.
pub const DRAW_SCALE: u64 = 1048576;

/// The point grid as an integer in specifications.
pub open spec fn scale() -> int {
    DRAW_SCALE as int
}

/// Relies on rand::Rng::gen_range on the thread-local generator: a value of `0..bound`.
#[verifier::external_body]
fn draw_below(bound: u64) -> (r: u64)
    requires
        bound > 0,
    ensures
        r < bound,
{
    rand::Rng::gen_range(&mut rand::thread_rng(), 0..bound)
}

/// Relies on rand::Rng::gen_ratio on the thread-local generator: a ratio of
/// zero never gives `true`, a ratio of one always does.
#[verifier::external_body]
fn draw_ratio(numerator: u32, denominator: u32) -> (r: bool)
    requires
        0 < denominator,
        numerator <= denominator,
    ensures
        numerator == 0 ==> !r,
        numerator == denominator ==> r,
{
    rand::Rng::gen_ratio(&mut rand::thread_rng(), numerator, denominator)
}

/// Relies on rand::distributions::WeightedIndex: built from weights of which
/// one at least is positive, it draws an index whose weight is positive.
#[verifier::external_body]
pub(crate) fn draw_weighted_index(weights: &Vec<u64>) -> (r: usize)
    requires
        0 < weights.len() <= u32::MAX,
        forall|i: int| 0 <= i < weights.len() ==> #[trigger] weights[i] <= ODDS_ONE,
        exists|i: int| 0 <= i < weights.len() && #[trigger] weights[i] > 0,
    ensures
        r < weights.len(),
        weights[r as int] > 0,
{
    let distribution = rand::distributions::WeightedIndex::new(weights).unwrap();
    rand::distributions::Distribution::sample(&distribution, &mut rand::thread_rng())
}

/// Flips a coin that lands `true` with the given odds.
pub fn coin_flip(odds: Odds) -> (r: bool)
    requires
        odds <= ODDS_ONE,
    ensures
        odds == 0 ==> !r,
        odds == ODDS_ONE ==> r,
{
    draw_ratio(odds, ODDS_ONE)
}

/// Which end of an ordered collection a biased draw favours.
#[derive(Debug, Copy, Clone, Default, PartialEq, Eq, Structural)]
pub enum Bias {
    #[default]
    Front,
    FrontInverse,
    Back,
    BackInverse,
}

impl Bias {
    /// Swaps a bias with its inverse.
    pub fn inverse(&self) -> (r: Self)
        ensures
            r == match *self {
                Bias::Front => Bias::FrontInverse,
                Bias::FrontInverse => Bias::Front,
                Bias::Back => Bias::BackInverse,
                Bias::BackInverse => Bias::Back,
            },
    {
        match self {
            Bias::Front => Bias::FrontInverse,
            Bias::FrontInverse => Bias::Front,
            Bias::Back => Bias::BackInverse,
            Bias::BackInverse => Bias::Back,
        }
    }
}

pub open spec fn cube(n: int) -> int {
    n * n * n
}

pub open spec fn is_cube_root(n: int, r: int) -> bool {
    0 <= r && cube(r) <= n && n < cube(r + 1)
}

/// The integer cube root: the largest `r` with `r³ <= n`.
pub open spec fn cube_root(n: int) -> int {
    choose|r: int| is_cube_root(n, r)
}

proof fn lemma_cube_monotone(a: int, b: int)
    requires
        0 <= a <= b,
    ensures
        cube(a) <= cube(b),
{
    assert(a * a <= b * b) by (nonlinear_arith)
        requires
            0 <= a <= b,
    ;
    assert(a * a * a <= b * b * b) by (nonlinear_arith)
        requires
            0 <= a <= b,
            a * a <= b * b,
    ;
}

proof fn lemma_cube_root_unique(n: int, r: int, s: int)
    requires
        is_cube_root(n, r),
        is_cube_root(n, s),
    ensures
        r == s,
{
    if r < s {
        lemma_cube_monotone(r + 1, s);
    } else if s < r {
        lemma_cube_monotone(s + 1, r);
    }
}

proof fn lemma_cube_root_is(n: int, r: int)
    requires
        is_cube_root(n, r),
    ensures
        cube_root(n) == r,
{
    lemma_cube_root_unique(n, r, cube_root(n));
}

/// The integer cube root of `n`, for `n` up to `DRAW_SCALE³`.
fn integer_cube_root(n: u64) -> (r: u64)
    requires
        n <= scale() * scale() * scale(),
    ensures
        r as int == cube_root(n as int),
        r <= DRAW_SCALE,
{
    let mut lo: u64 = 0;
    let mut hi: u64 = DRAW_SCALE + 1;
    assert(cube(hi as int) > scale() * scale() * scale()) by (nonlinear_arith)
        requires
            hi as int == scale() + 1,
            scale() == 1048576,
    ;
    while hi - lo > 1
        invariant
            lo < hi <= DRAW_SCALE + 1,
            cube(lo as int) <= n,
            n < cube(hi as int),
        decreases hi - lo,
    {
        let mid: u64 = lo + (hi - lo) / 2;
        assert(mid <= DRAW_SCALE);
        assert(cube(mid as int) <= scale() * scale() * scale()) by {
            lemma_cube_monotone(mid as int, scale());
        }
        assert(scale() * scale() * scale() == 1152921504606846976) by (nonlinear_arith)
            requires
                scale() == 1048576,
        ;
        assert(mid * mid * mid == cube(mid as int)) by (nonlinear_arith)
            requires
                mid as int * mid as int * mid as int <= 1152921504606846976,
        ;
        assert(mid * mid <= 1099511627776) by (nonlinear_arith)
            requires
                mid <= 1048576,
        ;
        let c: u64 = mid * mid * mid;
        if c <= n {
            lo = mid;
        } else {
            hi = mid;
        }
    }
    assert(hi == lo + 1);
    assert(lo <= DRAW_SCALE) by {
        if lo > DRAW_SCALE {
            lemma_cube_monotone(scale() + 1, lo as int);
        }
    }
    proof {
        lemma_cube_root_is(n as int, lo as int);
    }
    lo
}

/// The front-weighted curve `x³ + 1 − (1 − x)^(1/3)` at `x = k / DRAW_SCALE`,
/// scaled by `DRAW_SCALE`.
pub open spec fn front_value(k: int) -> int {
    cube(k) / (scale() * scale()) + scale() - cube_root((scale() - k) * scale() * scale())
}

/// The back-weighted curve `1 − |x − 1|³ + x^(1/3)` at `x = k / DRAW_SCALE`,
/// scaled by `DRAW_SCALE`.
pub open spec fn back_value(k: int) -> int {
    scale() - cube(scale() - k) / (scale() * scale()) + cube_root(k * scale() * scale())
}

/// The skewed value of a draw for a bias; the inverse biases give one minus
/// the value of the bias they invert.
pub open spec fn bias_value(k: int, bias: Bias) -> int {
    match bias {
        Bias::Front => front_value(k),
        Bias::Back => back_value(k),
        Bias::FrontInverse => scale() - front_value(k),
        Bias::BackInverse => scale() - back_value(k),
    }
}

/// Half the skewed value times `len`, floored and clamped to `[0, len)`.
pub open spec fn index_of_value(v: int, len: int) -> int {
    if v <= 0 {
        0
    } else if v * len / (2 * scale()) >= len {
        len - 1
    } else {
        v * len / (2 * scale())
    }
}

/// The index that the draw `k` of `0..DRAW_SCALE` gives over `len` items.
pub open spec fn biased_index(k: int, len: int, bias: Bias) -> int {
    index_of_value(bias_value(k, bias), len)
}

fn front_value_exec(k: u64) -> (r: u64)
    requires
        k < DRAW_SCALE,
    ensures
        r as int == front_value(k as int),
        r <= 2 * DRAW_SCALE,
{
    assert(scale() * scale() == 1099511627776) by (nonlinear_arith)
        requires
            scale() == 1048576,
    ;
    assert(cube(k as int) < scale() * scale() * scale()) by {
        lemma_cube_monotone(k as int, scale() - 1);
        assert(cube(scale() - 1) < scale() * scale() * scale()) by (nonlinear_arith)
            requires
                scale() == 1048576,
        ;
    }
    assert(k * k * k == cube(k as int)) by (nonlinear_arith)
        requires
            cube(k as int) < 1152921504606846976,
            k < 1048576,
    ;
    assert(k * k <= 1099511627776) by (nonlinear_arith)
        requires
            k < 1048576,
    ;
    let kc: u64 = k * k * k;
    let t: u64 = kc / (DRAW_SCALE * DRAW_SCALE);
    assert(t <= DRAW_SCALE) by (nonlinear_arith)
        requires
            t == kc / 1099511627776,
            kc < 1152921504606846976,
    ;
    let rest: u64 = DRAW_SCALE - k;
    assert(rest * scale() * scale() <= scale() * scale() * scale()) by (nonlinear_arith)
        requires
            rest <= scale(),
            scale() > 0,
    ;
    let root = integer_cube_root(rest * DRAW_SCALE * DRAW_SCALE);
    t + DRAW_SCALE - root
}

fn back_value_exec(k: u64) -> (r: u64)
    requires
        k < DRAW_SCALE,
    ensures
        r as int == back_value(k as int),
        r <= 2 * DRAW_SCALE,
{
    assert(scale() * scale() == 1099511627776) by (nonlinear_arith)
        requires
            scale() == 1048576,
    ;
    let rest: u64 = DRAW_SCALE - k;
    assert(cube(rest as int) <= scale() * scale() * scale()) by {
        lemma_cube_monotone(rest as int, scale());
    }
    assert(rest * rest * rest == cube(rest as int)) by (nonlinear_arith)
        requires
            cube(rest as int) <= 1152921504606846976,
            rest <= 1048576,
    ;
    assert(rest * rest <= 1099511627776) by (nonlinear_arith)
        requires
            rest <= 1048576,
    ;
    let rc: u64 = rest * rest * rest;
    let t: u64 = rc / (DRAW_SCALE * DRAW_SCALE);
    assert(t <= DRAW_SCALE) by (nonlinear_arith)
        requires
            t == rc / 1099511627776,
            rc <= 1152921504606846976,
    ;
    assert(k * scale() * scale() <= scale() * scale() * scale()) by (nonlinear_arith)
        requires
            k <= scale(),
            scale() > 0,
    ;
    let root = integer_cube_root(k * DRAW_SCALE * DRAW_SCALE);
    DRAW_SCALE - t + root
}

/// The index that the draw `k` of `0..DRAW_SCALE` gives over `len` items
/// under `bias`: always an index of the collection.
pub fn index_from_draw(k: u64, len: usize, bias: Bias) -> (r: usize)
    requires
        k < DRAW_SCALE,
        len > 0,
    ensures
        r as int == biased_index(k as int, len as int, bias),
        r < len,
{
    let v: u64 = match bias {
        Bias::Front => front_value_exec(k),
        Bias::Back => back_value_exec(k),
        Bias::FrontInverse => {
            let f = front_value_exec(k);
            if f >= DRAW_SCALE {
                0
            } else {
                DRAW_SCALE - f
            }
        },
        Bias::BackInverse => {
            let b = back_value_exec(k);
            if b >= DRAW_SCALE {
                0
            } else {
                DRAW_SCALE - b
            }
        },
    };
    assert(v <= 0 <==> bias_value(k as int, bias) <= 0);
    assert(v > 0 ==> v as int == bias_value(k as int, bias));
    if v == 0 {
        return 0;
    }
    assert(v as u128 * len as u128 <= 2 * DRAW_SCALE as u128 * 0xffff_ffff_ffff_ffffu128) by (nonlinear_arith)
        requires
            v <= 2 * DRAW_SCALE,
            len <= 0xffff_ffff_ffff_ffffu64,
    ;
    let i: u128 = (v as u128 * len as u128) / (2 * DRAW_SCALE as u128);
    if i >= len as u128 {
        len - 1
    } else {
        i as usize
    }
}

/// Draws an index of `0..len`, skewed towards the end that `bias` names.
pub fn random_index_bias(len: usize, bias: Bias) -> (r: usize)
    requires
        len > 0,
    ensures
        r < len,
        exists|k: int| 0 <= k < scale() && r as int == biased_index(k, len as int, bias),
{
    let k = draw_below(DRAW_SCALE);
    index_from_draw(k, len, bias)
}

/// How many times a draw that keeps missing is repeated before a scan takes over.
pub const MAX_REDRAWS: u32 = 64;

/// `ix` lists positions of a sequence of length `len` in strictly increasing order.
pub open spec fn ordered_indices(ix: Seq<int>, len: int) -> bool {
    &&& forall|a: int, b: int| 0 <= a < b < ix.len() ==> ix[a] < ix[b]
    &&& forall|a: int| 0 <= a < ix.len() ==> 0 <= #[trigger] ix[a] < len
}

/// `picked` is the items of `from` at the ordered positions `ix`.
pub open spec fn picks<T>(from: Seq<T>, picked: Seq<T>, ix: Seq<int>) -> bool {
    &&& ordered_indices(ix, from.len() as int)
    &&& picked.len() == ix.len()
    &&& forall|k: int| 0 <= k < ix.len() ==> picked[k] == from[#[trigger] ix[k]]
}

/// `picked` keeps some of the items of `from`, in their relative order.
pub open spec fn is_ordered_pick<T>(from: Seq<T>, picked: Seq<T>) -> bool {
    exists|ix: Seq<int>| picks(from, picked, ix)
}

/// The number of `true` entries.
pub open spec fn count_true(s: Seq<bool>) -> nat
    decreases s.len(),
{
    if s.len() == 0 {
        0
    } else {
        count_true(s.drop_last()) + if s.last() {
            1nat
        } else {
            0nat
        }
    }
}

pub proof fn lemma_count_true_update(s: Seq<bool>, i: int, b: bool)
    requires
        0 <= i < s.len(),
        s[i] != b,
    ensures
        count_true(s.update(i, b)) as int == if b {
            count_true(s) as int + 1
        } else {
            count_true(s) as int - 1
        },
    decreases s.len(),
{
    let u = s.update(i, b);
    if i == s.len() - 1 {
        assert(u.drop_last() =~= s.drop_last());
    } else {
        assert(u.drop_last() =~= s.drop_last().update(i, b));
        lemma_count_true_update(s.drop_last(), i, b);
    }
}

pub proof fn lemma_count_true_all(s: Seq<bool>, b: bool)
    requires
        forall|i: int| 0 <= i < s.len() ==> s[i] == b,
    ensures
        count_true(s) as int == if b {
            s.len() as int
        } else {
            0
        },
    decreases s.len(),
{
    if s.len() > 0 {
        lemma_count_true_all(s.drop_last(), b);
    }
}

pub proof fn lemma_count_true_some(s: Seq<bool>, b: bool)
    requires
        if b {
            count_true(s) > 0
        } else {
            count_true(s) < s.len()
        },
    ensures
        exists|i: int| 0 <= i < s.len() && s[i] == b,
    decreases s.len(),
{
    if s.len() > 0 {
        if s.last() != b {
            lemma_count_true_some(s.drop_last(), b);
            let i = choose|i: int| 0 <= i < s.drop_last().len() && s.drop_last()[i] == b;
            assert(s[i] == b);
        } else {
            assert(s[s.len() - 1] == b);
        }
    } else {
        assert(false);
    }
}

/// Draws a position whose mark equals `wanted`, skewed by `bias`. After
/// `MAX_REDRAWS` misses the first such position from the favoured end is
/// taken: the front for `Front` and `BackInverse`, else the back.
pub fn draw_marked(marks: &Vec<bool>, wanted: bool, bias: Bias) -> (r: usize)
    requires
        exists|i: int| 0 <= i < marks.len() && marks[i] == wanted,
    ensures
        r < marks.len(),
        marks[r as int] == wanted,
{
    let len = marks.len();
    let mut tries: u32 = 0;
    while tries < MAX_REDRAWS
        invariant
            len == marks.len(),
            len > 0,
        decreases MAX_REDRAWS - tries,
    {
        let i = random_index_bias(len, bias);
        if marks[i] == wanted {
            return i;
        }
        tries = tries + 1;
    }
    let from_back = match bias {
        Bias::Front | Bias::BackInverse => false,
        Bias::Back | Bias::FrontInverse => true,
    };
    let mut scanned: usize = 0;
    while scanned < len
        invariant
            len == marks.len(),
            scanned <= len,
            forall|j: int|
                (if from_back { len - scanned <= j < len } else { 0 <= j < scanned }) ==> marks[j] != wanted,
            exists|j: int| 0 <= j < marks.len() && marks[j] == wanted,
        decreases len - scanned,
    {
        let i = if from_back {
            len - 1 - scanned
        } else {
            scanned
        };
        if marks[i] == wanted {
            return i;
        }
        scanned = scanned + 1;
    }
    proof {
        let j = choose|j: int| 0 <= j < marks.len() && marks[j] == wanted;
        assert(marks[j] != wanted);
    }
    0
}

/// The positions whose mark is set, in increasing order.
pub fn marked_positions(marks: &Vec<bool>) -> (r: Vec<usize>)
    ensures
        r.len() == count_true(marks@),
        forall|a: int, b: int| 0 <= a < b < r.len() ==> r[a] < r[b],
        forall|a: int| 0 <= a < r.len() ==> #[trigger] r[a] < marks.len() && marks[r[a] as int],
        forall|i: int| 0 <= i < marks.len() && marks[i] ==> exists|a: int| 0 <= a < r.len() && r[a] == i,
{
    let mut r: Vec<usize> = Vec::new();
    let mut i: usize = 0;
    while i < marks.len()
        invariant
            i <= marks.len(),
            r.len() == count_true(marks@.subrange(0, i as int)),
            forall|a: int, b: int| 0 <= a < b < r.len() ==> r[a] < r[b],
            forall|a: int| 0 <= a < r.len() ==> #[trigger] r[a] < i && marks[r[a] as int],
            forall|j: int| 0 <= j < i && marks[j] ==> exists|a: int| 0 <= a < r.len() && r[a] == j,
        decreases marks.len() - i,
    {
        assert(marks@.subrange(0, i as int + 1).drop_last() =~= marks@.subrange(0, i as int));
        let ghost old_r = r@;
        if marks[i] {
            r.push(i);
        }
        assert forall|j: int| 0 <= j < i + 1 && marks[j] implies exists|a: int|
            0 <= a < r.len() && r[a] == j by {
            if j < i {
                let a = choose|a: int| 0 <= a < old_r.len() && old_r[a] == j;
                assert(r[a] == j);
            } else {
                assert(r[r.len() - 1] == j);
            }
        }
        i = i + 1;
    }
    assert(marks@.subrange(0, marks.len() as int) =~= marks@);
    r
}

/// Moves the items at the ordered positions `ix` out of `items`, keeping their order.
pub fn take_ordered<T>(items: Vec<T>, ix: &Vec<usize>) -> (r: Vec<T>)
    requires
        forall|a: int, b: int| 0 <= a < b < ix.len() ==> ix[a] < ix[b],
        forall|a: int| 0 <= a < ix.len() ==> #[trigger] ix[a] < items.len(),
    ensures
        picks(items@, r@, ix@.map_values(|i: usize| i as int)),
{
    let ghost orig = items@;
    let ghost ixs = ix@.map_values(|i: usize| i as int);
    let mut items = items;
    let mut backwards: Vec<T> = Vec::new();
    let mut k: usize = ix.len();
    let mut i: usize = items.len();
    while i > 0
        invariant
            items@ == orig.subrange(0, i as int),
            k <= ix.len(),
            i <= orig.len(),
            backwards.len() == ix.len() - k,
            forall|a: int, b: int| 0 <= a < b < ix.len() ==> ix[a] < ix[b],
            forall|a: int| 0 <= a < ix.len() ==> #[trigger] ix[a] < orig.len(),
            forall|a: int| 0 <= a < k ==> #[trigger] ix[a] < i,
            forall|m: int| 0 <= m < backwards.len() ==> #[trigger] backwards[m] == orig[ix[ix.len() - 1 - m] as int],
        decreases i,
    {
        i = i - 1;
        let x = items.pop();
        match x {
            Some(v) => {
                if k > 0 && ix[k - 1] == i {
                    backwards.push(v);
                    k = k - 1;
                }
            },
            None => {},
        }
    }
    assert(k == 0) by {
        if k > 0 {
            assert(ix[0] < 0);
        }
    }
    let mut r: Vec<T> = Vec::new();
    while backwards.len() > 0
        invariant
            r.len() + backwards.len() == ix.len(),
            forall|m: int| 0 <= m < backwards.len() ==> #[trigger] backwards[m] == orig[ix[ix.len() - 1 - m] as int],
            forall|m: int| 0 <= m < r.len() ==> #[trigger] r[m] == orig[ix[m] as int],
        decreases backwards.len(),
    {
        let x = backwards.pop();
        match x {
            Some(v) => {
                r.push(v);
            },
            None => {},
        }
    }
    assert(picks(orig, r@, ixs));
    r
}

} // verus!
