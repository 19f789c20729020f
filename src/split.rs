//! Uniform row shuffle and train/test split.
use rand::Rng;
use vstd::prelude::*;

verus! {

/// `s` with the entries at positions `i` and `j` exchanged.
pub open spec fn swap_at<T>(s: Seq<T>, i: int, j: int) -> Seq<T> {
    s.update(i, s[j]).update(j, s[i])
}

/// `draws` holds one swap target per row of an `n`-row table, the target of
/// row `k` lying in `0..=k` (so the target of row 0 is 0).
pub open spec fn draws_fit(draws: Seq<usize>, n: nat) -> bool {
    &&& draws.len() == n
    &&& forall|k: int| 0 <= k < n ==> #[trigger] draws[k] <= k
}

/// The rows after the first `k` steps of the single-pass Fisher-Yates shuffle:
/// step `i` exchanges the row now at position `i` with the one now at
/// position `draws[i]`.
pub open spec fn shuffle_steps<T>(rows: Seq<T>, draws: Seq<usize>, k: nat) -> Seq<T>
    decreases k,
{
    if k == 0 {
        rows
    } else {
        swap_at(shuffle_steps(rows, draws, (k - 1) as nat), k - 1, draws[k - 1] as int)
    }
}

/// The rows after the whole shuffle driven by `draws`.
pub open spec fn shuffled<T>(rows: Seq<T>, draws: Seq<usize>) -> Seq<T> {
    shuffle_steps(rows, draws, rows.len())
}

proof fn lemma_swap_keeps_multiset<T>(s: Seq<T>, i: int, j: int)
    requires
        0 <= i < s.len(),
        0 <= j < s.len(),
    ensures
        swap_at(s, i, j).len() == s.len(),
        swap_at(s, i, j).to_multiset() == s.to_multiset(),
{
    broadcast use vstd::seq_lib::group_to_multiset_ensures;
    broadcast use vstd::multiset::group_multiset_axioms;

    let t = s.update(i, s[j]);
    vstd::seq_lib::to_multiset_update(s, i, s[j]);
    vstd::seq_lib::to_multiset_update(t, j, s[i]);
    assert(s.to_multiset().count(s[j]) > 0);
    assert(t[j] == s[j]);
    assert(t.update(j, s[i]).to_multiset() =~= s.to_multiset());
}

/// Every prefix of the shuffle keeps the rows, each as many times as before.
proof fn lemma_steps_keep_multiset<T>(rows: Seq<T>, draws: Seq<usize>, k: nat)
    requires
        draws_fit(draws, rows.len()),
        k <= rows.len(),
    ensures
        shuffle_steps(rows, draws, k).len() == rows.len(),
        shuffle_steps(rows, draws, k).to_multiset() == rows.to_multiset(),
    decreases k,
{
    if k > 0 {
        lemma_steps_keep_multiset(rows, draws, (k - 1) as nat);
        assert(draws[k - 1] <= k - 1);
        lemma_swap_keeps_multiset(shuffle_steps(rows, draws, (k - 1) as nat), k - 1, draws[k - 1] as int);
    }
}

/// The shuffle is a permutation: for every table and every admissible
/// sequence of draws, the shuffled table holds exactly the same rows, each
/// as many times as the original, and nothing else.
pub proof fn lemma_shuffle_is_permutation<T>(rows: Seq<T>, draws: Seq<usize>)
    requires
        draws_fit(draws, rows.len()),
    ensures
        shuffled(rows, draws).len() == rows.len(),
        shuffled(rows, draws).to_multiset() == rows.to_multiset(),
{
    lemma_steps_keep_multiset(rows, draws, rows.len());
}

/// Exchanges the rows at positions `a` and `b` in constant time.
fn swap_rows<T>(rows: &mut Vec<T>, a: usize, b: usize)
    requires
        a < old(rows).len(),
        b < old(rows).len(),
    ensures
        final(rows)@ == swap_at(old(rows)@, a as int, b as int),
{
    let ghost s = rows@;
    if a == b {
        assert(rows@ =~= swap_at(s, a as int, b as int));
        return;
    }
    let (lo, hi) = if a < b { (a, b) } else { (b, a) };
    let last = rows.len() - 1;
    let mut held = rows.swap_remove(hi);
    std::mem::swap(&mut held, &mut rows[lo]);
    rows.push(held);
    if hi < last {
        let moved = rows.swap_remove(hi);
        rows.push(moved);
    }
    assert(rows@ =~= swap_at(s, a as int, b as int));
}

/// Shuffles `rows` in place with the swap targets `draws`: for `i` from the
/// first row to the last, the row at `i` is exchanged with the row currently
/// at `draws[i]`.
pub fn shuffle_rows<T>(rows: &mut Vec<T>, draws: &Vec<usize>)
    requires
        draws_fit(draws@, old(rows)@.len()),
    ensures
        final(rows)@ == shuffled(old(rows)@, draws@),
        final(rows)@.len() == old(rows)@.len(),
        final(rows)@.to_multiset() == old(rows)@.to_multiset(),
{
    let ghost orig = rows@;
    let n = rows.len();
    let mut i: usize = 0;
    while i < n
        invariant
            n == orig.len(),
            i <= n,
            draws_fit(draws@, n as nat),
            rows@ == shuffle_steps(orig, draws@, i as nat),
        decreases n - i,
    {
        proof {
            lemma_steps_keep_multiset(orig, draws@, i as nat);
        }
        let j = draws[i];
        swap_rows(rows, i, j);
        i = i + 1;
    }
    proof {
        lemma_shuffle_is_permutation(orig, draws@);
    }
}

/// The share of the rows that goes to the training set: `part` rows of every
/// `whole`.
#[derive(Clone, Copy, Debug, PartialEq, Eq, Structural)]
pub struct TrainRatio {
    pub part: u64,
    pub whole: u64,
}

impl TrainRatio {
    pub fn new(part: u64, whole: u64) -> (r: TrainRatio)
        ensures
            r.part == part,
            r.whole == whole,
    {
        TrainRatio { part, whole }
    }

    /// The ratio lies strictly between 0 and 1.
    pub open spec fn in_unit_interval(self) -> bool {
        0 < self.part < self.whole
    }

    /// Tests whether the ratio lies strictly between 0 and 1.
    pub fn is_in_unit_interval(&self) -> (b: bool)
        ensures
            b == self.in_unit_interval(),
    {
        0 < self.part && self.part < self.whole
    }

    /// The number of training rows for an `n`-row table: `floor(ratio * n)`.
    pub open spec fn train_rows(self, n: nat) -> nat {
        ((self.part * n) / (self.whole as int)) as nat
    }
}

/// Why a table cannot be split.
#[derive(Clone, Copy, Debug, PartialEq, Eq, Structural)]
pub enum SplitError {
    /// The table has no rows.
    EmptyDataset,
    /// The ratio leaves no row for training.
    EmptyTrainSet,
}

/// When splitting `rows` at `train_ratio` fails, and how: `EmptyDataset`
/// exactly when there is no row, `EmptyTrainSet` exactly when there are rows
/// but `floor(ratio * n)` is zero, and success otherwise.
pub open spec fn split_outcome_ok<T>(
    rows: Seq<T>,
    train_ratio: TrainRatio,
    r: Result<(Vec<T>, Vec<T>), SplitError>,
) -> bool {
    &&& (r == Err::<(Vec<T>, Vec<T>), SplitError>(SplitError::EmptyDataset)) <==> rows.len() == 0
    &&& (r == Err::<(Vec<T>, Vec<T>), SplitError>(SplitError::EmptyTrainSet)) <==> (rows.len() > 0
        && train_ratio.train_rows(rows.len()) == 0)
    &&& r is Ok <==> train_ratio.train_rows(rows.len()) > 0
}

/// The number of training rows is below `n` whenever the ratio is below 1.
proof fn lemma_train_rows_below(train_ratio: TrainRatio, n: nat)
    requires
        train_ratio.in_unit_interval(),
        n > 0,
    ensures
        train_ratio.train_rows(n) < n,
{
    let p = train_ratio.part as int;
    let w = train_ratio.whole as int;
    assert(p * n < w * n) by (nonlinear_arith)
        requires
            0 < p < w,
            n > 0,
    ;
    assert((p * n) / w < n) by (nonlinear_arith)
        requires
            p * n < w * n,
            w > 0,
            p * n >= 0,
    ;
}

/// Splits `rows` for training and testing after shuffling them with the swap
/// targets `draws`: the first `floor(ratio * n)` shuffled rows become the
/// training set, the rest the test set.
pub fn split_with_draws<T>(rows: Vec<T>, train_ratio: TrainRatio, draws: &Vec<usize>) -> (r: Result<
    (Vec<T>, Vec<T>),
    SplitError,
>)
    requires
        train_ratio.in_unit_interval(),
        draws_fit(draws@, rows@.len()),
    ensures
        split_outcome_ok(rows@, train_ratio, r),
        r matches Ok((train, test)) ==> {
            let cut = train_ratio.train_rows(rows@.len()) as int;
            &&& train@ == shuffled(rows@, draws@).subrange(0, cut)
            &&& test@ == shuffled(rows@, draws@).subrange(cut, rows@.len() as int)
        },
{
    let n = rows.len();
    if n == 0 {
        assert(train_ratio.part * 0nat == 0);
        return Err(SplitError::EmptyDataset);
    }
    proof {
        lemma_train_rows_below(train_ratio, n as nat);
    }
    assert((train_ratio.part as u128) * (n as u128) <= u128::MAX) by (nonlinear_arith)
        requires
            train_ratio.part <= u64::MAX,
            n <= u64::MAX,
    ;
    let quotient = (train_ratio.part as u128) * (n as u128) / (train_ratio.whole as u128);
    assert(quotient < n);
    let cut = quotient as usize;
    assert(cut == train_ratio.train_rows(n as nat));
    if cut == 0 {
        return Err(SplitError::EmptyTrainSet);
    }
    let mut train = rows;
    shuffle_rows(&mut train, draws);
    let test = train.split_off(cut);
    Ok((train, test))
}

/// Relies on `rand::thread_rng` and `Rng::gen_range`: a value drawn from the
/// inclusive range `0..=high`.
#[verifier::external_body]
fn draw_at_most(high: usize) -> (r: usize)
    ensures
        r <= high,
{
    rand::thread_rng().gen_range(0..=high)
}

/// Draws one swap target per row of an `n`-row table, from the thread-local
/// random generator.
pub fn random_draws(n: usize) -> (draws: Vec<usize>)
    ensures
        draws_fit(draws@, n as nat),
{
    let mut draws: Vec<usize> = Vec::new();
    let mut k: usize = 0;
    while k < n
        invariant
            k <= n,
            draws_fit(draws@, k as nat),
        decreases n - k,
    {
        let j = if k == 0 {
            0
        } else {
            draw_at_most(k)
        };
        draws.push(j);
        k = k + 1;
    }
    draws
}

/// Shuffles `rows` in place, uniformly at random.
pub fn random_shuffle<T>(rows: &mut Vec<T>)
    ensures
        exists|draws: Seq<usize>|
            draws_fit(draws, old(rows)@.len()) && #[trigger] shuffled(old(rows)@, draws)
                == final(rows)@,
        final(rows)@.to_multiset() == old(rows)@.to_multiset(),
{
    let draws = random_draws(rows.len());
    shuffle_rows(rows, &draws);
}

/// Shuffles `rows` uniformly at random and splits them for training and
/// testing: the first `floor(ratio * n)` shuffled rows become the training
/// set, the rest the test set. No row is lost, duplicated or altered.
pub fn split<T>(rows: Vec<T>, train_ratio: TrainRatio) -> (r: Result<(Vec<T>, Vec<T>), SplitError>)
    requires
        train_ratio.in_unit_interval(),
    ensures
        split_outcome_ok(rows@, train_ratio, r),
        r matches Ok((train, test)) ==> {
            &&& train@.len() == train_ratio.train_rows(rows@.len())
            &&& test@.len() == rows@.len() - train@.len()
            &&& (train@ + test@).to_multiset() == rows@.to_multiset()
            &&& exists|draws: Seq<usize>|
                draws_fit(draws, rows@.len()) && #[trigger] shuffled(rows@, draws) == train@ + test@
        },
{
    let ghost orig = rows@;
    let draws = random_draws(rows.len());
    let r = split_with_draws(rows, train_ratio, &draws);
    proof {
        if r is Ok {
            let (train, test) = r->Ok_0;
            lemma_shuffle_is_permutation(orig, draws@);
            lemma_train_rows_below(train_ratio, orig.len());
            assert(shuffled(orig, draws@) =~= train@ + test@);
        }
    }
    r
}

} // verus!
