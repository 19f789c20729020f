//! Confusion counts of a binary classifier and the scores derived from them.
use vstd::prelude::*;
use crate::ratio::Ratio;

verus! {

/// How many of the first `k` examples have actual label `a` and predicted
/// label `p`.
pub open spec fn count_outcome(actual: Seq<bool>, predicted: Seq<bool>, a: bool, p: bool, k: nat) -> nat
    decreases k,
{
    if k == 0 {
        0
    } else {
        count_outcome(actual, predicted, a, p, (k - 1) as nat) + if actual[k - 1] == a
            && predicted[k - 1] == p {
            1nat
        } else {
            0nat
        }
    }
}

/// The four outcome counts of a binary prediction, the positive class being
/// `true`.
#[derive(Clone, Copy, Debug, PartialEq, Eq, Structural)]
pub struct Confusion {
    /// Predicted positive, actually positive.
    pub true_positive: usize,
    /// Predicted positive, actually negative.
    pub false_positive: usize,
    /// Predicted negative, actually negative.
    pub true_negative: usize,
    /// Predicted negative, actually positive.
    pub false_negative: usize,
}

impl Confusion {
    /// `self` holds the outcome counts of the pairs `(actual[i], predicted[i])`.
    pub open spec fn counts(self, actual: Seq<bool>, predicted: Seq<bool>) -> bool {
        let n = actual.len();
        &&& self.true_positive == count_outcome(actual, predicted, true, true, n)
        &&& self.false_positive == count_outcome(actual, predicted, false, true, n)
        &&& self.true_negative == count_outcome(actual, predicted, false, false, n)
        &&& self.false_negative == count_outcome(actual, predicted, true, false, n)
    }

    /// Compares each prediction with the actual label at the same position
    /// and counts the four outcomes.
    pub fn count(actual: &Vec<bool>, predicted: &Vec<bool>) -> (c: Confusion)
        requires
            actual@.len() == predicted@.len(),
        ensures
            c.counts(actual@, predicted@),
    {
        let n = actual.len();
        let mut c = Confusion { true_positive: 0, false_positive: 0, true_negative: 0, false_negative: 0 };
        let mut i: usize = 0;
        while i < n
            invariant
                n == actual@.len(),
                n == predicted@.len(),
                i <= n,
                c.true_positive == count_outcome(actual@, predicted@, true, true, i as nat),
                c.false_positive == count_outcome(actual@, predicted@, false, true, i as nat),
                c.true_negative == count_outcome(actual@, predicted@, false, false, i as nat),
                c.false_negative == count_outcome(actual@, predicted@, true, false, i as nat),
                c.true_positive + c.false_positive + c.true_negative + c.false_negative == i,
            decreases n - i,
        {
            let a = actual[i];
            let p = predicted[i];
            if a && p {
                c.true_positive = c.true_positive + 1;
            } else if !a && p {
                c.false_positive = c.false_positive + 1;
            } else if !a && !p {
                c.true_negative = c.true_negative + 1;
            } else {
                c.false_negative = c.false_negative + 1;
            }
            i = i + 1;
        }
        c
    }

    /// Accuracy, `(TP + TN) / (TP + TN + FP + FN)`.
    pub open spec fn accuracy(self) -> (int, int) {
        (
            self.true_positive + self.true_negative,
            self.true_positive + self.true_negative + self.false_positive + self.false_negative,
        )
    }

    /// Precision, `TP / (TP + FP)`.
    pub open spec fn precision(self) -> (int, int) {
        (self.true_positive as int, self.true_positive + self.false_positive)
    }

    /// Recall, `TP / (TP + FN)`.
    pub open spec fn recall(self) -> (int, int) {
        (self.true_positive as int, self.true_positive + self.false_negative)
    }

    /// F1 score, the harmonic mean `2 * P * R / (P + R)` of precision and
    /// recall, which comes to `2 TP / (2 TP + FP + FN)`. It is undefined,
    /// `0 / 0`, when there is no true positive: then precision or recall is
    /// undefined, or both are zero.
    pub open spec fn f1_score(self) -> (int, int) {
        if self.true_positive == 0 {
            (0, 0)
        } else {
            (
                2 * self.true_positive,
                2 * self.true_positive + self.false_positive + self.false_negative,
            )
        }
    }
}

/// `r` is the fraction `q.0 / q.1`, written as it stands.
pub open spec fn is_fraction(r: Ratio, q: (int, int)) -> bool {
    r.num == q.0 && r.den == q.1
}

/// The four scores of a binary classifier on a test set.
#[derive(Clone, Copy, Debug, PartialEq, Eq, Structural)]
pub struct Metrics {
    pub accuracy: Ratio,
    pub precision: Ratio,
    pub recall: Ratio,
    pub f1_score: Ratio,
}

impl Metrics {
    /// `self` holds the scores derived from the counts `c`.
    pub open spec fn derived_from(self, c: Confusion) -> bool {
        &&& is_fraction(self.accuracy, c.accuracy())
        &&& is_fraction(self.precision, c.precision())
        &&& is_fraction(self.recall, c.recall())
        &&& is_fraction(self.f1_score, c.f1_score())
    }

    /// Derives accuracy, precision, recall and F1 score from outcome counts.
    pub fn from_confusion(c: &Confusion) -> (m: Metrics)
        ensures
            m.derived_from(*c),
    {
        let tp = c.true_positive as u128;
        let fp = c.false_positive as u128;
        let tn = c.true_negative as u128;
        let fne = c.false_negative as u128;
        let f1_score = if tp == 0 {
            Ratio::new(0, 0)
        } else {
            Ratio::new(2 * tp, 2 * tp + fp + fne)
        };
        Metrics {
            accuracy: Ratio::new(tp + tn, tp + tn + fp + fne),
            precision: Ratio::new(tp, tp + fp),
            recall: Ratio::new(tp, tp + fne),
            f1_score,
        }
    }
}

/// Scores the predictions `predicted` against the actual labels `actual`,
/// position by position.
pub fn metrics(actual: &Vec<bool>, predicted: &Vec<bool>) -> (m: Metrics)
    requires
        actual@.len() == predicted@.len(),
    ensures
        exists|c: Confusion| #[trigger] c.counts(actual@, predicted@) && m.derived_from(c),
{
    let c = Confusion::count(actual, predicted);
    let m = Metrics::from_confusion(&c);
    assert(c.counts(actual@, predicted@) && m.derived_from(c));
    m
}

/// The F1 score is the harmonic mean of precision and recall: whenever there
/// is a true positive, `F1 * (P + R) == 2 * P * R` as rational numbers.
pub proof fn lemma_f1_is_harmonic_mean(c: Confusion)
    requires
        c.true_positive > 0,
    ensures
        ({
            let (pn, pd) = c.precision();
            let (rn, rd) = c.recall();
            let (fnum, fden) = c.f1_score();
            &&& pd > 0 && rd > 0 && fden > 0
            &&& fnum * (pn * rd + rn * pd) == fden * (2 * pn * rn)
        }),
{
    let tp = c.true_positive as int;
    let fp = c.false_positive as int;
    let fne = c.false_negative as int;
    assert(2 * tp * (tp * (tp + fne) + tp * (tp + fp)) == (2 * tp + fp + fne) * (2 * tp * tp))
        by (nonlinear_arith);
}

} // verus!
