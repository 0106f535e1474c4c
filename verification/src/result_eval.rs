//! Evaluation of a finished session: counting the judged characters and
//! deriving the accuracy percentage and the words-per-minute figure.
//!
//! Both derived figures are kept in hundredths (centi-units), the
//! precision the summary displays, so that their values are exact
//! integers: `percentage_centi == 5000` is 50.00 %, `wpm_centi == 1400`
//! is 14.00 words per minute.

use vstd::prelude::*;

use crate::Mark;

verus! {

/// How many positions of `s` carry the mark `m`.
pub open spec fn count_marks(s: Seq<Mark>, m: Mark) -> nat
    decreases s.len(),
{
    if s.len() == 0 {
        0
    } else {
        count_marks(s.drop_last(), m) + (if s.last() == m {
            1nat
        } else {
            0nat
        })
    }
}

/// The accuracy over the judged characters, in hundredths of a percent:
/// `correct / (correct + wrong) * 100`, and 0 when nothing was judged.
pub open spec fn spec_percentage_centi(correct: nat, wrong: nat) -> nat {
    if correct + wrong == 0 {
        0
    } else {
        correct * 10000 / (correct + wrong)
    }
}

/// The typing speed in hundredths of a word per minute, a word being
/// five correct characters: `(correct / 5) / minutes`, and 0 for an
/// elapsed time of zero.
pub open spec fn spec_wpm_centi(correct: nat, millis: nat) -> nat {
    if millis == 0 {
        0
    } else {
        correct * 1200000 / millis
    }
}

/// If every position of `s` carries `m`, the count of `m` is the whole
/// length and the count of any other mark is zero.
pub proof fn lemma_count_uniform(s: Seq<Mark>, m: Mark)
    requires
        forall|i: int| 0 <= i < s.len() ==> s[i] == m,
    ensures
        count_marks(s, m) == s.len(),
        forall|m2: Mark| m2 != m ==> count_marks(s, m2) == 0,
    decreases s.len(),
{
    if s.len() > 0 {
        lemma_count_uniform(s.drop_last(), m);
        assert forall|m2: Mark| m2 != m implies count_marks(s, m2) == 0 by {
            assert(count_marks(s.drop_last(), m2) == 0);
        }
    }
}

/// The outcome of a typing session: the judged record, the counts drawn
/// from it, and the derived accuracy and speed figures.
pub struct TestResult {
    /// The correctness record the session filled, one mark per judged
    /// character.
    pub correct_chars: Vec<Mark>,
    pub amount_correct_chars: u32,
    pub amount_wrong_chars: u32,
    /// Accuracy in hundredths of a percent.
    pub percentage_centi: u32,
    /// Elapsed wall-clock time in milliseconds.
    pub time_millis: u64,
    /// Speed in hundredths of a word per minute.
    pub wpm_centi: u64,
}

impl Default for TestResult {
    /// An empty result: no record, all figures zero.
    fn default() -> (r: TestResult)
        ensures
            r.correct_chars@ == Seq::<Mark>::empty(),
            r.amount_correct_chars == 0,
            r.amount_wrong_chars == 0,
            r.percentage_centi == 0,
            r.time_millis == 0,
            r.wpm_centi == 0,
    {
        TestResult {
            correct_chars: Vec::new(),
            amount_correct_chars: 0,
            amount_wrong_chars: 0,
            percentage_centi: 0,
            time_millis: 0,
            wpm_centi: 0,
        }
    }
}

impl TestResult {
    /// A result assembled from the given parts.
    pub fn new(
        correct_chars: Vec<Mark>,
        amount_correct_chars: u32,
        amount_wrong_chars: u32,
        percentage_centi: u32,
        time_millis: u64,
        wpm_centi: u64,
    ) -> (r: TestResult)
        ensures
            r.correct_chars@ == correct_chars@,
            r.amount_correct_chars == amount_correct_chars,
            r.amount_wrong_chars == amount_wrong_chars,
            r.percentage_centi == percentage_centi,
            r.time_millis == time_millis,
            r.wpm_centi == wpm_centi,
    {
        TestResult {
            correct_chars,
            amount_correct_chars,
            amount_wrong_chars,
            percentage_centi,
            time_millis,
            wpm_centi,
        }
    }

    /// Walks the judged record, counts the correct and the incorrect
    /// positions (unjudged ones count for neither), and derives the
    /// accuracy percentage and the words-per-minute figure.  An empty
    /// record gives 0 % and an elapsed time of zero gives 0 WPM; neither
    /// is a division by zero.
    pub fn eval_correct_chars(&mut self)
        requires
            old(self).correct_chars@.len() <= u32::MAX,
        ensures
            final(self).correct_chars@ == old(self).correct_chars@,
            final(self).time_millis == old(self).time_millis,
            final(self).amount_correct_chars == count_marks(
                old(self).correct_chars@,
                Mark::Correct,
            ),
            final(self).amount_wrong_chars == count_marks(
                old(self).correct_chars@,
                Mark::Incorrect,
            ),
            final(self).percentage_centi == spec_percentage_centi(
                count_marks(old(self).correct_chars@, Mark::Correct),
                count_marks(old(self).correct_chars@, Mark::Incorrect),
            ),
            final(self).wpm_centi == spec_wpm_centi(
                count_marks(old(self).correct_chars@, Mark::Correct),
                old(self).time_millis as nat,
            ),
            old(self).time_millis == 0 ==> final(self).wpm_centi == 0,
    {
        let ghost s = self.correct_chars@;
        let mut amount_correct: u32 = 0;
        let mut amount_wrong: u32 = 0;
        let mut i: usize = 0;
        proof {
            assert(s.take(0) =~= Seq::<Mark>::empty());
        }
        while i < self.correct_chars.len()
            invariant
                0 <= i <= self.correct_chars.len() <= u32::MAX,
                s == self.correct_chars@,
                amount_correct == count_marks(s.take(i as int), Mark::Correct),
                amount_wrong == count_marks(s.take(i as int), Mark::Incorrect),
                amount_correct + amount_wrong <= i,
            decreases self.correct_chars.len() - i,
        {
            proof {
                assert(s.take(i + 1).drop_last() =~= s.take(i as int));
                assert(s.take(i + 1).last() == s[i as int]);
            }
            match self.correct_chars[i] {
                Mark::Correct => {
                    amount_correct = amount_correct + 1;
                },
                Mark::Incorrect => {
                    amount_wrong = amount_wrong + 1;
                },
                Mark::Unset => {},
            }
            i = i + 1;
        }
        proof {
            assert(s.take(self.correct_chars.len() as int) =~= s);
        }

        let total = amount_correct + amount_wrong;
        let percentage: u32 = if total == 0 {
            0
        } else {
            let p = (amount_correct as u64) * 10000 / (total as u64);
            proof {
                assert((amount_correct as int) * 10000 / (total as int) <= 10000)
                    by (nonlinear_arith)
                    requires
                        0 < total as int,
                        amount_correct as int <= total as int,
                ;
            }
            p as u32
        };

        let wpm: u64 = if self.time_millis == 0 {
            0
        } else {
            (amount_correct as u64) * 1200000 / self.time_millis
        };

        self.amount_correct_chars = amount_correct;
        self.amount_wrong_chars = amount_wrong;
        self.percentage_centi = percentage;
        self.wpm_centi = wpm;
    }
}

} // verus!
