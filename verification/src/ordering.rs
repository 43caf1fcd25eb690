//! Watches whether a merged stream of data keeps to the order of time.
use crate::report::Warning;
use crate::time::{later, UnixNanos};
use vstd::arithmetic::power2::{
    lemma_pow2, lemma_pow2_pos, lemma_pow2_strictly_increases, lemma_pow2_unfold, pow2,
};
use vstd::prelude::*;

verus! {

/// How many backward items are reported one by one before only their number is.
pub const DETAILED_REPORTS: usize = 50;

/// The latest of a row of times.
pub open spec fn latest_time(times: Seq<UnixNanos>) -> Option<UnixNanos>
    decreases times.len(),
{
    if times.len() == 0 {
        None
    } else {
        later(latest_time(times.drop_last()), Some(times.last()))
    }
}

/// Whether a time lies before the latest of those seen so far.
pub open spec fn goes_back(times: Seq<UnixNanos>, time: UnixNanos) -> bool {
    latest_time(times) matches Some(latest) && time < latest
}

/// How many of a row of times lie before the latest of those ahead of them.
pub open spec fn backward_count(times: Seq<UnixNanos>) -> nat
    decreases times.len(),
{
    if times.len() == 0 {
        0
    } else {
        backward_count(times.drop_last()) + if goes_back(times.drop_last(), times.last()) {
            1nat
        } else {
            0nat
        }
    }
}

/// Whether a number is a power of two.
pub open spec fn is_power_of_two(n: nat) -> bool {
    exists|k: nat| n == #[trigger] pow2(k)
}

/// A number, or the largest that a counter can hold.
pub open spec fn capped(n: nat) -> usize {
    if n <= usize::MAX {
        n as usize
    } else {
        usize::MAX
    }
}

/// What is reported of a backward item: the first ones in full, with the time of the item
/// just ahead and the gap to the latest time, and of the others only how many there are, when
/// that is a power of two.
pub open spec fn backward_report(
    label: &'static str,
    count: usize,
    time: UnixNanos,
    prior: UnixNanos,
    latest: UnixNanos,
) -> Option<Warning> {
    if count <= DETAILED_REPORTS {
        Some(
            Warning::BackwardItem {
                label,
                count,
                time,
                prior,
                gap: (latest - time) as u64,
            },
        )
    } else if is_power_of_two(count as nat) {
        Some(Warning::BackwardItemCount { label, count })
    } else {
        None
    }
}

/// Returns whether a number is a power of two.
fn power_of_two(n: usize) -> (r: bool)
    ensures
        r == is_power_of_two(n as nat),
{
    let mut power: usize = 1;
    let ghost mut k: nat = 0;
    proof {
        lemma_pow2(0);
        vstd::arithmetic::power::lemma_pow0(2);
    }
    while power < n
        invariant
            power == pow2(k),
            forall|j: nat| j < k ==> #[trigger] pow2(j) < n,
        decreases n - power,
    {
        if power > n / 2 {
            proof {
                lemma_pow2_unfold(k + 1);
                assert forall|j: nat| n as nat != #[trigger] pow2(j) by {
                    if j > k + 1 {
                        lemma_pow2_strictly_increases(k + 1, j);
                    } else if j == k + 1 {
                    } else if j < k {
                        lemma_pow2_strictly_increases(j, k);
                    }
                }
            }
            return false;
        }
        proof {
            lemma_pow2_unfold(k + 1);
            lemma_pow2_pos(k);
        }
        power = power * 2;
        proof {
            k = k + 1;
        }
    }
    proof {
        if n < power {
            assert forall|j: nat| n as nat != #[trigger] pow2(j) by {
                if j > k {
                    lemma_pow2_strictly_increases(k, j);
                }
            }
        }
    }
    power == n
}

/// Counts the items of a stream that lie before the latest item ahead of them.
pub struct OrderingVerifier {
    last_ts: Option<UnixNanos>,
    prior: Option<UnixNanos>,
    label: &'static str,
    violations: usize,
    seen: Ghost<Seq<UnixNanos>>,
}

impl OrderingVerifier {
    /// The times of the items that were seen so far.
    pub closed spec fn seen(self) -> Seq<UnixNanos> {
        self.seen@
    }

    /// The name under which the stream is reported.
    pub closed spec fn label(self) -> &'static str {
        self.label
    }

    /// Whether the verifier remembers the latest time and the last one, and has counted right.
    pub closed spec fn wf(self) -> bool {
        &&& self.last_ts == latest_time(self.seen@)
        &&& self.prior == if self.seen@.len() == 0 {
            None
        } else {
            Some(self.seen@.last())
        }
        &&& self.violations == capped(backward_count(self.seen@))
    }

    /// Returns a verifier that has seen nothing.
    pub fn new(label: &'static str) -> (r: Self)
        ensures
            r.wf(),
            r.label() == label,
            r.seen() == Seq::<UnixNanos>::empty(),
    {
        OrderingVerifier {
            last_ts: None,
            prior: None,
            label,
            violations: 0,
            seen: Ghost(Seq::empty()),
        }
    }

    /// Returns how many items went back, or the largest number that can be counted to.
    pub fn violations(&self) -> (r: usize)
        requires
            self.wf(),
        ensures
            r == capped(backward_count(self.seen())),
    {
        self.violations
    }

    /// Takes note of the next item, and returns what is to be reported of it.
    ///
    /// The latest time is kept when an item goes back, so that one such item does not hide
    /// those behind it.
    pub fn next(&mut self, time: UnixNanos) -> (r: Option<Warning>)
        requires
            old(self).wf(),
        ensures
            final(self).wf(),
            final(self).label() == old(self).label(),
            final(self).seen() == old(self).seen().push(time),
            r == (if goes_back(old(self).seen(), time) {
                backward_report(
                    old(self).label(),
                    capped(backward_count(old(self).seen().push(time))),
                    time,
                    old(self).seen().last(),
                    latest_time(old(self).seen())->0,
                )
            } else {
                None
            }),
    {
        let mut report = None;
        proof {
            assert(self.seen@.push(time).drop_last() =~= self.seen@);
        }
        if let (Some(latest), Some(prior)) = (self.last_ts, self.prior) {
            if time < latest {
                self.violations = self.violations.saturating_add(1);
                if self.violations <= DETAILED_REPORTS {
                    report = Some(
                        Warning::BackwardItem {
                            label: self.label,
                            count: self.violations,
                            time,
                            prior,
                            gap: latest - time,
                        },
                    );
                } else if power_of_two(self.violations) {
                    report = Some(
                        Warning::BackwardItemCount { label: self.label, count: self.violations },
                    );
                }
            }
        }
        self.last_ts = match self.last_ts {
            Some(latest) => Some(
                if latest >= time {
                    latest
                } else {
                    time
                },
            ),
            None => Some(time),
        };
        self.prior = Some(time);
        self.seen = Ghost(self.seen@.push(time));
        report
    }
}

/// The latest time is one of the row, and none of the row lies after it.
pub proof fn lemma_latest_time(times: Seq<UnixNanos>)
    ensures
        latest_time(times) is None <==> times.len() == 0,
        latest_time(times) matches Some(latest) ==> times.contains(latest) && forall|i: int|
            0 <= i < times.len() ==> times[i] <= latest,
    decreases times.len(),
{
    if times.len() > 0 {
        let front = times.drop_last();
        lemma_latest_time(front);
        assert(times[times.len() - 1] == times.last());
        if latest_time(front) is Some {
            let k = choose|k: int| 0 <= k < front.len() && front[k] == latest_time(front)->0;
            assert(front.contains(latest_time(front)->0));
            assert(times[k] == front[k]);
        }
        assert forall|i: int| 0 <= i < times.len() implies times[i] <= latest_time(times)->0 by {
            if i < front.len() {
                assert(front[i] == times[i]);
            }
        }
    }
}

/// A time goes back exactly when some time ahead of it is later.
pub proof fn law_goes_back_iff_overtaken(times: Seq<UnixNanos>, time: UnixNanos)
    ensures
        goes_back(times, time) <==> exists|i: int| 0 <= i < times.len() && time < #[trigger] times[i],
{
    lemma_latest_time(times);
    if goes_back(times, time) {
        let k = choose|k: int| 0 <= k < times.len() && times[k] == latest_time(times)->0;
        assert(time < times[k]);
    }
}

/// A row of times has no backward item exactly when it stands in order.
pub proof fn law_no_violation_iff_in_order(times: Seq<UnixNanos>)
    ensures
        backward_count(times) == 0 <==> forall|i: int, j: int|
            0 <= i <= j < times.len() ==> times[i] <= times[j],
    decreases times.len(),
{
    if times.len() > 0 {
        let front = times.drop_last();
        law_no_violation_iff_in_order(front);
        law_goes_back_iff_overtaken(front, times.last());
        if backward_count(times) == 0 {
            assert forall|i: int, j: int| 0 <= i <= j < times.len() implies times[i] <= times[j] by {
                if j < front.len() {
                    assert(front[i] <= front[j]);
                } else if i < front.len() {
                    assert(!(times.last() < front[i]));
                }
            }
        }
        if forall|i: int, j: int| 0 <= i <= j < times.len() ==> times[i] <= times[j] {
            assert forall|i: int, j: int| 0 <= i <= j < front.len() implies front[i] <= front[j] by {
                assert(times[i] <= times[j]);
            }
            assert forall|i: int| 0 <= i < front.len() implies !(times.last() < #[trigger] front[i]) by {
                assert(times[i] <= times[times.len() - 1]);
            }
        }
    }
}

} // verus!
