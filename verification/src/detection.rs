//! The decisions of the failure detector between two analyses: how many
//! frames in a row were over each threshold, and when that count confirms a
//! warning or an automatic pause. Whether a score is over a threshold is
//! decided by the caller, which holds the scores.

use vstd::prelude::*;

verus! {

/// The counts of frames in a row over each threshold.
pub struct DetectionCounters {
    /// Frames in a row whose own score reached the warning threshold.
    pub consecutive_notify: u32,
    /// Frames in a row whose rolling average reached the pause threshold.
    pub consecutive_pause: u32,
}

/// What an analysis calls for.
#[derive(Debug, Clone, Copy, PartialEq, Eq, Structural)]
pub struct DetectionDecision {
    /// Log a warning that a failure is likely.
    pub notify: bool,
    /// Log that the failure is confirmed, and pause the print.
    pub pause: bool,
}

impl DetectionCounters {
    pub fn new() -> (c: DetectionCounters)
        ensures
            c.consecutive_notify == 0,
            c.consecutive_pause == 0,
    {
        DetectionCounters { consecutive_notify: 0, consecutive_pause: 0 }
    }

    /// A tick while the printer is not printing: both counts start over.
    pub fn not_printing(&mut self)
        ensures
            final(self).consecutive_notify == 0,
            final(self).consecutive_pause == 0,
    {
        self.consecutive_notify = 0;
        self.consecutive_pause = 0;
    }

    /// An analysis while printing. A frame over the warning threshold adds
    /// to its count, and when the count reaches the confirmation count a
    /// warning is due and the count starts over; a frame under it resets the
    /// count. An average over the pause threshold adds to its count, and the
    /// pause is due when the count equals the confirmation count, once per
    /// run; an average under it resets the count. Counts wrap past the
    /// largest `u32`.
    pub fn on_analysis(&mut self, over_notify: bool, over_pause: bool, confirmation_frames: u32) -> (d:
        DetectionDecision)
        ensures
            ({
                let n = old(self).consecutive_notify.wrapping_add(1);
                &&& d.notify == (over_notify && n >= confirmation_frames)
                &&& final(self).consecutive_notify == if over_notify && n < confirmation_frames {
                    n
                } else {
                    0
                }
            }),
            ({
                let p = old(self).consecutive_pause.wrapping_add(1);
                &&& d.pause == (over_pause && p == confirmation_frames)
                &&& final(self).consecutive_pause == if over_pause {
                    p
                } else {
                    0
                }
            }),
    {
        let mut notify = false;
        if over_notify {
            self.consecutive_notify = self.consecutive_notify.wrapping_add(1);
            if self.consecutive_notify >= confirmation_frames {
                notify = true;
                self.consecutive_notify = 0;
            }
        } else {
            self.consecutive_notify = 0;
        }
        let mut pause = false;
        if over_pause {
            self.consecutive_pause = self.consecutive_pause.wrapping_add(1);
            if self.consecutive_pause == confirmation_frames {
                pause = true;
            }
        } else {
            self.consecutive_pause = 0;
        }
        DetectionDecision { notify, pause }
    }
}

/// Runs a sequence of analyses, each given as (over warning threshold, over
/// pause threshold), from fresh counts; the decisions that come out.
pub open spec fn run_analyses(steps: Seq<(bool, bool)>, conf: u32) -> (u32, u32, Seq<DetectionDecision>)
    decreases steps.len(),
{
    if steps.len() == 0 {
        (0, 0, Seq::empty())
    } else {
        let (cn, cp, ds) = run_analyses(steps.drop_last(), conf);
        let (on, op) = steps.last();
        let n = cn.wrapping_add(1);
        let p = cp.wrapping_add(1);
        let d = DetectionDecision {
            notify: on && n >= conf,
            pause: op && p == conf,
        };
        (
            if on && n < conf {
                n
            } else {
                0
            },
            if op {
                p
            } else {
                0
            },
            ds.push(d),
        )
    }
}

/// A run of `k` analyses whose averages are all over the pause threshold,
/// from fresh counts, pauses the print at the analysis that makes the
/// count equal the confirmation count and at no other, when the run is
/// shorter than the count's wrap-around.
pub proof fn lemma_pause_once(steps: Seq<(bool, bool)>, conf: u32)
    requires
        1 <= conf,
        steps.len() < u32::MAX,
        forall|i: int| 0 <= i < steps.len() ==> (#[trigger] steps[i]).1,
    ensures
        run_analyses(steps, conf).1 == steps.len(),
        run_analyses(steps, conf).2.len() == steps.len(),
        forall|i: int|
            0 <= i < steps.len() ==> (#[trigger] run_analyses(steps, conf).2[i]).pause == (i + 1
                == conf),
    decreases steps.len(),
{
    if steps.len() > 0 {
        let d = steps.drop_last();
        assert forall|i: int| 0 <= i < d.len() implies (#[trigger] d[i]).1 by {
            assert(d[i] == steps[i]);
        }
        lemma_pause_once(d, conf);
        let (cn, cp, ds) = run_analyses(d, conf);
        assert(cp == d.len());
        assert(cp < u32::MAX);
        assert(cp.wrapping_add(1) == cp + 1);
        let all = run_analyses(steps, conf).2;
        assert(all == ds.push(all.last()));
        assert forall|i: int| 0 <= i < steps.len() implies (#[trigger] all[i]).pause == (i + 1
            == conf) by {
            if i < d.len() {
                assert(all[i] == ds[i]);
            }
        }
    }
}

/// How the points of a detection graph are put into time buckets, of which
/// each keeps its highest score.
pub struct GraphBuckets {
    /// The width of a bucket, in seconds.
    pub bucket_secs: u64,
    /// The number of buckets.
    pub count: usize,
    /// The bucket of each point, in the points' order.
    pub index: Vec<usize>,
}

/// The bucket width for a span and a number of points: the span divided by
/// the number of points, rounded up, and at least one second.
pub open spec fn bucket_secs_view(span: nat, max_points: nat) -> int {
    let w: int = (span + max_points - 1) / (max_points as int);
    if w < 1 {
        1
    } else {
        w
    }
}

/// The buckets of a detection graph of at most `max_points` points, given
/// the points' times. There are none when the points already fit, or all
/// share one time; else the span from the first time to the last is cut
/// into buckets of equal width, and each point goes to the bucket of its
/// time, the last bucket at most.
pub fn graph_buckets(ts: &[u64], max_points: usize) -> (r: Option<GraphBuckets>)
    ensures
        (max_points == 0 || ts@.len() <= max_points) ==> r is None,
        r matches Some(b) ==> ({
            let lo = min_of(ts@);
            let hi = max_of(ts@);
            &&& hi > lo
            &&& b.bucket_secs == bucket_secs_view((hi - lo) as nat, max_points as nat)
            &&& b.count == (hi - lo) / (b.bucket_secs as int) + 2
            &&& b.index@.len() == ts@.len()
            &&& forall|i: int|
                0 <= i < ts@.len() ==> (#[trigger] b.index@[i]) as int == if (ts@[i] - lo) / (
                b.bucket_secs as int) < b.count - 1 {
                    (ts@[i] - lo) / (b.bucket_secs as int)
                } else {
                    b.count - 1
                }
        }),
        !(max_points == 0 || ts@.len() <= max_points) && max_of(ts@) > min_of(ts@) && ts@.len()
            < usize::MAX ==> r is Some,
{
    if max_points == 0 || ts.len() <= max_points {
        return None;
    }
    let mut lo: u64 = ts[0];
    let mut hi: u64 = ts[0];
    let mut i: usize = 1;
    while i < ts.len()
        invariant
            1 <= i <= ts@.len(),
            lo == min_of(ts@.take(i as int)),
            hi == max_of(ts@.take(i as int)),
        decreases ts@.len() - i,
    {
        assert(ts@.take(i + 1).drop_last() =~= ts@.take(i as int));
        if ts[i] < lo {
            lo = ts[i];
        }
        if ts[i] > hi {
            hi = ts[i];
        }
        i += 1;
    }
    assert(ts@.take(ts@.len() as int) =~= ts@);
    if lo == hi {
        return None;
    }
    proof {
        lemma_min_le_max(ts@);
    }
    let span = hi - lo;
    let m = max_points as u64;
    let w0: u64 = if span % m == 0 {
        span / m
    } else {
        assert(span / m < 18446744073709551615u64) by (nonlinear_arith)
            requires
                m >= 2,
        ;
        span / m + 1
    };
    assert(w0 == (span + m - 1) / (m as int) && w0 * m >= span) by (nonlinear_arith)
        requires
            m >= 1,
            w0 == if span % m == 0 {
                span / m
            } else {
                (span / m + 1) as u64
            },
    ;
    let w: u64 = if w0 < 1 {
        1
    } else {
        w0
    };
    let q = span / w;
    assert(w * m >= w0 * m) by (nonlinear_arith)
        requires
            w >= w0,
    ;
    assert(q <= m) by (nonlinear_arith)
        requires
            w >= 1,
            w * m >= span,
            q == span / w,
    ;
    if q > (usize::MAX - 2) as u64 {
        return None;
    }
    let count = (q + 2) as usize;
    let mut index: Vec<usize> = Vec::new();
    let mut k: usize = 0;
    while k < ts.len()
        invariant
            k <= ts@.len(),
            lo == min_of(ts@),
            w >= 1,
            count >= 2,
            index@.len() == k,
            forall|x: int| 0 <= x < ts@.len() ==> lo <= #[trigger] ts@[x],
            forall|x: int|
                0 <= x < k ==> (#[trigger] index@[x]) as int == if (ts@[x] - lo) / (w as int) < count
                    - 1 {
                    (ts@[x] - lo) / (w as int)
                } else {
                    count - 1
                },
        decreases ts@.len() - k,
    {
        let b = (ts[k] - lo) / w;
        let idx = if b < (count - 1) as u64 {
            b as usize
        } else {
            count - 1
        };
        index.push(idx);
        k += 1;
    }
    Some(GraphBuckets { bucket_secs: w, count, index })
}

/// The least of some numbers (zero for none).
pub open spec fn min_of(s: Seq<u64>) -> u64
    decreases s.len(),
{
    if s.len() == 0 {
        0
    } else if s.len() == 1 {
        s[0]
    } else {
        let m = min_of(s.drop_last());
        if s.last() < m {
            s.last()
        } else {
            m
        }
    }
}

/// The greatest of some numbers (zero for none).
pub open spec fn max_of(s: Seq<u64>) -> u64
    decreases s.len(),
{
    if s.len() == 0 {
        0
    } else if s.len() == 1 {
        s[0]
    } else {
        let m = max_of(s.drop_last());
        if s.last() > m {
            s.last()
        } else {
            m
        }
    }
}

proof fn lemma_min_le_max(s: Seq<u64>)
    requires
        s.len() >= 1,
    ensures
        forall|x: int| 0 <= x < s.len() ==> min_of(s) <= #[trigger] s[x] <= max_of(s),
    decreases s.len(),
{
    if s.len() > 1 {
        let d = s.drop_last();
        lemma_min_le_max(d);
        assert forall|x: int| 0 <= x < s.len() implies min_of(s) <= #[trigger] s[x] <= max_of(s) by {
            if x < d.len() {
                assert(s[x] == d[x]);
            }
        }
    }
}

} // verus!
