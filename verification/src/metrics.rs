//! Rolling latency statistics: minimum, maximum, sum and count over every
//! sample, and the 99th percentile over the last `WINDOW` samples.
use vstd::prelude::*;
use vstd::relations::{sorted_by, total_ordering};
use vstd::seq_lib::lemma_sorted_unique;
use vstd::arithmetic::div_mod::{lemma_mod_equivalence, lemma_small_mod};

verus! {

broadcast use vstd::seq_lib::group_to_multiset_ensures, vstd::multiset::group_multiset_axioms;

/// The number of most recent samples the percentile is taken over; a report
/// is due every time this many more samples have been recorded.
pub const WINDOW: usize = 10_000;

/// The position, in the sorted window, of the 99th percentile.
pub const P99_RANK: usize = 9_900;

/// Running latency statistics, in nanoseconds.
pub struct LatencyStats {
    min: u64,
    max: u64,
    sum: u64,
    count: u64,
    p99_buf: Vec<u64>,
}

/// What the statistics hold: the smallest and largest sample, the sum and
/// number of samples, and the window (sample `k` is kept at `k % WINDOW`).
pub struct LatencyView {
    pub min: u64,
    pub max: u64,
    pub sum: u64,
    pub count: u64,
    pub window: Seq<u64>,
}

/// A summary of the statistics as printed by the engine.
pub struct LatencyReport {
    pub min: u64,
    pub avg: u64,
    pub p99: u64,
    pub max: u64,
    pub count: u64,
}

/// The ordering of latencies.
pub open spec fn latency_le(a: u64, b: u64) -> bool {
    a <= b
}

/// The 99th percentile of a window: the element at rank `P99_RANK` of the
/// window sorted in ascending order.
pub open spec fn p99_of(window: Seq<u64>) -> u64 {
    window.sort_by(|a: u64, b: u64| latency_le(a, b))[P99_RANK as int]
}

/// The statistics before any sample.
pub open spec fn initial_stats() -> LatencyView {
    LatencyView {
        min: u64::MAX,
        max: 0,
        sum: 0,
        count: 0,
        window: Seq::new(WINDOW as nat, |i: int| 0u64),
    }
}

/// The statistics after recording `nanos` into `v`.
pub open spec fn record_step(v: LatencyView, nanos: u64) -> LatencyView {
    LatencyView {
        min: if nanos < v.min { nanos } else { v.min },
        max: if nanos > v.max { nanos } else { v.max },
        sum: (v.sum + nanos) as u64,
        count: (v.count + 1) as u64,
        window: v.window.update((v.count % (WINDOW as u64)) as int, nanos),
    }
}

/// The report of the statistics `v`: the average is the integer quotient
/// of the sum by the count.
pub open spec fn report_of(v: LatencyView) -> LatencyReport {
    LatencyReport {
        min: v.min,
        avg: (v.sum / v.count) as u64,
        p99: p99_of(v.window),
        max: v.max,
        count: v.count,
    }
}

impl View for LatencyStats {
    type V = LatencyView;

    closed spec fn view(&self) -> LatencyView {
        LatencyView {
            min: self.min,
            max: self.max,
            sum: self.sum,
            count: self.count,
            window: self.p99_buf@,
        }
    }
}

impl LatencyStats {
    /// The window holds exactly `WINDOW` samples.
    pub closed spec fn wf(&self) -> bool {
        self.p99_buf.len() == WINDOW
    }

    /// Facts that every well-formed statistics value satisfies.
    pub proof fn lemma_wf(&self)
        requires
            self.wf(),
        ensures
            self@.window.len() == WINDOW,
    {
    }

    /// Empty statistics: the minimum starts at `u64::MAX`, the window at zeros.
    pub fn new() -> (r: Self)
        ensures
            r.wf(),
            r@ == initial_stats(),
    {
        let mut buf: Vec<u64> = Vec::new();
        let mut i: usize = 0;
        while i < WINDOW
            invariant
                i <= WINDOW,
                buf.len() == i,
                forall|j: int| 0 <= j < i ==> #[trigger] buf@[j] == 0,
            decreases WINDOW - i,
        {
            buf.push(0);
            i = i + 1;
        }
        let r = LatencyStats { min: u64::MAX, max: 0, sum: 0, count: 0, p99_buf: buf };
        assert(r@.window =~= initial_stats().window);
        r
    }

    /// Whether `nanos` can be recorded without the sum or the count leaving
    /// `u64`.
    pub fn can_record(&self, nanos: u64) -> (r: bool)
        ensures
            r == (self@.sum + nanos <= u64::MAX && self@.count < u64::MAX),
    {
        self.count < u64::MAX && self.sum <= u64::MAX - nanos
    }

    /// Records one latency sample. Every `WINDOW` samples the report of the
    /// statistics is due, and then it is returned.
    pub fn record(&mut self, nanos: u64) -> (r: Option<LatencyReport>)
        requires
            old(self).wf(),
            old(self)@.sum + nanos <= u64::MAX,
            old(self)@.count < u64::MAX,
        ensures
            final(self).wf(),
            final(self)@.window.len() == WINDOW,
            final(self)@ == record_step(old(self)@, nanos),
            r == (if final(self)@.count % (WINDOW as u64) == 0 { Some(report_of(final(self)@)) } else { None }),
    {
        if nanos < self.min {
            self.min = nanos;
        }
        if nanos > self.max {
            self.max = nanos;
        }
        self.sum = self.sum + nanos;
        let slot = (self.count % (WINDOW as u64)) as usize;
        self.p99_buf.set(slot, nanos);
        self.count = self.count + 1;
        if self.count % (WINDOW as u64) == 0 {
            Some(self.report())
        } else {
            None
        }
    }

    /// The 99th percentile of the window.
    pub fn p99(&self) -> (r: u64)
        requires
            self.wf(),
        ensures
            r == p99_of(self@.window),
    {
        let sorted = sort_ascending(&self.p99_buf);
        proof {
            let leq = |a: u64, b: u64| latency_le(a, b);
            assert(total_ordering(leq));
            self.p99_buf@.lemma_sort_by_ensures(leq);
            lemma_sorted_unique(sorted@, self.p99_buf@.sort_by(leq), leq);
        }
        sorted[P99_RANK]
    }

    /// The summary of the statistics; at least one sample must have been
    /// recorded for the average to exist.
    pub fn report(&self) -> (r: LatencyReport)
        requires
            self.wf(),
            self@.count > 0,
        ensures
            r == report_of(self@),
    {
        LatencyReport { min: self.min, avg: self.sum / self.count, p99: self.p99(), max: self.max, count: self.count }
    }
}

/// The total of the samples.
pub open spec fn sum_of(samples: Seq<u64>) -> int
    decreases samples.len(),
{
    if samples.len() == 0 {
        0
    } else {
        sum_of(samples.drop_last()) + samples.last()
    }
}

/// The statistics after recording `samples`, in order, into empty ones.
pub open spec fn recorded(samples: Seq<u64>) -> LatencyView
    decreases samples.len(),
{
    if samples.len() == 0 {
        initial_stats()
    } else {
        record_step(recorded(samples.drop_last()), samples.last())
    }
}

/// Recording one more sample into statistics that summarize `samples`
/// gives the statistics that summarize `samples` followed by it.
pub proof fn lemma_record_extends(samples: Seq<u64>, nanos: u64)
    ensures
        recorded(samples.push(nanos)) == record_step(recorded(samples), nanos),
{
    assert(samples.push(nanos).drop_last() =~= samples);
}

/// What the statistics say of the samples recorded into them: the count is
/// their number, the sum their total, the minimum the least of them and the
/// maximum the greatest (`u64::MAX` and 0 before any), and the window keeps
/// the latest `WINDOW` of them, sample `k` at position `k % WINDOW`, with
/// zeros where no sample has been yet.
pub proof fn lemma_recorded_summary(samples: Seq<u64>)
    requires
        sum_of(samples) <= u64::MAX,
        samples.len() <= u64::MAX,
    ensures
        recorded(samples).count == samples.len(),
        recorded(samples).sum == sum_of(samples),
        forall|k: int| 0 <= k < samples.len() ==> recorded(samples).min <= #[trigger] samples[k] <= recorded(samples).max,
        samples.len() == 0 ==> recorded(samples).min == u64::MAX && recorded(samples).max == 0,
        samples.len() > 0 ==> samples.contains(recorded(samples).min) && samples.contains(recorded(samples).max),
        recorded(samples).window.len() == WINDOW,
        forall|k: int| 0 <= k < samples.len() && samples.len() - WINDOW <= k ==>
            recorded(samples).window[k % (WINDOW as int)] == #[trigger] samples[k],
        forall|j: int| samples.len() <= j < WINDOW ==> #[trigger] recorded(samples).window[j] == 0,
    decreases samples.len(),
{
    if samples.len() > 0 {
        let prev = samples.drop_last();
        let x = samples.last();
        let n = prev.len() as int;
        assert(sum_of(prev) <= sum_of(samples));
        lemma_recorded_summary(prev);
        let v = recorded(prev);
        assert(recorded(samples) == record_step(v, x));
        assert forall|k: int| 0 <= k < samples.len() implies recorded(samples).min <= #[trigger] samples[k] <= recorded(samples).max by {
            if k < n {
                assert(samples[k] == prev[k]);
            }
        }
        if n > 0 {
            if x < v.min {
                assert(samples[n] == x);
            } else {
                let i = choose|i: int| 0 <= i < prev.len() && prev[i] == v.min;
                assert(samples[i] == v.min);
            }
            if x > v.max {
                assert(samples[n] == x);
            } else {
                let i = choose|i: int| 0 <= i < prev.len() && prev[i] == v.max;
                assert(samples[i] == v.max);
            }
        } else {
            assert(samples[0] == x);
        }
        assert forall|k: int| 0 <= k < samples.len() && samples.len() - WINDOW <= k implies
            recorded(samples).window[k % (WINDOW as int)] == #[trigger] samples[k] by {
            assert((v.count % (WINDOW as u64)) as int == n % (WINDOW as int));
            if k < n {
                assert(samples[k] == prev[k]);
                lemma_mod_equivalence(n, k, WINDOW as int);
                lemma_small_mod((n - k) as nat, WINDOW as nat);
                assert(k % (WINDOW as int) != n % (WINDOW as int));
            }
        }
    }
}

/// The report over samples recorded into empty statistics: the count is
/// their number, the average the integer quotient of their total by their
/// number (over every sample, not only the window), the minimum the least
/// and the maximum the greatest of them.
pub proof fn lemma_report_of_samples(samples: Seq<u64>)
    requires
        samples.len() > 0,
        sum_of(samples) <= u64::MAX,
        samples.len() <= u64::MAX,
    ensures
        report_of(recorded(samples)).count == samples.len(),
        report_of(recorded(samples)).avg == sum_of(samples) / (samples.len() as int),
        samples.contains(report_of(recorded(samples)).min),
        samples.contains(report_of(recorded(samples)).max),
        forall|k: int| 0 <= k < samples.len() ==>
            report_of(recorded(samples)).min <= #[trigger] samples[k] <= report_of(recorded(samples)).max,
{
    lemma_recorded_summary(samples);
    assert forall|k: int| 0 <= k < samples.len() implies
        report_of(recorded(samples)).min <= #[trigger] samples[k] <= report_of(recorded(samples)).max by {
        assert(recorded(samples).min <= samples[k] <= recorded(samples).max);
    }
}

/// The number of samples in `s` below `v`.
pub open spec fn count_below(s: Seq<u64>, v: u64) -> nat {
    s.filter(|x: u64| x < v).len()
}

/// The number of samples in `s` at or below `v`.
pub open spec fn count_at_most(s: Seq<u64>, v: u64) -> nat {
    s.filter(|x: u64| x <= v).len()
}

/// Filtering a sequence and then counting its elements is filtering its
/// multiset.
proof fn lemma_filter_to_multiset(s: Seq<u64>, p: spec_fn(u64) -> bool)
    ensures
        s.filter(p).to_multiset() =~= s.to_multiset().filter(p),
    decreases s.len(),
{
    broadcast use vstd::multiset::axiom_filter_count;
    if s.len() == 0 {
        reveal(Seq::filter);
        assert(s.filter(p) =~= s);
    } else {
        let init = s.drop_last();
        let x = s.last();
        lemma_filter_to_multiset(init, p);
        assert(init.push(x) =~= s);
        init.lemma_filter_push(x, p);
    }
}

/// When every element of `s` satisfies `p`, filtering keeps them all.
proof fn lemma_filter_keeps_all(s: Seq<u64>, p: spec_fn(u64) -> bool)
    requires
        forall|i: int| 0 <= i < s.len() ==> p(#[trigger] s[i]),
    ensures
        s.filter(p).len() == s.len(),
    decreases s.len(),
{
    if s.len() == 0 {
        reveal(Seq::filter);
    } else {
        let init = s.drop_last();
        lemma_filter_keeps_all(init, p);
        assert(init.push(s.last()) =~= s);
        init.lemma_filter_len_push(p, s.last());
    }
}

/// Sequences with the same elements have as many elements satisfying `p`.
proof fn lemma_filter_len_of_permutation(a: Seq<u64>, b: Seq<u64>, p: spec_fn(u64) -> bool)
    requires
        a.to_multiset() == b.to_multiset(),
    ensures
        a.filter(p).len() == b.filter(p).len(),
{
    lemma_filter_to_multiset(a, p);
    lemma_filter_to_multiset(b, p);
    vstd::seq_lib::to_multiset_len(a.filter(p));
    vstd::seq_lib::to_multiset_len(b.filter(p));
}

/// The 99th percentile of a full window is one of its samples, at most
/// `P99_RANK` samples lie below it, and more than `P99_RANK` lie at or
/// below it.
pub proof fn lemma_p99_rank(window: Seq<u64>)
    requires
        window.len() == WINDOW,
    ensures
        window.contains(p99_of(window)),
        count_below(window, p99_of(window)) <= P99_RANK,
        count_at_most(window, p99_of(window)) > P99_RANK,
{
    let leq = |a: u64, b: u64| latency_le(a, b);
    assert(total_ordering(leq));
    window.lemma_sort_by_ensures(leq);
    let s = window.sort_by(leq);
    let v = p99_of(window);
    let r = P99_RANK as int;
    assert(s.len() == WINDOW) by {
        vstd::seq_lib::to_multiset_len(s);
        vstd::seq_lib::to_multiset_len(window);
    }
    assert(s.contains(v)) by {
        assert(s[r] == v);
    }
    assert(s.to_multiset().count(v) > 0);
    assert(window.contains(v));

    let below = |x: u64| x < v;
    let at_most = |x: u64| x <= v;
    assert(s =~= s.take(r) + s.skip(r));
    assert(s =~= s.take(r + 1) + s.skip(r + 1));
    Seq::filter_distributes_over_add(s.take(r), s.skip(r), below);
    Seq::filter_distributes_over_add(s.take(r + 1), s.skip(r + 1), at_most);
    s.take(r).lemma_filter_len(below);
    s.skip(r + 1).lemma_filter_len(at_most);
    assert forall|i: int| 0 <= i < s.skip(r).len() implies !below(#[trigger] s.skip(r)[i]) by {
        assert(leq(s[r], s[r + i]) || i == 0);
    }
    s.skip(r).lemma_all_neg_filter_empty(below);
    assert forall|i: int| 0 <= i < s.take(r + 1).len() implies at_most(#[trigger] s.take(r + 1)[i]) by {
        assert(leq(s[i], s[r]) || i == r);
    }
    lemma_filter_keeps_all(s.take(r + 1), at_most);
    lemma_filter_len_of_permutation(window, s, below);
    lemma_filter_len_of_permutation(window, s, at_most);
}

/// Calls `slice::sort_unstable` on the samples. Its documentation says it
/// sorts the slice in ascending order; the contract claims exactly that: the
/// same samples, rearranged so that each is at most the next.
#[verifier::external_body]
fn sort_unstable(v: &mut Vec<u64>)
    ensures
        final(v)@.to_multiset() == old(v)@.to_multiset(),
        sorted_by(final(v)@, |a: u64, b: u64| latency_le(a, b)),
{
    v.sort_unstable()
}

/// A copy of `v` sorted in ascending order.
fn sort_ascending(v: &Vec<u64>) -> (r: Vec<u64>)
    ensures
        r@.to_multiset() == v@.to_multiset(),
        sorted_by(r@, |a: u64, b: u64| latency_le(a, b)),
        r@.len() == v@.len(),
{
    let mut r = v.clone();
    sort_unstable(&mut r);
    proof {
        vstd::seq_lib::to_multiset_len(r@);
        vstd::seq_lib::to_multiset_len(v@);
    }
    r
}

} // verus!
