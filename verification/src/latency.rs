//! The latency of each connection, and the check for a slow one.

use crate::median;
use crate::median::median_u64;
use vstd::prelude::*;

verus! {

pub const SLOW_LATENCY_FACTOR: u64 = 2;

pub const MIN_SLOW_LATENCY_SAMPLES: usize = 100;

pub const LATENCY_SAMPLE_CAP: usize = 100_000;

/// What is known of one connection: its latencies since they were last drained, and how often a
/// reconnect was requested.
pub struct ConnectionHealth {
    pub name: String,
    pub latency_samples_ms: Vec<u64>,
    pub reconnect_requests: u64,
}

/// The latencies of one connection in short.
pub struct LatencySnapshot {
    pub name: String,
    pub sample_count: usize,
    pub median_latency_ms: u64,
}

impl ConnectionHealth {
    /// Whether the samples are within their cap.
    pub open spec fn wf(&self) -> bool {
        self.latency_samples_ms@.len() <= LATENCY_SAMPLE_CAP
    }

    /// A connection of which nothing is known yet.
    pub fn new(name: String) -> (r: ConnectionHealth)
        ensures
            r.wf(),
            r.name == name,
            r.latency_samples_ms@ == Seq::<u64>::empty(),
            r.reconnect_requests == 0,
    {
        ConnectionHealth { name, latency_samples_ms: Vec::new(), reconnect_requests: 0 }
    }

    /// Records a latency, unless the cap is reached.
    pub fn record_latency_ms(&mut self, latency_ms: u64)
        ensures
            final(self).name == old(self).name,
            final(self).reconnect_requests == old(self).reconnect_requests,
            final(self).latency_samples_ms@ == (if old(self).latency_samples_ms@.len()
                < LATENCY_SAMPLE_CAP {
                old(self).latency_samples_ms@.push(latency_ms)
            } else {
                old(self).latency_samples_ms@
            }),
            old(self).wf() ==> final(self).wf(),
    {
        if self.latency_samples_ms.len() < LATENCY_SAMPLE_CAP {
            self.latency_samples_ms.push(latency_ms);
        }
    }

    /// Requests a reconnect.
    pub fn request_reconnect(&mut self)
        ensures
            final(self).name == old(self).name,
            final(self).latency_samples_ms == old(self).latency_samples_ms,
            final(self).reconnect_requests == old(self).reconnect_requests.wrapping_add(1),
    {
        self.reconnect_requests = self.reconnect_requests.wrapping_add(1);
    }

    /// Takes the samples out and tells their number and median, where there are any.
    pub fn drain_latency_snapshot(&mut self) -> (r: Option<LatencySnapshot>)
        ensures
            final(self).name == old(self).name,
            final(self).latency_samples_ms@ == Seq::<u64>::empty(),
            final(self).reconnect_requests == old(self).reconnect_requests,
            final(self).wf(),
            match r {
                Some(snapshot) => {
                    &&& old(self).latency_samples_ms@.len() > 0
                    &&& snapshot.name == old(self).name
                    &&& snapshot.sample_count == old(self).latency_samples_ms@.len()
                    &&& snapshot.median_latency_ms == median::median_of(
                        old(self).latency_samples_ms@,
                    )
                },
                None => old(self).latency_samples_ms@.len() == 0,
            },
    {
        let mut samples: Vec<u64> = Vec::new();
        std::mem::swap(&mut samples, &mut self.latency_samples_ms);
        let sample_count = samples.len();
        match median_u64(samples.as_mut_slice()) {
            Some(median_latency_ms) => Some(
                LatencySnapshot { name: self.name.clone(), sample_count, median_latency_ms },
            ),
            None => None,
        }
    }
}

/// The samples of each connection.
pub open spec fn samples_of(health: Seq<ConnectionHealth>) -> Seq<Seq<u64>> {
    health.map_values(|h: ConnectionHealth| h.latency_samples_ms@)
}

/// The connections with enough samples to be compared.
pub open spec fn eligible(samples: Seq<Seq<u64>>) -> Seq<int>
    decreases samples.len(),
{
    if samples.len() == 0 {
        Seq::empty()
    } else {
        let rest = eligible(samples.drop_last());
        if samples.last().len() >= MIN_SLOW_LATENCY_SAMPLES {
            rest.push(samples.len() - 1)
        } else {
            rest
        }
    }
}

/// The median of each connection that can be compared.
pub open spec fn eligible_medians(samples: Seq<Seq<u64>>) -> Seq<u64> {
    eligible(samples).map_values(|c: int| median::median_of(samples[c]))
}

/// The median of those medians.
pub open spec fn baseline(samples: Seq<Seq<u64>>) -> u64 {
    median::median_of(eligible_medians(samples))
}

/// Above what a connection is slow: twice the baseline, as far as 64 bits reach.
pub open spec fn threshold(baseline: u64) -> u64 {
    if baseline * SLOW_LATENCY_FACTOR > u64::MAX {
        u64::MAX
    } else {
        (baseline * SLOW_LATENCY_FACTOR) as u64
    }
}

/// Whether `c` is the slowest of the connections that can be compared; of several with the same
/// median, the last.
pub open spec fn is_slowest(samples: Seq<Seq<u64>>, c: int) -> bool {
    &&& eligible(samples).contains(c)
    &&& forall|k: int| #[trigger]
        eligible(samples).contains(k) ==> {
            &&& median::median_of(samples[k]) <= median::median_of(samples[c])
            &&& k > c ==> median::median_of(samples[k]) < median::median_of(samples[c])
        }
}

/// What came of a check.
pub enum SlowCheck {
    /// Fewer than two connections could be compared.
    Skipped { eligible: usize },
    /// The slowest connection is not slow.
    Healthy {
        connection: usize,
        name: String,
        median_latency_ms: u64,
        baseline_median_ms: u64,
        threshold_ms: u64,
    },
    /// The slowest connection is slow, and a reconnect was requested.
    Reconnect {
        connection: usize,
        name: String,
        median_latency_ms: u64,
        sample_count: usize,
        baseline_median_ms: u64,
    },
}

/// Whether a check tells the truth about the connections as they were.
pub open spec fn check_says(check: SlowCheck, health: Seq<ConnectionHealth>) -> bool {
    let samples = samples_of(health);
    match check {
        SlowCheck::Skipped { eligible: n } => n == eligible(samples).len() && n < 2,
        SlowCheck::Healthy {
            connection,
            name,
            median_latency_ms,
            baseline_median_ms,
            threshold_ms,
        } => {
            &&& eligible(samples).len() >= 2
            &&& is_slowest(samples, connection as int)
            &&& name == health[connection as int].name
            &&& median_latency_ms == median::median_of(samples[connection as int])
            &&& baseline_median_ms == baseline(samples)
            &&& threshold_ms == threshold(baseline(samples))
            &&& median_latency_ms <= threshold_ms
        },
        SlowCheck::Reconnect {
            connection,
            name,
            median_latency_ms,
            sample_count,
            baseline_median_ms,
        } => {
            &&& eligible(samples).len() >= 2
            &&& is_slowest(samples, connection as int)
            &&& name == health[connection as int].name
            &&& median_latency_ms == median::median_of(samples[connection as int])
            &&& sample_count == samples[connection as int].len()
            &&& baseline_median_ms == baseline(samples)
            &&& median_latency_ms > threshold(baseline(samples))
        },
    }
}

/// Whether a check asks connection `i` to reconnect.
pub open spec fn asks_reconnect(check: SlowCheck, i: int) -> bool {
    check matches SlowCheck::Reconnect { connection, .. } && connection == i
}

/// What a check leaves of the connections: no samples, and one more request for the connection
/// that is asked to reconnect.
pub open spec fn after_check(
    check: SlowCheck,
    before: Seq<ConnectionHealth>,
    after: Seq<ConnectionHealth>,
) -> bool {
    &&& after.len() == before.len()
    &&& forall|i: int|
        #![trigger after[i]]
        0 <= i < after.len() ==> {
            &&& after[i].name == before[i].name
            &&& after[i].latency_samples_ms@ == Seq::<u64>::empty()
            &&& after[i].reconnect_requests == (if asks_reconnect(check, i) {
                before[i].reconnect_requests.wrapping_add(1)
            } else {
                before[i].reconnect_requests
            })
        }
}

/// The connections that can be compared are those with enough samples.
proof fn lemma_eligible(samples: Seq<Seq<u64>>)
    ensures
        forall|c: int| #[trigger]
            eligible(samples).contains(c) <==> 0 <= c < samples.len() && samples[c].len()
                >= MIN_SLOW_LATENCY_SAMPLES,
        forall|i: int, j: int|
            0 <= i < j < eligible(samples).len() ==> eligible(samples)[i] < eligible(samples)[j],
    decreases samples.len(),
{
    let all = eligible(samples);
    if samples.len() > 0 {
        let rest = eligible(samples.drop_last());
        lemma_eligible(samples.drop_last());
        assert forall|c: int| #[trigger] all.contains(c) <==> 0 <= c < samples.len()
            && samples[c].len() >= MIN_SLOW_LATENCY_SAMPLES by {
            if all.contains(c) {
                let k = choose|k: int| 0 <= k < all.len() && all[k] == c;
                if k < rest.len() {
                    assert(rest[k] == c);
                    assert(rest.contains(c));
                }
            }
            if 0 <= c < samples.len() && samples[c].len() >= MIN_SLOW_LATENCY_SAMPLES {
                if c < samples.len() - 1 {
                    assert(rest.contains(c));
                    let k = choose|k: int| 0 <= k < rest.len() && rest[k] == c;
                    assert(all[k] == c);
                } else {
                    assert(all[all.len() - 1] == c);
                }
            }
        }
        assert forall|i: int, j: int| 0 <= i < j < all.len() implies all[i] < all[j] by {
            assert(all[i] == rest[i]);
            assert(rest.contains(rest[i]));
            if j < rest.len() {
                assert(all[j] == rest[j]);
            }
        }
    }
}

/// Doubles the baseline, as far as 64 bits reach.
fn threshold_ms(baseline: u64) -> (r: u64)
    ensures
        r == threshold(baseline),
{
    match baseline.checked_mul(SLOW_LATENCY_FACTOR) {
        Some(product) => product,
        None => u64::MAX,
    }
}

/// Drains all connections, compares those with enough samples, and asks the slowest to
/// reconnect if its median is above twice the median of the medians.
pub fn replace_slowest_connection_if_needed(health: &mut Vec<ConnectionHealth>) -> (r: SlowCheck)
    ensures
        check_says(r, old(health)@),
        after_check(r, old(health)@, final(health)@),
{
    let ghost before = health@;
    let ghost samples = samples_of(before);
    let mut connections: Vec<usize> = Vec::new();
    let mut snapshots: Vec<LatencySnapshot> = Vec::new();
    let mut i: usize = 0;
    assert(samples.take(0) =~= Seq::empty());
    while i < health.len()
        invariant
            i <= health.len(),
            health.len() == before.len(),
            samples == samples_of(before),
            forall|k: int|
                #![trigger health@[k]]
                0 <= k < i ==> {
                    &&& health@[k].name == before[k].name
                    &&& health@[k].latency_samples_ms@ == Seq::<u64>::empty()
                    &&& health@[k].reconnect_requests == before[k].reconnect_requests
                },
            forall|k: int| i <= k < health.len() ==> health@[k] == before[k],
            snapshots.len() == connections.len(),
            eligible(samples.take(i as int)) == connections@.map_values(|c: usize| c as int),
            forall|k: int|
                #![trigger connections@[k]]
                0 <= k < connections.len() ==> {
                    &&& connections@[k] < i
                    &&& snapshots@[k].name == before[connections@[k] as int].name
                    &&& snapshots@[k].sample_count == samples[connections@[k] as int].len()
                    &&& snapshots@[k].median_latency_ms == median::median_of(
                        samples[connections@[k] as int],
                    )
                },
        decreases health.len() - i,
    {
        let ghost taken = samples.take(i as int);
        assert(samples.take(i + 1).drop_last() =~= taken);
        assert(samples.take(i + 1).last() == before[i as int].latency_samples_ms@);
        let drained = health[i].drain_latency_snapshot();
        if let Some(snapshot) = drained {
            if snapshot.sample_count >= MIN_SLOW_LATENCY_SAMPLES {
                let ghost found = connections@;
                connections.push(i);
                snapshots.push(snapshot);
                assert(connections@.map_values(|c: usize| c as int) =~= found.map_values(
                    |c: usize| c as int,
                ).push(i as int));
            }
        }
        i += 1;
    }
    assert(samples.take(samples.len() as int) =~= samples);
    let ghost all = eligible(samples);
    if snapshots.len() < 2 {
        return SlowCheck::Skipped { eligible: snapshots.len() };
    }
    let mut medians: Vec<u64> = Vec::new();
    let mut slowest: usize = 0;
    let mut j: usize = 0;
    while j < snapshots.len()
        invariant
            j <= snapshots.len(),
            snapshots.len() >= 2,
            slowest < snapshots.len(),
            snapshots.len() == connections.len(),
            all == connections@.map_values(|c: usize| c as int),
            forall|k: int|
                #![trigger connections@[k]]
                0 <= k < connections.len() ==> snapshots@[k].median_latency_ms
                    == median::median_of(samples[connections@[k] as int]),
            medians.len() == j,
            forall|k: int| 0 <= k < j ==> medians@[k] == snapshots@[k].median_latency_ms,
            slowest < j || j == 0 && slowest == 0,
            forall|k: int|
                0 <= k < j ==> snapshots@[k].median_latency_ms
                    <= snapshots@[slowest as int].median_latency_ms,
            forall|k: int|
                slowest < k < j ==> snapshots@[k].median_latency_ms
                    < snapshots@[slowest as int].median_latency_ms,
        decreases snapshots.len() - j,
    {
        medians.push(snapshots[j].median_latency_ms);
        if snapshots[j].median_latency_ms >= snapshots[slowest].median_latency_ms {
            slowest = j;
        }
        j += 1;
    }
    assert(medians@ =~= eligible_medians(samples)) by {
        assert forall|k: int| 0 <= k < medians.len() implies medians@[k] == eligible_medians(
            samples,
        )[k] by {
            assert(connections@[k] as int == all[k]);
        }
    }
    let baseline_median_ms = match median_u64(medians.as_mut_slice()) {
        Some(median) => median,
        None => 0,
    };
    let threshold_ms = threshold_ms(baseline_median_ms);
    let connection = connections[slowest];
    proof {
        lemma_eligible(samples);
        assert(all[slowest as int] == connection as int);
        assert forall|k: int| #[trigger] eligible(samples).contains(k) implies {
            &&& median::median_of(samples[k]) <= median::median_of(samples[connection as int])
            &&& k > connection ==> median::median_of(samples[k]) < median::median_of(
                samples[connection as int],
            )
        } by {
            let n = choose|n: int| 0 <= n < all.len() && all[n] == k;
            assert(connections@[n] as int == k);
        }
        assert(is_slowest(samples, connection as int));
    }
    let name = snapshots[slowest].name.clone();
    let median_latency_ms = snapshots[slowest].median_latency_ms;
    let sample_count = snapshots[slowest].sample_count;
    if median_latency_ms > threshold_ms {
        health[connection].request_reconnect();
        SlowCheck::Reconnect {
            connection,
            name,
            median_latency_ms,
            sample_count,
            baseline_median_ms,
        }
    } else {
        SlowCheck::Healthy {
            connection,
            name,
            median_latency_ms,
            baseline_median_ms,
            threshold_ms,
        }
    }
}

/// The connections as they were leave one outcome only.
pub proof fn law_check_is_determined(a: SlowCheck, b: SlowCheck, health: Seq<ConnectionHealth>)
    requires
        check_says(a, health),
        check_says(b, health),
    ensures
        a == b,
{
    let samples = samples_of(health);
    assert forall|c: int, d: int| is_slowest(samples, c) && is_slowest(samples, d) implies c
        == d by {
        assert(eligible(samples).contains(c) && eligible(samples).contains(d));
    }
}

/// A check leaves nothing to compare: a check right behind it is skipped.
pub proof fn law_second_check_is_skipped(
    first: SlowCheck,
    second: SlowCheck,
    before: Seq<ConnectionHealth>,
    after: Seq<ConnectionHealth>,
)
    requires
        after_check(first, before, after),
        check_says(second, after),
    ensures
        second == (SlowCheck::Skipped { eligible: 0 }),
{
    let samples = samples_of(after);
    lemma_eligible(samples);
    if eligible(samples).len() > 0 {
        let c = eligible(samples)[0];
        assert(eligible(samples).contains(c));
        assert(after[c].latency_samples_ms@.len() == 0);
    }
}

/// The median of two values is the greater one.
proof fn lemma_median_of_two(s: Seq<u64>)
    requires
        s.len() == 2,
    ensures
        s[0] <= median::median_of(s),
        s[1] <= median::median_of(s),
{
    if s[0] <= s[1] {
        median::law_median_in_order(s, s);
    } else {
        let turned = seq![s[1], s[0]];
        assert(s =~= seq![s[0]].push(s[1]));
        assert(turned =~= seq![s[1]].push(s[0]));
        assert(seq![s[0]] =~= Seq::<u64>::empty().push(s[0]));
        assert(seq![s[1]] =~= Seq::<u64>::empty().push(s[1]));
        broadcast use vstd::seq_lib::to_multiset_build;

        assert(turned.to_multiset() =~= s.to_multiset());
        median::law_median_in_order(s, turned);
    }
}

/// Where only two connections can be compared, neither is asked to reconnect.
pub proof fn law_two_connections_never_reconnect(check: SlowCheck, health: Seq<ConnectionHealth>)
    requires
        check_says(check, health),
        eligible(samples_of(health)).len() == 2,
    ensures
        check is Healthy,
{
    let samples = samples_of(health);
    lemma_median_of_two(eligible_medians(samples));
    if let SlowCheck::Reconnect { connection, .. } = check {
        let k = choose|k: int|
            0 <= k < eligible(samples).len() && eligible(samples)[k] == connection as int;
        assert(eligible_medians(samples)[k] == median::median_of(samples[connection as int]));
    }
}

/// Whether a list ranks the connections that have a hundred samples at least: each stands in it
/// once, by rising median, and of those with the same median the earlier connection first.
pub open spec fn ranks(order: Seq<int>, health: Seq<ConnectionHealth>) -> bool {
    &&& forall|c: int| #[trigger]
        order.contains(c) <==> 0 <= c < health.len() && health[c].latency_samples_ms@.len() >= 100
    &&& forall|i: int, j: int|
        #![trigger order[i], order[j]]
        0 <= i < j < order.len() ==> {
            let a = median::median_of(health[order[i]].latency_samples_ms@);
            let b = median::median_of(health[order[j]].latency_samples_ms@);
            a < b || a == b && order[i] < order[j]
        }
}

/// Two lists of the same numbers, each number once, have the same values in them.
proof fn lemma_same_values(a: Seq<int>, b: Seq<int>, f: spec_fn(int) -> u64)
    requires
        a.no_duplicates(),
        b.no_duplicates(),
        forall|x: int| #[trigger] a.contains(x) <==> b.contains(x),
    ensures
        a.len() == b.len(),
        a.map_values(f).to_multiset() == b.map_values(f).to_multiset(),
    decreases a.len(),
{
    if a.len() == 0 {
        if b.len() > 0 {
            assert(b.contains(b[0]));
            assert(a.contains(b[0]));
        }
        assert(a.map_values(f) =~= b.map_values(f));
    } else {
        let n = a.len() - 1;
        let x = a[n];
        assert(a.contains(x));
        assert(b.contains(x));
        let k = choose|k: int| 0 <= k < b.len() && b[k] == x;
        let fewer = a.drop_last();
        let others = b.remove(k);
        assert forall|y: int| #[trigger] fewer.contains(y) <==> others.contains(y) by {
            if fewer.contains(y) {
                let i = choose|i: int| 0 <= i < fewer.len() && fewer[i] == y;
                assert(a[i] == y && y != x);
                assert(a.contains(y));
                let j = choose|j: int| 0 <= j < b.len() && b[j] == y;
                if j < k {
                    assert(others[j] == y);
                } else {
                    assert(others[j - 1] == y);
                }
            }
            if others.contains(y) {
                let j = choose|j: int| 0 <= j < others.len() && others[j] == y;
                let at = if j < k { j } else { j + 1 };
                assert(b[at] == y && at != k);
                assert(b.contains(y));
                assert(a.contains(y));
                let i = choose|i: int| 0 <= i < a.len() && a[i] == y;
                assert(fewer[i] == y);
            }
        }
        lemma_same_values(fewer, others, f);
        assert(a.map_values(f) =~= fewer.map_values(f).push(f(x)));
        assert(b.map_values(f).remove(k) =~= others.map_values(f));
        broadcast use {vstd::seq_lib::to_multiset_build, vstd::seq_lib::to_multiset_remove};

        assert(b.map_values(f).to_multiset().remove(f(x)) == others.map_values(f).to_multiset());
        b.map_values(f).to_multiset_ensures();
        assert(b.map_values(f)[k] == f(x));
        assert(b.map_values(f).contains(f(x)));
        assert(b.map_values(f).to_multiset() =~= others.map_values(f).to_multiset().insert(f(x)));
    }
}

/// The outcome of a check in numbers. Rank the connections that have a hundred samples at least
/// by their medians. Where they are fewer than two, the check is skipped and tells how many.
/// Else let `m` be the median of the last and `b` that of the middle one: the last is asked to
/// reconnect exactly where `m` is above twice `b`, and both outcomes tell these numbers.
pub proof fn law_slow_is_above_twice_the_fleet(
    check: SlowCheck,
    health: Seq<ConnectionHealth>,
    order: Seq<int>,
)
    requires
        check_says(check, health),
        ranks(order, health),
    ensures
        order.len() < 2 ==> check == (SlowCheck::Skipped { eligible: order.len() as usize }),
        order.len() >= 2 ==> {
            let slowest = order[order.len() - 1];
            let middle = order[order.len() as int / 2];
            let m = median::median_of(health[slowest].latency_samples_ms@);
            let b = median::median_of(health[middle].latency_samples_ms@);
            match check {
                SlowCheck::Skipped { .. } => false,
                SlowCheck::Healthy {
                    connection,
                    name,
                    median_latency_ms,
                    baseline_median_ms,
                    threshold_ms,
                } => {
                    &&& m <= 2 * b
                    &&& connection == slowest
                    &&& name == health[slowest].name
                    &&& median_latency_ms == m
                    &&& baseline_median_ms == b
                    &&& 2 * b <= u64::MAX ==> threshold_ms == 2 * b
                    &&& 2 * b > u64::MAX ==> threshold_ms == u64::MAX
                },
                SlowCheck::Reconnect {
                    connection,
                    name,
                    median_latency_ms,
                    sample_count,
                    baseline_median_ms,
                } => {
                    &&& m > 2 * b
                    &&& connection == slowest
                    &&& name == health[slowest].name
                    &&& median_latency_ms == m
                    &&& sample_count == health[slowest].latency_samples_ms@.len()
                    &&& baseline_median_ms == b
                },
            }
        },
{
    let samples = samples_of(health);
    let all = eligible(samples);
    let f = |c: int| median::median_of(samples[c]);
    lemma_eligible(samples);
    assert forall|c: int| #[trigger] order.contains(c) <==> all.contains(c) by {
        if 0 <= c < health.len() {
            assert(samples[c] == health[c].latency_samples_ms@);
        }
    }
    assert forall|i: int, j: int| 0 <= i < j < order.len() implies order[i] != order[j] by {}
    lemma_same_values(order, all, f);
    let sorted = order.map_values(f);
    assert(eligible_medians(samples) =~= all.map_values(f));
    assert forall|i: int| 0 <= i < order.len() implies #[trigger] samples[order[i]]
        == health[order[i]].latency_samples_ms@ by {
        assert(order.contains(order[i]));
    }
    assert forall|i: int, j: int| 0 <= i <= j < sorted.len() implies sorted[i] <= sorted[j] by {
        assert(samples[order[i]] == health[order[i]].latency_samples_ms@);
        assert(samples[order[j]] == health[order[j]].latency_samples_ms@);
        if i < j {
            assert(order[i] != order[j]);
        }
    }
    median::law_median_in_order(eligible_medians(samples), sorted);
    if order.len() >= 2 {
        let n = order.len() - 1;
        let slowest = order[n];
        let middle = order[order.len() as int / 2];
        assert(order.contains(slowest));
        assert(samples[slowest] == health[slowest].latency_samples_ms@);
        assert(samples[middle] == health[middle].latency_samples_ms@);
        assert(sorted[order.len() as int / 2] == f(middle));
        assert(baseline(samples) == f(middle));
        assert forall|c: int| is_slowest(samples, c) implies c == slowest by {
            assert(all.contains(c));
            assert(order.contains(c));
            assert(all.contains(slowest));
            let k = choose|k: int| 0 <= k < order.len() && order[k] == c;
            assert(samples[order[k]] == health[order[k]].latency_samples_ms@);
            if k < n {
                assert(order[k] != order[n]);
            }
        }
    }
}

/// The connections can be ranked, whatever their samples are.
pub proof fn law_ranking_exists(health: Seq<ConnectionHealth>)
    ensures
        exists|order: Seq<int>| ranks(order, health),
{
    let samples = samples_of(health);
    let all = eligible(samples);
    let f = |c: int| median::median_of(health[c].latency_samples_ms@);
    let leq = |a: int, b: int| f(a) < f(b) || f(a) == f(b) && a <= b;
    lemma_eligible(samples);
    assert(vstd::relations::total_ordering(leq));
    all.lemma_sort_by_ensures(leq);
    let order = all.sort_by(leq);
    all.to_multiset_ensures();
    order.to_multiset_ensures();
    assert forall|c: int| #[trigger] order.contains(c) <==> all.contains(c) by {
        assert(order.to_multiset().count(c) == all.to_multiset().count(c));
    }
    assert forall|c: int| #[trigger] order.contains(c) <==> 0 <= c < health.len()
        && health[c].latency_samples_ms@.len() >= 100 by {
        if 0 <= c < health.len() {
            assert(samples[c] == health[c].latency_samples_ms@);
        }
    }
    assert(all.no_duplicates());
    all.lemma_multiset_has_no_duplicates();
    order.lemma_multiset_has_no_duplicates_conv();
    assert forall|i: int, j: int|
        #![trigger order[i], order[j]]
        0 <= i < j < order.len() implies f(order[i]) < f(order[j]) || f(order[i]) == f(order[j])
        && order[i] < order[j] by {
        assert(leq(order[i], order[j]));
        assert(order[i] != order[j]);
    }
    assert(ranks(order, health));
}

/// A check takes all samples out and keeps the names. It adds one to the requests of the
/// connection that it has reconnect, and to no other.
pub proof fn law_check_asks_one_connection_at_most(
    check: SlowCheck,
    before: Seq<ConnectionHealth>,
    after: Seq<ConnectionHealth>,
    i: int,
)
    requires
        after_check(check, before, after),
        0 <= i < before.len(),
    ensures
        after.len() == before.len(),
        after[i].name == before[i].name,
        after[i].latency_samples_ms@.len() == 0,
        (check matches SlowCheck::Reconnect { connection, .. } && connection == i) ==> (
        if before[i].reconnect_requests < u64::MAX {
            after[i].reconnect_requests == before[i].reconnect_requests + 1
        } else {
            after[i].reconnect_requests == 0
        }),
        !(check matches SlowCheck::Reconnect { connection, .. } && connection == i)
            ==> after[i].reconnect_requests == before[i].reconnect_requests,
{
    assert(after[i].name == before[i].name);
}

} // verus!
