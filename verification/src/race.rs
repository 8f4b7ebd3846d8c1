//! A race between spot endpoints: which one delivers each update first.
//!
//! Times are nanoseconds since one fixed moment, by a clock that never goes back.

use crate::clock;
use crate::clock::truncate;
use crate::symbol;
use crate::symbol::stream_name;
use crate::text;
use crate::text::{same_text, trim};
use std::collections::HashMap;
use vstd::prelude::*;
use vstd::utf8::*;

verus! {

/// What was counted on one endpoint. The counts wrap around.
#[derive(Clone, Copy, PartialEq, Eq, Structural, Debug)]
pub struct Stats {
    pub connects: u64,
    pub messages: u64,
    pub wins: u64,
    /// Deliveries of an update that another endpoint had delivered before.
    pub losses: u64,
    /// Sum of the lateness of those deliveries, in microseconds.
    pub lateness_sum_us: u64,
    /// The worst lateness, in microseconds.
    pub lateness_max_us: u64,
}

impl Default for Stats {
    fn default() -> (r: Stats)
        ensures
            r == no_stats(),
    {
        Stats {
            connects: 0,
            messages: 0,
            wins: 0,
            losses: 0,
            lateness_sum_us: 0,
            lateness_max_us: 0,
        }
    }
}

/// Nothing counted.
pub open spec fn no_stats() -> Stats {
    Stats {
        connects: 0,
        messages: 0,
        wins: 0,
        losses: 0,
        lateness_sum_us: 0,
        lateness_max_us: 0,
    }
}

/// One spot endpoint in the race.
pub struct Endpoint {
    pub name: &'static str,
    pub uri: String,
    /// Whether streams are taken by request.
    pub use_subscribe: bool,
    pub stream_name: String,
    pub stats: Stats,
}

/// What an endpoint is at the start, as mathematics.
pub struct EndpointModel {
    pub name: Seq<char>,
    pub uri: Seq<char>,
    pub use_subscribe: bool,
    pub stream_name: Seq<char>,
    pub stats: Stats,
}

impl View for Endpoint {
    type V = EndpointModel;

    open spec fn view(&self) -> EndpointModel {
        EndpointModel {
            name: self.name@,
            uri: self.uri@,
            use_subscribe: self.use_subscribe,
            stream_name: self.stream_name@,
            stats: self.stats,
        }
    }
}

/// The stream that is raced for.
pub open spec fn race_stream(symbol: Seq<char>) -> Seq<char> {
    symbol::book_ticker(text::trimmed(symbol))
}

/// Names the stream that is raced for.
pub fn race_stream_name(symbol: &str) -> (r: String)
    ensures
        r@ == race_stream(symbol@),
        is_ascii_chars(symbol@) ==> r@ == symbol::ascii_book_ticker(text::ascii_trimmed(symbol@)),
{
    stream_name(trim(symbol))
}

/// An endpoint that takes its stream in the path.
pub open spec fn raw_endpoint(name: Seq<char>, base: Seq<char>, stream_name: Seq<char>) -> EndpointModel {
    EndpointModel {
        name,
        uri: base + stream_name,
        use_subscribe: false,
        stream_name,
        stats: no_stats(),
    }
}

/// The endpoints that take part.
pub open spec fn lineup(stream_name: Seq<char>) -> Seq<EndpointModel> {
    seq![
        raw_endpoint("raw-9443"@, "wss://stream.binance.com:9443/ws/"@, stream_name),
        raw_endpoint("raw-443"@, "wss://stream.binance.com:443/ws/"@, stream_name),
        raw_endpoint("data-vision"@, "wss://data-stream.binance.vision/ws/"@, stream_name),
        EndpointModel {
            name: "combined-9443"@,
            uri: "wss://stream.binance.com:9443/stream"@,
            use_subscribe: true,
            stream_name,
            stats: no_stats(),
        },
    ]
}

/// Makes an endpoint that takes its stream in the path.
fn make_raw(name: &'static str, base: &str, stream_name: &str) -> (r: Endpoint)
    ensures
        r@ == raw_endpoint(name@, base@, stream_name@),
{
    let mut uri = String::from_str(base);
    uri.append(stream_name);
    Endpoint {
        name,
        uri,
        use_subscribe: false,
        stream_name: String::from_str(stream_name),
        stats: Stats::default(),
    }
}

/// No two endpoints of the race have one name.
pub proof fn law_endpoint_names_distinct(stream_name: Seq<char>, i: int, j: int)
    requires
        0 <= i < j < lineup(stream_name).len(),
    ensures
        lineup(stream_name)[i].name != lineup(stream_name)[j].name,
{
    reveal_strlit("raw-9443");
    reveal_strlit("raw-443");
    reveal_strlit("data-vision");
    reveal_strlit("combined-9443");
    assert("raw-9443"@.len() == 8);
    assert("raw-443"@.len() == 7);
    assert("data-vision"@.len() == 11);
    assert("combined-9443"@.len() == 13);
}

/// The endpoints that take part in the race for a stream.
pub fn race_endpoints(stream_name: &str) -> (r: Vec<Endpoint>)
    ensures
        r@.map_values(|e: Endpoint| e@) == lineup(stream_name@),
{
    let combined = Endpoint {
        name: "combined-9443",
        uri: String::from_str("wss://stream.binance.com:9443/stream"),
        use_subscribe: true,
        stream_name: String::from_str(stream_name),
        stats: Stats::default(),
    };
    let endpoints = vec![
        make_raw("raw-9443", "wss://stream.binance.com:9443/ws/", stream_name),
        make_raw("raw-443", "wss://stream.binance.com:443/ws/", stream_name),
        make_raw("data-vision", "wss://data-stream.binance.vision/ws/", stream_name),
        combined,
    ];
    assert(endpoints@.map_values(|e: Endpoint| e@) =~= lineup(stream_name@));
    endpoints
}

/// The first arrival of an update: when it was, and on which endpoint, by name. Beside it,
/// whether endpoints of more than one name have delivered the update.
#[derive(Clone, Copy, Debug)]
pub struct FirstArrival {
    pub at: u128,
    pub endpoint: &'static str,
    pub by_several: bool,
}

/// The first arrival of each update.
pub type FirstSeen = HashMap<u64, FirstArrival>;

/// The first arrival of an update, where it was seen.
pub open spec fn seen_at(first_seen: Map<u64, FirstArrival>, u: u64) -> Option<FirstArrival> {
    if first_seen.dom().contains(u) {
        Some(first_seen[u])
    } else {
        None
    }
}

/// Whether an endpoint other than the one of that name has delivered an update that was seen.
pub open spec fn others_had(first: FirstArrival, endpoint: Seq<char>) -> bool {
    first.by_several || first.endpoint@ != endpoint
}

/// The first arrivals after a delivery: of the arrival known so far and the new one, the earlier
/// one stays.
pub open spec fn first_after(
    first_seen: Map<u64, FirstArrival>,
    u: u64,
    endpoint: &'static str,
    now: u128,
) -> Map<u64, FirstArrival> {
    first_seen.insert(
        u,
        match seen_at(first_seen, u) {
            None => FirstArrival { at: now, endpoint, by_several: false },
            Some(first) => if first.at <= now {
                FirstArrival { by_several: others_had(first, endpoint@), ..first }
            } else {
                FirstArrival { at: now, endpoint, by_several: others_had(first, endpoint@) }
            },
        },
    )
}

/// By how many microseconds a delivery is late.
pub open spec fn lateness_us(now: u128, first: u128) -> u64 {
    clock::low_64(clock::elapsed(now, first) as int / 1000)
}

/// The counts of an endpoint after a delivery: a win where the update was not seen before, a
/// loss where another endpoint had delivered it, and a message only where the endpoint alone had.
pub open spec fn stats_after(
    stats: Stats,
    endpoint: Seq<char>,
    first: Option<FirstArrival>,
    now: u128,
) -> Stats {
    match first {
        None => Stats {
            messages: stats.messages.wrapping_add(1),
            wins: stats.wins.wrapping_add(1),
            ..stats
        },
        Some(first) => if others_had(first, endpoint) {
            Stats {
                messages: stats.messages.wrapping_add(1),
                losses: stats.losses.wrapping_add(1),
                lateness_sum_us: stats.lateness_sum_us.wrapping_add(lateness_us(now, first.at)),
                lateness_max_us: if lateness_us(now, first.at) > stats.lateness_max_us {
                    lateness_us(now, first.at)
                } else {
                    stats.lateness_max_us
                },
                ..stats
            }
        } else {
            Stats { messages: stats.messages.wrapping_add(1), ..stats }
        },
    }
}

/// Records a delivery: a win if the update is new, a loss with its lateness if another endpoint
/// had delivered it before.
pub fn record(endpoint: &mut Endpoint, first_seen: &mut FirstSeen, u: u64, now: u128)
    ensures
        final(endpoint).stats == stats_after(
            old(endpoint).stats,
            old(endpoint).name@,
            seen_at(old(first_seen)@, u),
            now,
        ),
        final(endpoint)@ == (EndpointModel { stats: final(endpoint).stats, ..old(endpoint)@ }),
        final(first_seen)@ == first_after(old(first_seen)@, u, old(endpoint).name, now),
{
    endpoint.stats.messages = endpoint.stats.messages.wrapping_add(1);
    let known = match first_seen.get(&u) {
        Some(first) => Some(*first),
        None => None,
    };
    let first = match known {
        None => {
            endpoint.stats.wins = endpoint.stats.wins.wrapping_add(1);
            FirstArrival { at: now, endpoint: endpoint.name, by_several: false }
        },
        Some(first) => {
            let by_several = first.by_several || !same_text(first.endpoint, endpoint.name);
            if by_several {
                let lateness_us = truncate(now.saturating_sub(first.at) / 1000);
                endpoint.stats.losses = endpoint.stats.losses.wrapping_add(1);
                endpoint.stats.lateness_sum_us =
                endpoint.stats.lateness_sum_us.wrapping_add(lateness_us);
                if lateness_us > endpoint.stats.lateness_max_us {
                    endpoint.stats.lateness_max_us = lateness_us;
                }
            }
            if first.at <= now {
                FirstArrival { at: first.at, endpoint: first.endpoint, by_several }
            } else {
                FirstArrival { at: now, endpoint: endpoint.name, by_several }
            }
        },
    };
    first_seen.insert(u, first);
}

impl Endpoint {
    /// Counts a connection that was made.
    pub fn count_connect(&mut self)
        ensures
            final(self)@ == (EndpointModel {
                stats: Stats {
                    connects: old(self).stats.connects.wrapping_add(1),
                    ..old(self).stats
                },
                ..old(self)@
            }),
    {
        self.stats.connects = self.stats.connects.wrapping_add(1);
    }
}

/// Two whole numbers, the first to be divided by the second.
#[derive(Clone, Copy, PartialEq, Eq, Structural, Debug)]
pub struct Ratio {
    pub numerator: u64,
    pub denominator: u64,
}

/// One number over another; nothing over one where the other is zero.
pub open spec fn ratio(numerator: u64, denominator: u64) -> Ratio {
    if denominator > 0 {
        Ratio { numerator, denominator }
    } else {
        Ratio { numerator: 0, denominator: 1 }
    }
}

/// One endpoint in the summary.
pub struct SummaryRow {
    pub name: &'static str,
    pub connects: u64,
    pub messages: u64,
    /// Messages over seconds.
    pub rate: Ratio,
    pub wins: u64,
    /// Wins over distinct updates.
    pub win_share: Ratio,
    /// Lateness over losses, in microseconds.
    pub average_lateness_us: Ratio,
    pub lateness_max_us: u64,
}

/// The summary of a race.
pub struct Summary {
    pub total_updates: u64,
    pub rows: Vec<SummaryRow>,
}

/// Whether a row tells the truth about an endpoint.
pub open spec fn row_says(
    row: SummaryRow,
    endpoint: Endpoint,
    total_updates: u64,
    seconds: u64,
) -> bool {
    &&& row.name == endpoint.name
    &&& row.connects == endpoint.stats.connects
    &&& row.messages == endpoint.stats.messages
    &&& row.rate == (Ratio {
        numerator: endpoint.stats.messages,
        denominator: if seconds > 1 {
            seconds
        } else {
            1
        },
    })
    &&& row.wins == endpoint.stats.wins
    &&& row.win_share == ratio(endpoint.stats.wins, total_updates)
    &&& row.average_lateness_us == ratio(endpoint.stats.lateness_sum_us, endpoint.stats.losses)
    &&& row.lateness_max_us == endpoint.stats.lateness_max_us
}

/// Puts one number over another.
fn make_ratio(numerator: u64, denominator: u64) -> (r: Ratio)
    ensures
        r == ratio(numerator, denominator),
        r.denominator > 0,
{
    if denominator > 0 {
        Ratio { numerator, denominator }
    } else {
        Ratio { numerator: 0, denominator: 1 }
    }
}

/// Sums a race of so many seconds up.
pub fn summarize(endpoints: &Vec<Endpoint>, first_seen: &FirstSeen, seconds: u64) -> (r: Summary)
    ensures
        r.total_updates == first_seen@.len(),
        r.rows.len() == endpoints.len(),
        rows_say(r.rows@, endpoints@, r.total_updates, seconds),
        forall|i: int|
            0 <= i < r.rows.len() ==> row_says(
                #[trigger] r.rows@[i],
                endpoints@[i],
                r.total_updates,
                seconds,
            ),
{
    let total_updates = first_seen.len() as u64;
    let mut rows: Vec<SummaryRow> = Vec::new();
    let mut i: usize = 0;
    while i < endpoints.len()
        invariant
            i <= endpoints.len(),
            rows.len() == i,
            forall|k: int|
                0 <= k < i ==> row_says(
                    #[trigger] rows@[k],
                    endpoints@[k],
                    total_updates,
                    seconds,
                ),
        decreases endpoints.len() - i,
    {
        let stats = endpoints[i].stats;
        rows.push(
            SummaryRow {
                name: endpoints[i].name,
                connects: stats.connects,
                messages: stats.messages,
                rate: make_ratio(stats.messages, if seconds > 1 { seconds } else { 1 }),
                wins: stats.wins,
                win_share: make_ratio(stats.wins, total_updates),
                average_lateness_us: make_ratio(stats.lateness_sum_us, stats.losses),
                lateness_max_us: stats.lateness_max_us,
            },
        );
        i += 1;
    }
    Summary { total_updates, rows }
}

/// A delivery of an update by an endpoint.
pub struct Delivery {
    pub endpoint: int,
    pub u: u64,
    pub now: u128,
}

/// The state of a race, as mathematics.
pub struct RaceModel {
    pub stats: Seq<Stats>,
    pub first_seen: Map<u64, FirstArrival>,
}

/// A race of so many endpoints at its start.
pub open spec fn race_start(endpoints: nat) -> RaceModel {
    RaceModel {
        stats: Seq::new(endpoints, |i: int| no_stats()),
        first_seen: Map::empty(),
    }
}

/// The race of the endpoints of those names after a delivery, as `record` has it.
pub open spec fn race_next(
    names: Seq<&'static str>,
    race: RaceModel,
    delivery: Delivery,
) -> RaceModel {
    let name = names[delivery.endpoint];
    RaceModel {
        stats: race.stats.update(
            delivery.endpoint,
            stats_after(
                race.stats[delivery.endpoint],
                name@,
                seen_at(race.first_seen, delivery.u),
                delivery.now,
            ),
        ),
        first_seen: first_after(race.first_seen, delivery.u, name, delivery.now),
    }
}

/// The race of the endpoints of those names after a run of deliveries, in the order in which they
/// were recorded.
pub open spec fn race_after(names: Seq<&'static str>, deliveries: Seq<Delivery>) -> RaceModel
    decreases deliveries.len(),
{
    if deliveries.len() == 0 {
        race_start(names.len())
    } else {
        race_next(names, race_after(names, deliveries.drop_last()), deliveries.last())
    }
}

/// All wins.
pub open spec fn total_wins(stats: Seq<Stats>) -> nat
    decreases stats.len(),
{
    if stats.len() == 0 {
        0
    } else {
        total_wins(stats.drop_last()) + stats.last().wins as nat
    }
}

/// All messages.
pub open spec fn total_messages(stats: Seq<Stats>) -> nat
    decreases stats.len(),
{
    if stats.len() == 0 {
        0
    } else {
        total_messages(stats.drop_last()) + stats.last().messages as nat
    }
}

/// How often an endpoint delivered an update that it alone had delivered before.
pub open spec fn own_repeats(
    names: Seq<&'static str>,
    deliveries: Seq<Delivery>,
    endpoint: int,
) -> nat
    decreases deliveries.len(),
{
    if deliveries.len() == 0 {
        0
    } else {
        let rest = deliveries.drop_last();
        let last = deliveries.last();
        own_repeats(names, rest, endpoint) + match seen_at(
            race_after(names, rest).first_seen,
            last.u,
        ) {
            Some(first) => if last.endpoint == endpoint && !others_had(first, names[endpoint]@) {
                1nat
            } else {
                0nat
            },
            None => 0nat,
        }
    }
}

/// Whether the deliveries come from endpoints of the race.
pub open spec fn from_endpoints(deliveries: Seq<Delivery>, endpoints: nat) -> bool {
    forall|i: int| 0 <= i < deliveries.len() ==> 0 <= (#[trigger] deliveries[i]).endpoint < endpoints
}

/// What holds of all deliveries holds without the last one.
proof fn lemma_from_endpoints(deliveries: Seq<Delivery>, endpoints: nat)
    requires
        deliveries.len() > 0,
        from_endpoints(deliveries, endpoints),
    ensures
        from_endpoints(deliveries.drop_last(), endpoints),
        0 <= deliveries.last().endpoint < endpoints,
{
    let rest = deliveries.drop_last();
    assert forall|i: int| 0 <= i < rest.len() implies 0 <= (#[trigger] rest[i]).endpoint
        < endpoints by {
        assert(rest[i] == deliveries[i]);
    }
    assert(deliveries[deliveries.len() - 1] == deliveries.last());
}

/// Changing one endpoint changes the sums by as much.
proof fn lemma_totals_update(stats: Seq<Stats>, i: int, changed: Stats)
    requires
        0 <= i < stats.len(),
    ensures
        total_wins(stats.update(i, changed)) == total_wins(stats) - stats[i].wins + changed.wins,
        total_messages(stats.update(i, changed)) == total_messages(stats) - stats[i].messages
            + changed.messages,
        stats[i].messages <= total_messages(stats),
    decreases stats.len(),
{
    let after = stats.update(i, changed);
    if i == stats.len() - 1 {
        assert(after.drop_last() =~= stats.drop_last());
    } else {
        assert(after.drop_last() =~= stats.drop_last().update(i, changed));
        lemma_totals_update(stats.drop_last(), i, changed);
    }
}

/// Nothing counted sums up to nothing.
proof fn lemma_totals_start(endpoints: nat)
    ensures
        total_wins(race_start(endpoints).stats) == 0,
        total_messages(race_start(endpoints).stats) == 0,
    decreases endpoints,
{
    if endpoints > 0 {
        let fewer = (endpoints - 1) as nat;
        lemma_totals_start(fewer);
        assert(race_start(endpoints).stats.drop_last() =~= race_start(fewer).stats);
    }
}

/// In a race of no more deliveries than a count can hold: every distinct update was won once, by
/// one endpoint; every message is a win, a loss, or a repeat of what the endpoint alone had
/// delivered; and all deliveries are counted.
pub proof fn law_every_update_is_won_once(names: Seq<&'static str>, deliveries: Seq<Delivery>)
    requires
        from_endpoints(deliveries, names.len()),
        deliveries.len() <= u64::MAX,
    ensures
        ({
            let race = race_after(names, deliveries);
            &&& race.stats.len() == names.len()
            &&& race.first_seen.dom().finite()
            &&& total_wins(race.stats) == race.first_seen.len()
            &&& total_messages(race.stats) == deliveries.len()
            &&& forall|i: int|
                #![trigger race.stats[i]]
                0 <= i < names.len() ==> race.stats[i].messages == race.stats[i].wins
                    + race.stats[i].losses + own_repeats(names, deliveries, i)
        }),
    decreases deliveries.len(),
{
    if deliveries.len() == 0 {
        lemma_totals_start(names.len());
    } else {
        let rest = deliveries.drop_last();
        let last = deliveries.last();
        lemma_from_endpoints(deliveries, names.len());
        law_every_update_is_won_once(names, rest);
        let before = race_after(names, rest);
        let after = race_after(names, deliveries);
        let changed = stats_after(
            before.stats[last.endpoint],
            names[last.endpoint]@,
            seen_at(before.first_seen, last.u),
            last.now,
        );
        lemma_totals_update(before.stats, last.endpoint, changed);
        let counted = before.stats[last.endpoint];
        assert(counted.messages == counted.wins + counted.losses + own_repeats(
            names,
            rest,
            last.endpoint,
        ));
        assert(counted.messages < u64::MAX);
        if before.first_seen.dom().contains(last.u) {
            assert(after.first_seen.dom() =~= before.first_seen.dom());
        }
        assert forall|i: int| #![trigger after.stats[i]] 0 <= i < names.len() implies
            after.stats[i].messages == after.stats[i].wins + after.stats[i].losses + own_repeats(
            names,
            deliveries,
            i,
        ) by {
            if i != last.endpoint {
                assert(after.stats[i] == before.stats[i]);
            }
        }
    }
}

/// Whether delivery `i` is the first arrival of its update: none of the update is earlier, and
/// of those at the same time it was recorded first.
pub open spec fn arrived_first(deliveries: Seq<Delivery>, i: int) -> bool {
    &&& 0 <= i < deliveries.len()
    &&& forall|k: int|
        #![trigger deliveries[k]]
        0 <= k < deliveries.len() && deliveries[k].u == deliveries[i].u ==> {
            &&& deliveries[i].now <= deliveries[k].now
            &&& k < i ==> deliveries[i].now < deliveries[k].now
        }
}

/// The updates seen are those delivered, and each is kept with the time and the endpoint of its
/// first arrival, in whatever order the deliveries were recorded.
pub proof fn law_first_arrival_is_kept(names: Seq<&'static str>, deliveries: Seq<Delivery>, u: u64)
    ensures
        match seen_at(race_after(names, deliveries).first_seen, u) {
            Some(first) => exists|i: int|
                #![trigger deliveries[i]]
                arrived_first(deliveries, i) && deliveries[i].u == u && first.at
                    == deliveries[i].now && first.endpoint == names[deliveries[i].endpoint],
            None => forall|k: int|
                0 <= k < deliveries.len() ==> (#[trigger] deliveries[k]).u != u,
        },
    decreases deliveries.len(),
{
    if deliveries.len() > 0 {
        let rest = deliveries.drop_last();
        let last = deliveries.last();
        let n = deliveries.len() - 1;
        law_first_arrival_is_kept(names, rest, u);
        assert(deliveries[n] == last);
        assert(forall|k: int| 0 <= k < n ==> #[trigger] deliveries[k] == rest[k]);
        match seen_at(race_after(names, rest).first_seen, u) {
            Some(first) => {
                let i = choose|i: int|
                    #![trigger rest[i]]
                    arrived_first(rest, i) && rest[i].u == u && first.at == rest[i].now
                        && first.endpoint == names[rest[i].endpoint];
                assert(deliveries[i] == rest[i]);
                if last.u == u && last.now < first.at {
                    assert forall|k: int|
                        #![trigger deliveries[k]]
                        0 <= k < deliveries.len() && deliveries[k].u == deliveries[n].u implies {
                        &&& deliveries[n].now <= deliveries[k].now
                        &&& k < n ==> deliveries[n].now < deliveries[k].now
                    } by {
                        if k < n {
                            assert(deliveries[k] == rest[k]);
                        }
                    }
                    assert(arrived_first(deliveries, n));
                } else {
                    assert forall|k: int|
                        #![trigger deliveries[k]]
                        0 <= k < deliveries.len() && deliveries[k].u == deliveries[i].u implies {
                        &&& deliveries[i].now <= deliveries[k].now
                        &&& k < i ==> deliveries[i].now < deliveries[k].now
                    } by {
                        if k < n {
                            assert(deliveries[k] == rest[k]);
                        }
                    }
                    assert(arrived_first(deliveries, i));
                }
            },
            None => {
                if last.u == u {
                    assert forall|k: int| 0 <= k < n implies (#[trigger] deliveries[k]).u != u by {
                        assert(deliveries[k] == rest[k]);
                    }
                    assert(arrived_first(deliveries, n));
                } else {
                    assert forall|k: int| 0 <= k < deliveries.len() implies (
                    #[trigger] deliveries[k]).u != u by {
                        if k < n {
                            assert(deliveries[k] == rest[k]);
                        }
                    }
                }
            },
        }
    }
}

/// Whether an endpoint other than the one of that name delivered an update.
pub open spec fn delivered_by_another(
    names: Seq<&'static str>,
    deliveries: Seq<Delivery>,
    u: u64,
    name: Seq<char>,
) -> bool {
    exists|k: int|
        #![trigger deliveries[k]]
        0 <= k < deliveries.len() && deliveries[k].u == u && names[deliveries[k].endpoint]@ != name
}

/// What a delivery is counted as goes by the deliveries recorded before it: a win where the
/// update was not among them, a loss where another endpoint had delivered it, and neither where
/// the endpoint alone had.
pub proof fn law_losses_are_to_other_endpoints(
    names: Seq<&'static str>,
    deliveries: Seq<Delivery>,
    u: u64,
    name: Seq<char>,
)
    ensures
        match seen_at(race_after(names, deliveries).first_seen, u) {
            Some(first) => {
                &&& others_had(first, name) == delivered_by_another(names, deliveries, u, name)
                &&& exists|k: int|
                    0 <= k < deliveries.len() && (#[trigger] deliveries[k]).u == u
            },
            None => forall|k: int|
                0 <= k < deliveries.len() ==> (#[trigger] deliveries[k]).u != u,
        },
    decreases deliveries.len(),
{
    if deliveries.len() > 0 {
        let rest = deliveries.drop_last();
        let last = deliveries.last();
        let n = deliveries.len() - 1;
        law_losses_are_to_other_endpoints(names, rest, u, name);
        law_losses_are_to_other_endpoints(names, rest, u, names[last.endpoint]@);
        assert(deliveries[n] == last);
        assert(forall|k: int| 0 <= k < n ==> #[trigger] deliveries[k] == rest[k]);
        if delivered_by_another(names, rest, u, name) {
            let k = choose|k: int|
                #![trigger rest[k]]
                0 <= k < rest.len() && rest[k].u == u && names[rest[k].endpoint]@ != name;
            assert(deliveries[k] == rest[k]);
        }
        if seen_at(race_after(names, rest).first_seen, u) is Some {
            let k = choose|k: int| 0 <= k < rest.len() && (#[trigger] rest[k]).u == u;
            assert(deliveries[k] == rest[k]);
        }
        if delivered_by_another(names, deliveries, u, name) {
            let k = choose|k: int|
                #![trigger deliveries[k]]
                0 <= k < deliveries.len() && deliveries[k].u == u
                    && names[deliveries[k].endpoint]@ != name;
            if k < n {
                assert(rest[k] == deliveries[k]);
                assert(delivered_by_another(names, rest, u, name));
            }
        }
    }
}

/// The lateness of each delivery that an endpoint lost, in order.
pub open spec fn latenesses(
    names: Seq<&'static str>,
    deliveries: Seq<Delivery>,
    endpoint: int,
) -> Seq<u64>
    decreases deliveries.len(),
{
    if deliveries.len() == 0 {
        Seq::empty()
    } else {
        let rest = deliveries.drop_last();
        let last = deliveries.last();
        let before = latenesses(names, rest, endpoint);
        match seen_at(race_after(names, rest).first_seen, last.u) {
            Some(first) => if last.endpoint == endpoint && others_had(first, names[endpoint]@) {
                before.push(lateness_us(last.now, first.at))
            } else {
                before
            },
            None => before,
        }
    }
}

/// The sum of some numbers.
pub open spec fn sum_of(numbers: Seq<u64>) -> int
    decreases numbers.len(),
{
    if numbers.len() == 0 {
        0
    } else {
        sum_of(numbers.drop_last()) + numbers.last()
    }
}

/// An endpoint's lateness is summed up, in 64 bits, over the deliveries that it lost to another
/// endpoint, and its worst lateness is that of one of them and at least that of each; without a
/// lost delivery both are zero.
#[verifier::spinoff_prover]
#[verifier::rlimit(50)]
pub proof fn law_lateness_is_that_of_the_losses(
    names: Seq<&'static str>,
    deliveries: Seq<Delivery>,
    endpoint: int,
)
    requires
        from_endpoints(deliveries, names.len()),
        0 <= endpoint < names.len(),
    ensures
        ({
            let stats = race_after(names, deliveries).stats[endpoint];
            let late = latenesses(names, deliveries, endpoint);
            &&& race_after(names, deliveries).stats.len() == names.len()
            &&& stats.losses == clock::low_64(late.len() as int)
            &&& stats.lateness_sum_us == clock::low_64(sum_of(late))
            &&& late.len() == 0 ==> stats.lateness_max_us == 0
            &&& late.len() > 0 ==> late.contains(stats.lateness_max_us)
            &&& forall|i: int|
                0 <= i < late.len() ==> #[trigger] late[i] <= stats.lateness_max_us
        }),
    decreases deliveries.len(),
{
    if deliveries.len() > 0 {
        let rest = deliveries.drop_last();
        let last = deliveries.last();
        lemma_from_endpoints(deliveries, names.len());
        law_lateness_is_that_of_the_losses(names, rest, endpoint);
        let before = race_after(names, rest);
        let after = race_after(names, deliveries);
        let late_before = latenesses(names, rest, endpoint);
        let late = latenesses(names, deliveries, endpoint);
        let seen = seen_at(before.first_seen, last.u);
        if last.endpoint == endpoint && seen is Some && others_had(seen->0, names[endpoint]@) {
            let lateness = lateness_us(last.now, seen->0.at);
            let worst = after.stats[endpoint].lateness_max_us;
            assert(late == late_before.push(lateness));
            assert(late.drop_last() =~= late_before);
            assert(after.stats[endpoint].lateness_sum_us == clock::low_64(
                before.stats[endpoint].lateness_sum_us + lateness,
            ));
            if worst == lateness {
                assert(late[late.len() - 1] == worst);
            } else if late_before.len() > 0 {
                let k = choose|k: int|
                    0 <= k < late_before.len() && late_before[k]
                        == before.stats[endpoint].lateness_max_us;
                assert(late[k] == worst);
            }
            assert forall|i: int| 0 <= i < late.len() implies #[trigger] late[i] <= worst by {
                if i < late_before.len() {
                    assert(late[i] == late_before[i]);
                }
            }
        } else {
            assert(after.stats[endpoint].lateness_max_us
                == before.stats[endpoint].lateness_max_us);
        }
    }
}

/// Whether no two of the names are the same.
pub open spec fn distinct(names: Seq<&'static str>) -> bool {
    forall|i: int, j: int|
        #![trigger names[i], names[j]]
        0 <= i < j < names.len() ==> names[i]@ != names[j]@
}

/// Whether no endpoint delivered an update twice.
pub open spec fn without_repeats(deliveries: Seq<Delivery>) -> bool {
    forall|i: int, j: int|
        #![trigger deliveries[i], deliveries[j]]
        0 <= i < j < deliveries.len() && deliveries[i].endpoint == deliveries[j].endpoint
            ==> deliveries[i].u != deliveries[j].u
}

/// Where no endpoint delivers an update twice, none repeats its own.
proof fn lemma_no_own_repeats(
    names: Seq<&'static str>,
    deliveries: Seq<Delivery>,
    endpoint: int,
)
    requires
        from_endpoints(deliveries, names.len()),
        0 <= endpoint < names.len(),
        distinct(names),
        without_repeats(deliveries),
    ensures
        own_repeats(names, deliveries, endpoint) == 0,
    decreases deliveries.len(),
{
    if deliveries.len() > 0 {
        let rest = deliveries.drop_last();
        let last = deliveries.last();
        let n = deliveries.len() - 1;
        lemma_from_endpoints(deliveries, names.len());
        assert(deliveries[n] == last);
        assert(without_repeats(rest)) by {
            assert forall|i: int, j: int|
                #![trigger rest[i], rest[j]]
                0 <= i < j < rest.len() && rest[i].endpoint == rest[j].endpoint implies rest[i].u
                != rest[j].u by {
                assert(deliveries[i] == rest[i] && deliveries[j] == rest[j]);
            }
        }
        lemma_no_own_repeats(names, rest, endpoint);
        law_losses_are_to_other_endpoints(names, rest, last.u, names[endpoint]@);
        if last.endpoint == endpoint && seen_at(race_after(names, rest).first_seen, last.u) is Some {
            let k = choose|k: int| 0 <= k < rest.len() && (#[trigger] rest[k]).u == last.u;
            assert(deliveries[k] == rest[k]);
            assert(rest[k].endpoint != endpoint);
            assert(0 <= rest[k].endpoint < names.len());
            let other = rest[k].endpoint;
            assert(names[other]@ != names[endpoint]@);
            assert(delivered_by_another(names, rest, last.u, names[endpoint]@));
        }
    }
}

/// The sum of some numbers lies between the greatest of them and that one times their number.
proof fn lemma_sum_bounds(numbers: Seq<u64>, greatest: u64)
    requires
        forall|i: int| 0 <= i < numbers.len() ==> #[trigger] numbers[i] <= greatest,
    ensures
        0 <= sum_of(numbers) <= numbers.len() * greatest,
        forall|i: int| 0 <= i < numbers.len() ==> #[trigger] numbers[i] <= sum_of(numbers),
    decreases numbers.len(),
{
    if numbers.len() > 0 {
        let rest = numbers.drop_last();
        assert forall|i: int| 0 <= i < rest.len() implies #[trigger] rest[i] <= greatest by {
            assert(rest[i] == numbers[i]);
        }
        lemma_sum_bounds(rest, greatest);
        assert(numbers[numbers.len() - 1] == numbers.last());
        assert(numbers.len() * greatest == rest.len() * greatest + greatest) by (nonlinear_arith)
            requires
                numbers.len() == rest.len() + 1,
        ;
        assert forall|i: int| 0 <= i < numbers.len() implies #[trigger] numbers[i] <= sum_of(
            numbers,
        ) by {
            if i < rest.len() {
                assert(numbers[i] == rest[i]);
            }
        }
    }
}

/// In a race of endpoints that differ in name, none of which delivers an update twice, and
/// without an overflow: on each endpoint every message is a win or a loss, and the lateness sums
/// up to no less than the worst one and no more than the worst one for every loss. Over all
/// endpoints there is one win for each update, and the updates seen are those delivered.
pub proof fn law_one_winner_per_update(names: Seq<&'static str>, deliveries: Seq<Delivery>)
    requires
        from_endpoints(deliveries, names.len()),
        distinct(names),
        without_repeats(deliveries),
        deliveries.len() <= u64::MAX,
        forall|i: int|
            0 <= i < names.len() ==> sum_of(#[trigger] latenesses(names, deliveries, i))
                <= u64::MAX,
    ensures
        ({
            let race = race_after(names, deliveries);
            &&& race.stats.len() == names.len()
            &&& forall|i: int|
                #![trigger race.stats[i]]
                0 <= i < names.len() ==> {
                    &&& race.stats[i].messages == race.stats[i].wins + race.stats[i].losses
                    &&& race.stats[i].lateness_max_us <= race.stats[i].lateness_sum_us
                    &&& race.stats[i].lateness_sum_us <= race.stats[i].losses
                        * race.stats[i].lateness_max_us
                }
            &&& total_wins(race.stats) == race.first_seen.len()
            &&& forall|u: u64| #[trigger]
                race.first_seen.dom().contains(u) <==> exists|k: int|
                    0 <= k < deliveries.len() && (#[trigger] deliveries[k]).u == u
        }),
{
    let race = race_after(names, deliveries);
    law_every_update_is_won_once(names, deliveries);
    assert forall|i: int| #![trigger race.stats[i]] 0 <= i < names.len() implies {
        &&& race.stats[i].messages == race.stats[i].wins + race.stats[i].losses
        &&& race.stats[i].lateness_max_us <= race.stats[i].lateness_sum_us
        &&& race.stats[i].lateness_sum_us <= race.stats[i].losses * race.stats[i].lateness_max_us
    } by {
        let late = latenesses(names, deliveries, i);
        lemma_no_own_repeats(names, deliveries, i);
        law_lateness_is_that_of_the_losses(names, deliveries, i);
        lemma_losses_fit(names, deliveries, i);
        lemma_sum_bounds(late, race.stats[i].lateness_max_us);
        if late.len() > 0 {
            let k = choose|k: int|
                0 <= k < late.len() && late[k] == race.stats[i].lateness_max_us;
            assert(late[k] <= sum_of(late));
        }
    }
    assert forall|u: u64| #[trigger]
        race.first_seen.dom().contains(u) <==> exists|k: int|
            0 <= k < deliveries.len() && (#[trigger] deliveries[k]).u == u by {
        law_losses_are_to_other_endpoints(names, deliveries, u, Seq::empty());
    }
}

/// An endpoint loses no more deliveries than there are.
proof fn lemma_losses_fit(names: Seq<&'static str>, deliveries: Seq<Delivery>, endpoint: int)
    ensures
        latenesses(names, deliveries, endpoint).len() <= deliveries.len(),
    decreases deliveries.len(),
{
    if deliveries.len() > 0 {
        lemma_losses_fit(names, deliveries.drop_last(), endpoint);
    }
}

/// Whether nothing is about to overflow in a count.
pub open spec fn has_room(stats: Stats) -> bool {
    stats.messages < u64::MAX && stats.wins < u64::MAX && stats.losses < u64::MAX
}

/// A delivery of an update that nobody delivered before is one message and one win more, and
/// changes nothing else.
pub proof fn law_new_update_is_a_win(stats: Stats, endpoint: Seq<char>, now: u128)
    requires
        has_room(stats),
    ensures
        ({
            let after = stats_after(stats, endpoint, None, now);
            &&& after.messages == stats.messages + 1
            &&& after.wins == stats.wins + 1
            &&& after.losses == stats.losses
            &&& after.connects == stats.connects
            &&& after.lateness_sum_us == stats.lateness_sum_us
            &&& after.lateness_max_us == stats.lateness_max_us
        }),
{
}

/// A delivery of an update that the endpoint alone delivered before is one message more, and
/// changes nothing else.
pub proof fn law_own_repeat_is_a_message_only(
    stats: Stats,
    endpoint: Seq<char>,
    first: FirstArrival,
    now: u128,
)
    requires
        has_room(stats),
        first.endpoint@ == endpoint,
        !first.by_several,
    ensures
        ({
            let after = stats_after(stats, endpoint, Some(first), now);
            &&& after.messages == stats.messages + 1
            &&& after.wins == stats.wins
            &&& after.losses == stats.losses
            &&& after.connects == stats.connects
            &&& after.lateness_sum_us == stats.lateness_sum_us
            &&& after.lateness_max_us == stats.lateness_max_us
        }),
{
}

/// A delivery of an update that another endpoint delivered before is one message and one loss
/// more. It adds to the sum the whole microseconds from the first arrival to the delivery, as
/// many as fit between the two moments, and none where the delivery came first; the worst
/// lateness is raised to them where it was less.
pub proof fn law_lateness_is_the_time_since_the_first_arrival(
    stats: Stats,
    endpoint: Seq<char>,
    first: FirstArrival,
    now: u128,
    late: u64,
)
    requires
        has_room(stats),
        first.endpoint@ != endpoint || first.by_several,
        first.at <= now ==> 1000 * late <= now - first.at < 1000 * (late + 1),
        first.at > now ==> late == 0,
        stats.lateness_sum_us + late <= u64::MAX,
    ensures
        ({
            let after = stats_after(stats, endpoint, Some(first), now);
            &&& after.messages == stats.messages + 1
            &&& after.losses == stats.losses + 1
            &&& after.wins == stats.wins
            &&& after.connects == stats.connects
            &&& after.lateness_sum_us == stats.lateness_sum_us + late
            &&& after.lateness_max_us >= late
            &&& after.lateness_max_us >= stats.lateness_max_us
            &&& after.lateness_max_us == late || after.lateness_max_us == stats.lateness_max_us
        }),
{
    assert(clock::elapsed(now, first.at) as int / 1000 == late);
}

/// Of two deliveries lost to the same first arrival, the later one is never counted as less late,
/// and for every microsecond between the two it is counted as one later.
pub proof fn law_later_is_later(first: u128, sooner: u128, later: u128, us: nat)
    requires
        first <= sooner,
        sooner + 1000 * us == later,
        later - first < 1000 * 0x1_0000_0000_0000_0000,
    ensures
        lateness_us(later, first) == lateness_us(sooner, first) + us,
{
}

/// The wins of all endpoints, row by row.
pub open spec fn share_sum(rows: Seq<SummaryRow>) -> nat
    decreases rows.len(),
{
    if rows.len() == 0 {
        0
    } else {
        share_sum(rows.drop_last()) + rows.last().win_share.numerator as nat
    }
}

/// The messages of all endpoints, row by row.
pub open spec fn rate_sum(rows: Seq<SummaryRow>) -> nat
    decreases rows.len(),
{
    if rows.len() == 0 {
        0
    } else {
        rate_sum(rows.drop_last()) + rows.last().rate.numerator as nat
    }
}

/// Whether the rows are what `summarize` makes of those endpoints.
pub open spec fn rows_say(
    rows: Seq<SummaryRow>,
    endpoints: Seq<Endpoint>,
    total_updates: u64,
    seconds: u64,
) -> bool {
    &&& rows.len() == endpoints.len()
    &&& forall|i: int|
        0 <= i < rows.len() ==> row_says(
            #[trigger] rows[i],
            endpoints[i],
            total_updates,
            seconds,
        )
}

/// The numerators add up to the counts.
proof fn lemma_row_sums(
    rows: Seq<SummaryRow>,
    endpoints: Seq<Endpoint>,
    total_updates: u64,
    seconds: u64,
)
    requires
        rows_say(rows, endpoints, total_updates, seconds),
    ensures
        total_updates > 0 ==> share_sum(rows) == total_wins(
            endpoints.map_values(|e: Endpoint| e.stats),
        ),
        rate_sum(rows) == total_messages(endpoints.map_values(|e: Endpoint| e.stats)),
    decreases rows.len(),
{
    if rows.len() > 0 {
        let n = rows.len() - 1;
        let fewer = rows.drop_last();
        let others = endpoints.drop_last();
        assert forall|i: int| 0 <= i < fewer.len() implies row_says(
            #[trigger] fewer[i],
            others[i],
            total_updates,
            seconds,
        ) by {
            assert(fewer[i] == rows[i]);
        }
        lemma_row_sums(fewer, others, total_updates, seconds);
        assert(row_says(rows[n], endpoints[n], total_updates, seconds));
        let stats = endpoints.map_values(|e: Endpoint| e.stats);
        assert(stats.drop_last() =~= others.map_values(|e: Endpoint| e.stats));
        assert(stats.last() == endpoints[n].stats);
    }
}

/// The summary of a whole race. All shares have one denominator, the number of distinct updates,
/// and their numerators add up to it: the shares of all endpoints make up one. Without an update
/// every share is nothing. All rates have one denominator, the seconds of the race but one at
/// least, and their numerators add up to the deliveries.
pub proof fn law_shares_make_up_one(
    rows: Seq<SummaryRow>,
    endpoints: Seq<Endpoint>,
    total_updates: u64,
    seconds: u64,
    names: Seq<&'static str>,
    deliveries: Seq<Delivery>,
)
    requires
        rows_say(rows, endpoints, total_updates, seconds),
        from_endpoints(deliveries, names.len()),
        deliveries.len() <= u64::MAX,
        endpoints.map_values(|e: Endpoint| e.stats) == race_after(names, deliveries).stats,
        total_updates == race_after(names, deliveries).first_seen.len(),
    ensures
        deliveries.len() > 0 ==> total_updates > 0,
        total_updates > 0 ==> share_sum(rows) == total_updates,
        rate_sum(rows) == deliveries.len(),
        forall|i: int|
            #![trigger rows[i]]
            0 <= i < rows.len() ==> {
                &&& total_updates > 0 ==> rows[i].win_share.denominator == total_updates
                &&& total_updates == 0 ==> rows[i].win_share.numerator == 0
                    && rows[i].win_share.denominator == 1
                &&& seconds > 0 ==> rows[i].rate.denominator == seconds
                &&& seconds == 0 ==> rows[i].rate.denominator == 1
            },
{
    law_every_update_is_won_once(names, deliveries);
    lemma_row_sums(rows, endpoints, total_updates, seconds);
    if deliveries.len() > 0 {
        let u = deliveries[0].u;
        law_first_arrival_is_kept(names, deliveries, u);
        let seen = race_after(names, deliveries).first_seen;
        assert(seen.dom().contains(u));
        if seen.len() == 0 {
            assert(seen.dom() =~= Set::<u64>::empty());
        }
    }
}

/// One row of a summary: the counts are those of the endpoint, and the averages are taken over
/// its own messages, wins and losses. Its average lateness is nothing without a loss; with one
/// it is the sum over the number of losses.
pub proof fn law_row_is_that_of_its_endpoint(
    row: SummaryRow,
    endpoint: Endpoint,
    total_updates: u64,
    seconds: u64,
)
    requires
        row_says(row, endpoint, total_updates, seconds),
    ensures
        row.name@ == endpoint.name@,
        row.connects == endpoint.stats.connects,
        row.messages == endpoint.stats.messages,
        row.wins == endpoint.stats.wins,
        row.lateness_max_us == endpoint.stats.lateness_max_us,
        row.rate.numerator == endpoint.stats.messages,
        row.rate.denominator >= 1,
        row.rate.denominator == seconds || seconds == 0 && row.rate.denominator == 1,
        total_updates > 0 ==> row.win_share.numerator == endpoint.stats.wins
            && row.win_share.denominator == total_updates,
        endpoint.stats.losses > 0 ==> row.average_lateness_us.numerator
            == endpoint.stats.lateness_sum_us && row.average_lateness_us.denominator
            == endpoint.stats.losses,
        endpoint.stats.losses == 0 ==> row.average_lateness_us.numerator == 0
            && row.average_lateness_us.denominator == 1,
{
}

/// After any delivery the update is known with an arrival no later than the delivery and no later
/// than the one known before, and no other update is touched.
pub proof fn law_first_arrival_only_moves_back(
    first_seen: Map<u64, FirstArrival>,
    u: u64,
    endpoint: &'static str,
    now: u128,
    other: u64,
)
    ensures
        ({
            let after = first_after(first_seen, u, endpoint, now);
            &&& after.dom().contains(u)
            &&& after[u].at <= now
            &&& first_seen.dom().contains(u) ==> after[u].at <= first_seen[u].at
            &&& after[u].at == now || first_seen.dom().contains(u) && after[u].at
                == first_seen[u].at
            &&& after[u].at < now ==> after[u].endpoint == first_seen[u].endpoint
            &&& !first_seen.dom().contains(u) ==> after[u].endpoint == endpoint
                && !after[u].by_several
            &&& first_seen.dom().contains(u) && now < first_seen[u].at ==> after[u].endpoint
                == endpoint
            &&& other != u ==> (after.dom().contains(other) <==> first_seen.dom().contains(other))
            &&& other != u && first_seen.dom().contains(other) ==> after[other]
                == first_seen[other]
        }),
{
}

/// The race is for the book ticker of one symbol on four endpoints, of which the combined one
/// alone takes the stream by a request and the others have it at the end of the URI.
pub proof fn law_lineup_asks_for_the_stream(stream_name: Seq<char>, i: int)
    requires
        0 <= i < lineup(stream_name).len(),
    ensures
        lineup(stream_name).len() == 4,
        ({
            let endpoint = lineup(stream_name)[i];
            &&& endpoint.stream_name == stream_name
            &&& endpoint.stats == no_stats()
            &&& endpoint.use_subscribe <==> endpoint.name == "combined-9443"@
            &&& !endpoint.use_subscribe ==> endpoint.uri.len() >= stream_name.len()
                && endpoint.uri.skip(endpoint.uri.len() - stream_name.len()) == stream_name
            &&& endpoint.use_subscribe ==> endpoint.uri == "wss://stream.binance.com:9443/stream"@
        }),
{
    law_endpoint_names_distinct(stream_name, 0, 3);
    law_endpoint_names_distinct(stream_name, 1, 3);
    law_endpoint_names_distinct(stream_name, 2, 3);
    let endpoint = lineup(stream_name)[i];
    if i < 3 {
        assert(endpoint.uri.skip(endpoint.uri.len() - stream_name.len()) =~= stream_name);
    }
}

/// The race is for the stream of the symbol's core: the whitespace around it does not count.
pub proof fn law_race_is_for_the_symbol(symbol: Seq<char>, from: int, to: int)
    requires
        text::is_core(symbol, from, to, |c: char| text::white_space(c)),
    ensures
        race_stream(symbol) == text::lowercase(symbol.subrange(from, to)) + "@bookTicker"@,
{
    text::law_white_space_is_trimmed(symbol, from, to);
}

/// Each endpoint of the race is at its own address, whatever the stream is.
pub proof fn law_lineup_has_four_addresses(stream_name: Seq<char>)
    ensures
        ({
            let all = lineup(stream_name);
            &&& all[0].name == "raw-9443"@
            &&& all[0].uri == "wss://stream.binance.com:9443/ws/"@ + stream_name
            &&& all[1].name == "raw-443"@
            &&& all[1].uri == "wss://stream.binance.com:443/ws/"@ + stream_name
            &&& all[2].name == "data-vision"@
            &&& all[2].uri == "wss://data-stream.binance.vision/ws/"@ + stream_name
            &&& all[3].name == "combined-9443"@
            &&& all[3].uri == "wss://stream.binance.com:9443/stream"@
        }),
{
}

} // verus!
