//! The relay's counters, its regular report and its end.
//!
//! Times are nanoseconds since one fixed moment, by a clock that never goes back.

use crate::clock;
use vstd::prelude::*;

verus! {

/// How often the counters are reported.
pub const STATS_INTERVAL_MS: u64 = 60_000;

/// How often the connections are compared.
pub const SLOW_CONNECTION_CHECK_NS: u128 = 3_600_000_000_000;

/// The messages since the last report.
#[derive(Clone, Copy)]
pub struct RelayCounters {
    pub messages_received: u64,
    pub messages_sent: u64,
}

impl RelayCounters {
    /// Counters at zero.
    pub fn new() -> (r: RelayCounters)
        ensures
            r == (RelayCounters { messages_received: 0, messages_sent: 0 }),
    {
        RelayCounters { messages_received: 0, messages_sent: 0 }
    }

    /// Counts a message that came in.
    pub fn count_received(&mut self)
        ensures
            *final(self) == (RelayCounters {
                messages_received: old(self).messages_received.wrapping_add(1),
                ..*old(self)
            }),
            *final(self) == counters_received(*old(self)),
    {
        self.messages_received = self.messages_received.wrapping_add(1);
    }

    /// Counts a packet that went out.
    pub fn count_sent(&mut self)
        ensures
            *final(self) == (RelayCounters {
                messages_sent: old(self).messages_sent.wrapping_add(1),
                ..*old(self)
            }),
            *final(self) == counters_after(*old(self), true),
    {
        self.messages_sent = self.messages_sent.wrapping_add(1);
    }
}

/// The counters after a payload that was sent on, or was not.
pub open spec fn counters_after(counters: RelayCounters, sent: bool) -> RelayCounters {
    RelayCounters {
        messages_sent: if sent {
            counters.messages_sent.wrapping_add(1)
        } else {
            counters.messages_sent
        },
        ..counters
    }
}

/// What is reported, and whether the connections are to be compared.
#[derive(Clone, Copy)]
pub struct StatsReport {
    pub received: u64,
    pub sent: u64,
    pub elapsed_ns: u128,
    pub check_connections: bool,
}

/// When the monitor last reported and last had the connections compared.
#[derive(Clone, Copy)]
pub struct Monitor {
    pub last_monitor: u128,
    pub last_slow_check: u128,
}

/// Whether the connections are to be compared.
pub open spec fn check_due(monitor: Monitor, now: u128) -> bool {
    clock::elapsed(now, monitor.last_slow_check) >= SLOW_CONNECTION_CHECK_NS
}

/// The monitor after a report.
pub open spec fn monitor_next(monitor: Monitor, now: u128) -> Monitor {
    Monitor {
        last_monitor: now,
        last_slow_check: if check_due(monitor, now) {
            now
        } else {
            monitor.last_slow_check
        },
    }
}

impl Monitor {
    /// A monitor that starts now.
    pub fn new(now: u128) -> (r: Monitor)
        ensures
            r == (Monitor { last_monitor: now, last_slow_check: now }),
    {
        Monitor { last_monitor: now, last_slow_check: now }
    }

    /// Whether the monitor goes on after the stop flag was written, or can be written no more.
    pub fn goes_on(closed: bool, stop: bool) -> (r: bool)
        ensures
            r == (!closed && !stop),
    {
        !(closed || stop)
    }

    /// Takes the counters for a report, sets them to zero, and sees whether the connections are
    /// to be compared.
    pub fn report(&mut self, counters: &mut RelayCounters, now: u128) -> (r: StatsReport)
        ensures
            r == (StatsReport {
                received: old(counters).messages_received,
                sent: old(counters).messages_sent,
                elapsed_ns: clock::elapsed(now, old(self).last_monitor),
                check_connections: check_due(*old(self), now),
            }),
            r == stats_report(*old(self), *old(counters), now),
            *final(counters) == (RelayCounters { messages_received: 0, messages_sent: 0 }),
            *final(self) == monitor_next(*old(self), now),
    {
        let received = counters.messages_received;
        let sent = counters.messages_sent;
        counters.messages_received = 0;
        counters.messages_sent = 0;
        let elapsed_ns = now.saturating_sub(self.last_monitor);
        self.last_monitor = now;
        let check_connections = now.saturating_sub(self.last_slow_check)
            >= SLOW_CONNECTION_CHECK_NS;
        if check_connections {
            self.last_slow_check = now;
        }
        StatsReport { received, sent, elapsed_ns, check_connections }
    }
}

/// The monitor after a run of reports.
pub open spec fn monitor_after(monitor: Monitor, times: Seq<u128>) -> Monitor
    decreases times.len(),
{
    if times.len() == 0 {
        monitor
    } else {
        monitor_next(monitor_after(monitor, times.drop_last()), times.last())
    }
}

/// Between two comparisons of the connections lies an hour at least: where report `i` has them
/// compared, a later report `j` has so only an hour later.
pub proof fn law_checks_are_an_hour_apart(monitor: Monitor, times: Seq<u128>, i: int, j: int)
    requires
        0 <= i < j < times.len(),
        forall|a: int, b: int| 0 <= a <= b < times.len() ==> times[a] <= times[b],
        check_due(monitor_after(monitor, times.take(i)), times[i]),
        check_due(monitor_after(monitor, times.take(j)), times[j]),
    ensures
        times[j] - times[i] >= SLOW_CONNECTION_CHECK_NS,
{
    assert(times.take(i + 1).drop_last() =~= times.take(i));
    assert(monitor_after(monitor, times.take(i + 1)).last_slow_check == times[i]);
    lemma_last_check_only_rises(monitor, times, i + 1, j);
}

/// The time of the last comparison never goes back.
proof fn lemma_last_check_only_rises(monitor: Monitor, times: Seq<u128>, i: int, j: int)
    requires
        1 <= i <= j <= times.len(),
        forall|a: int, b: int| 0 <= a <= b < times.len() ==> times[a] <= times[b],
        monitor_after(monitor, times.take(i)).last_slow_check == times[i - 1],
    ensures
        monitor_after(monitor, times.take(j)).last_slow_check >= times[i - 1],
    decreases j - i,
{
    if i < j {
        lemma_last_check_only_rises(monitor, times, i, j - 1);
        assert(times.take(j).drop_last() =~= times.take(j - 1));
        assert(times.take(j).last() == times[j - 1]);
    }
}

/// Why a running relay ends.
#[derive(Clone, Copy)]
pub enum RunEvent {
    /// The stop flag was written, or can be written no more.
    ShutdownChanged { closed: bool, stop: bool },
    /// The user interrupted the relay.
    Interrupted,
    /// The interrupt could not be waited for.
    InterruptFailed,
}

/// What is reported when a relay ends.
#[derive(Clone, Copy, PartialEq, Eq, Structural, Debug)]
pub enum RunNotice {
    Nothing,
    ShutdownRequested,
    Interrupted,
    InterruptFailed,
}

/// Says what to report when a relay ends.
pub fn run_notice(event: RunEvent) -> (r: RunNotice)
    ensures
        r == (match event {
            RunEvent::ShutdownChanged { closed, stop } => if closed || stop {
                RunNotice::ShutdownRequested
            } else {
                RunNotice::Nothing
            },
            RunEvent::Interrupted => RunNotice::Interrupted,
            RunEvent::InterruptFailed => RunNotice::InterruptFailed,
        }),
        r == run_notice_of(event),
{
    match event {
        RunEvent::ShutdownChanged { closed, stop } => if closed || stop {
            RunNotice::ShutdownRequested
        } else {
            RunNotice::Nothing
        },
        RunEvent::Interrupted => RunNotice::Interrupted,
        RunEvent::InterruptFailed => RunNotice::InterruptFailed,
    }
}

/// The connections are compared at a report exactly where an hour has gone by since they last
/// were, or since the monitor started. The report is remembered, and so is the comparison.
pub proof fn law_check_comes_after_an_hour(monitor: Monitor, now: u128)
    ensures
        check_due(monitor, now) <==> now >= monitor.last_slow_check + 3_600_000_000_000,
        monitor_next(monitor, now).last_monitor == now,
        now >= monitor.last_slow_check + 3_600_000_000_000 ==> monitor_next(
            monitor,
            now,
        ).last_slow_check == now,
        now < monitor.last_slow_check + 3_600_000_000_000 ==> monitor_next(
            monitor,
            now,
        ).last_slow_check == monitor.last_slow_check,
{
}

/// A packet that was sent is one more on the sent count, which starts over at its limit; one that
/// was not sent changes no count.
pub proof fn law_send_is_counted_once(counters: RelayCounters)
    ensures
        counters.messages_sent < u64::MAX ==> counters_after(counters, true).messages_sent
            == counters.messages_sent + 1,
        counters.messages_sent == u64::MAX ==> counters_after(counters, true).messages_sent == 0,
        counters_after(counters, true).messages_received == counters.messages_received,
        counters_after(counters, false) == counters,
{
}

/// What a report tells.
pub open spec fn stats_report(monitor: Monitor, counters: RelayCounters, now: u128) -> StatsReport {
    StatsReport {
        received: counters.messages_received,
        sent: counters.messages_sent,
        elapsed_ns: clock::elapsed(now, monitor.last_monitor),
        check_connections: check_due(monitor, now),
    }
}

/// A report tells both counts in full, and its time together with that of the report before gives
/// the present one; it has the connections compared where an hour has gone by since they were.
pub proof fn law_report_tells_the_counts(monitor: Monitor, counters: RelayCounters, now: u128)
    requires
        monitor.last_monitor <= now,
    ensures
        stats_report(monitor, counters, now).received == counters.messages_received,
        stats_report(monitor, counters, now).sent == counters.messages_sent,
        monitor.last_monitor + stats_report(monitor, counters, now).elapsed_ns == now,
        stats_report(monitor, counters, now).check_connections <==> now >= monitor.last_slow_check
            + 3_600_000_000_000,
{
}

/// The counters are reported once a minute, sixty times between two comparisons.
pub proof fn law_report_comes_every_minute()
    ensures
        STATS_INTERVAL_MS == 60_000,
        60 * STATS_INTERVAL_MS * 1_000_000 == SLOW_CONNECTION_CHECK_NS,
{
}

/// The counters after a message came in.
pub open spec fn counters_received(counters: RelayCounters) -> RelayCounters {
    RelayCounters {
        messages_received: counters.messages_received.wrapping_add(1),
        ..counters
    }
}

/// A message that came in is one more on the received count, which starts over at its limit, and
/// changes nothing else.
pub proof fn law_receipt_is_counted_once(counters: RelayCounters)
    ensures
        counters.messages_received < u64::MAX ==> counters_received(counters).messages_received
            == counters.messages_received + 1,
        counters.messages_received == u64::MAX ==> counters_received(counters).messages_received
            == 0,
        counters_received(counters).messages_sent == counters.messages_sent,
{
}

/// What is reported when a relay ends.
pub open spec fn run_notice_of(event: RunEvent) -> RunNotice {
    match event {
        RunEvent::ShutdownChanged { closed, stop } => if closed || stop {
            RunNotice::ShutdownRequested
        } else {
            RunNotice::Nothing
        },
        RunEvent::Interrupted => RunNotice::Interrupted,
        RunEvent::InterruptFailed => RunNotice::InterruptFailed,
    }
}

/// A relay tells why it ends: at a shutdown where the flag is set or can be written no more, and
/// at an interrupt whether it came or could not be waited for.
pub proof fn law_relay_tells_why_it_ends(closed: bool, stop: bool)
    ensures
        run_notice_of(RunEvent::ShutdownChanged { closed, stop: true })
            == RunNotice::ShutdownRequested,
        run_notice_of(RunEvent::ShutdownChanged { closed: true, stop })
            == RunNotice::ShutdownRequested,
        run_notice_of(RunEvent::ShutdownChanged { closed: false, stop: false })
            == RunNotice::Nothing,
        run_notice_of(RunEvent::Interrupted) == RunNotice::Interrupted,
        run_notice_of(RunEvent::InterruptFailed) == RunNotice::InterruptFailed,
{
}

} // verus!
