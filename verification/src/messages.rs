//! The texts of the reports.

use crate::latency;
use crate::latency::{SlowCheck, MIN_SLOW_LATENCY_SAMPLES};
use crate::monitor::RunNotice;
use crate::packet;
use crate::packet::PACKET_SIZE;
use crate::reader::ReaderNotice;
use crate::text;
use crate::text::decimal_text;
use vstd::prelude::*;

verus! {

/// A report and whether it is one of an error.
pub struct Report {
    pub is_error: bool,
    pub text: String,
}

/// A report, as mathematics.
pub struct ReportModel {
    pub is_error: bool,
    pub text: Seq<char>,
}

/// The mathematics of an optional report.
pub open spec fn report_view(report: Option<Report>) -> Option<ReportModel> {
    match report {
        Some(report) => Some(ReportModel { is_error: report.is_error, text: report.text@ }),
        None => None,
    }
}

/// A text behind the name of its connection.
pub open spec fn named(name: Seq<char>, text: Seq<char>) -> Seq<char> {
    "["@ + name + "] "@ + text
}

/// Puts the name of a connection before a text.
fn with_name(name: &str, text: &str) -> (r: String)
    ensures
        r@ == named(name@, text@),
{
    let mut named = String::from_str("[");
    named.append(name);
    named.append("] ");
    named.append(text);
    named
}

/// What is said of a check of the connections.
pub open spec fn check_text(check: SlowCheck) -> Seq<char> {
    match check {
        SlowCheck::Skipped { eligible } => "Slow connection check skipped: only "@ + text::decimal(
            eligible as nat,
        ) + " connections had at least "@ + text::decimal(
            latency::MIN_SLOW_LATENCY_SAMPLES as nat,
        ) + " samples"@,
        SlowCheck::Healthy {
            name,
            median_latency_ms,
            baseline_median_ms,
            threshold_ms,
            ..
        } => "Slow connection check ok: slowest="@ + name@ + " median="@ + text::decimal(
            median_latency_ms as nat,
        ) + "ms, fleet median="@ + text::decimal(baseline_median_ms as nat) + "ms, threshold="@
            + text::decimal(threshold_ms as nat) + "ms"@,
        SlowCheck::Reconnect {
            name,
            median_latency_ms,
            sample_count,
            baseline_median_ms,
            ..
        } => named(
            name@,
            "median latency "@ + text::decimal(median_latency_ms as nat) + "ms over "@
                + text::decimal(sample_count as nat) + " samples exceeds 2x fleet median "@
                + text::decimal(baseline_median_ms as nat)
                + "ms; reconnecting slowest connection"@,
        ),
    }
}

/// Says what came of a check of the connections.
pub fn check_message(check: &SlowCheck) -> (r: String)
    ensures
        r@ == check_text(*check),
{
    match check {
        SlowCheck::Skipped { eligible } => {
            let mut message = String::from_str("Slow connection check skipped: only ");
            message.append(decimal_text(*eligible as u64).as_str());
            message.append(" connections had at least ");
            message.append(decimal_text(MIN_SLOW_LATENCY_SAMPLES as u64).as_str());
            message.append(" samples");
            message
        },
        SlowCheck::Healthy {
            name,
            median_latency_ms,
            baseline_median_ms,
            threshold_ms,
            ..
        } => {
            let mut message = String::from_str("Slow connection check ok: slowest=");
            message.append(name.as_str());
            message.append(" median=");
            message.append(decimal_text(*median_latency_ms).as_str());
            message.append("ms, fleet median=");
            message.append(decimal_text(*baseline_median_ms).as_str());
            message.append("ms, threshold=");
            message.append(decimal_text(*threshold_ms).as_str());
            message.append("ms");
            message
        },
        SlowCheck::Reconnect {
            name,
            median_latency_ms,
            sample_count,
            baseline_median_ms,
            ..
        } => {
            let mut message = String::from_str("median latency ");
            message.append(decimal_text(*median_latency_ms).as_str());
            message.append("ms over ");
            message.append(decimal_text(*sample_count as u64).as_str());
            message.append(" samples exceeds 2x fleet median ");
            message.append(decimal_text(*baseline_median_ms).as_str());
            message.append("ms; reconnecting slowest connection");
            with_name(name.as_str(), message.as_str())
        },
    }
}

/// What a reader reports, with the name and the URI of its connection and the text of the last
/// failure. How long a connection has been idle is not put into words here.
pub open spec fn reader_report_of(
    notice: ReaderNotice,
    name: Seq<char>,
    uri: Seq<char>,
    failure: Seq<char>,
) -> Option<ReportModel> {
    match notice {
        ReaderNotice::Nothing => None,
        ReaderNotice::Connecting => Some(
            ReportModel { is_error: false, text: named(name, "connecting to "@ + uri) },
        ),
        ReaderNotice::Connected => Some(
            ReportModel { is_error: false, text: named(name, "connected"@) },
        ),
        ReaderNotice::Failed => Some(
            ReportModel { is_error: true, text: named(name, "reader error: "@ + failure) },
        ),
        ReaderNotice::Broken => Some(
            ReportModel { is_error: true, text: named(name, "connection closed: "@ + failure) },
        ),
        ReaderNotice::Ended => Some(
            ReportModel {
                is_error: true,
                text: named(name, "connection closed: websocket closed"@),
            },
        ),
        ReaderNotice::ReconnectRequested => Some(
            ReportModel {
                is_error: false,
                text: named(name, "reconnect requested by slow connection monitor"@),
            },
        ),
        ReaderNotice::IdleReconnect => Some(
            ReportModel {
                is_error: false,
                text: named(name, "idle 5s without payload; reconnecting"@),
            },
        ),
        ReaderNotice::IdleProgress { .. } => None,
    }
}

/// Puts what a reader reports into words.
pub fn reader_report(notice: ReaderNotice, name: &str, uri: &str, failure: &str) -> (r: Option<
    Report,
>)
    ensures
        report_view(r) == reader_report_of(notice, name@, uri@, failure@),
{
    match notice {
        ReaderNotice::Nothing => None,
        ReaderNotice::Connecting => {
            let mut text = String::from_str("connecting to ");
            text.append(uri);
            Some(Report { is_error: false, text: with_name(name, text.as_str()) })
        },
        ReaderNotice::Connected => Some(
            Report { is_error: false, text: with_name(name, "connected") },
        ),
        ReaderNotice::Failed => {
            let mut text = String::from_str("reader error: ");
            text.append(failure);
            Some(Report { is_error: true, text: with_name(name, text.as_str()) })
        },
        ReaderNotice::Broken => {
            let mut text = String::from_str("connection closed: ");
            text.append(failure);
            Some(Report { is_error: true, text: with_name(name, text.as_str()) })
        },
        ReaderNotice::Ended => Some(
            Report { is_error: true, text: with_name(name, "connection closed: websocket closed") },
        ),
        ReaderNotice::ReconnectRequested => Some(
            Report {
                is_error: false,
                text: with_name(name, "reconnect requested by slow connection monitor"),
            },
        ),
        ReaderNotice::IdleReconnect => Some(
            Report {
                is_error: false,
                text: with_name(name, "idle 5s without payload; reconnecting"),
            },
        ),
        ReaderNotice::IdleProgress { .. } => None,
    }
}

/// Says that a packet could not be sent.
pub fn forward_failed_message(name: &str, failure: &str) -> (r: String)
    ensures
        r@ == named(name@, "processor error: "@ + failure@),
{
    let mut text = String::from_str("processor error: ");
    text.append(failure);
    with_name(name, text.as_str())
}

/// Says how many payloads had no update id.
pub fn missing_u_message(name: &str, count: u64) -> (r: String)
    ensures
        r@ == named(
            name@,
            "payloads missing 'u': "@ + text::decimal(count as nat) + " samples seen"@,
        ),
{
    let mut text = String::from_str("payloads missing 'u': ");
    text.append(decimal_text(count).as_str());
    text.append(" samples seen");
    with_name(name, text.as_str())
}

/// Says how many frames held no payload.
pub fn dropped_message(name: &str, count: u64, endpoint_name: &str) -> (r: String)
    ensures
        r@ == named(
            name@,
            "decode/drop count="@ + text::decimal(count as nat) + " (endpoint="@ + endpoint_name@
                + ")"@,
        ),
{
    let mut text = String::from_str("decode/drop count=");
    text.append(decimal_text(count).as_str());
    text.append(" (endpoint=");
    text.append(endpoint_name);
    text.append(")");
    with_name(name, text.as_str())
}

/// Says what a relay is started with.
pub fn start_message(symbol: &str, target: &str) -> (r: String)
    ensures
        r@ == "Symbol="@ + symbol@ + " packet_size="@ + text::decimal(packet::PACKET_SIZE as nat)
            + "B destination="@ + target@,
{
    let mut message = String::from_str("Symbol=");
    message.append(symbol);
    message.append(" packet_size=");
    message.append(decimal_text(PACKET_SIZE as u64).as_str());
    message.append("B destination=");
    message.append(target);
    message
}

/// Says how many connections were started.
pub fn started_message(connections: usize, symbol: &str) -> (r: String)
    ensures
        r@ == "Started "@ + text::decimal(connections as nat) + " websocket connections for "@
            + symbol@,
{
    let mut message = String::from_str("Started ");
    message.append(decimal_text(connections as u64).as_str());
    message.append(" websocket connections for ");
    message.append(symbol);
    message
}

/// What is said when a relay ends, with the text of the failure.
pub open spec fn run_report_of(notice: RunNotice, failure: Seq<char>) -> Option<ReportModel> {
    match notice {
        RunNotice::Nothing => None,
        RunNotice::ShutdownRequested => Some(
            ReportModel { is_error: false, text: "Shutdown requested"@ },
        ),
        RunNotice::Interrupted => Some(
            ReportModel { is_error: false, text: "Shutting down due to Ctrl-C"@ },
        ),
        RunNotice::InterruptFailed => Some(
            ReportModel { is_error: true, text: "Ctrl-C handler error: "@ + failure },
        ),
    }
}

/// Says why a relay ends.
pub fn run_report(notice: RunNotice, failure: &str) -> (r: Option<Report>)
    ensures
        report_view(r) == run_report_of(notice, failure@),
{
    match notice {
        RunNotice::Nothing => None,
        RunNotice::ShutdownRequested => Some(
            Report { is_error: false, text: String::from_str("Shutdown requested") },
        ),
        RunNotice::Interrupted => Some(
            Report { is_error: false, text: String::from_str("Shutting down due to Ctrl-C") },
        ),
        RunNotice::InterruptFailed => {
            let mut text = String::from_str("Ctrl-C handler error: ");
            text.append(failure);
            Some(Report { is_error: true, text })
        },
    }
}

/// Says what a race is started with.
pub fn race_start_message(endpoints: usize, conns: u64, stream_name: &str, seconds: u64) -> (r:
    String)
    requires
        endpoints * conns <= u64::MAX,
    ensures
        r@ == "Racing "@ + text::decimal(endpoints as nat) + " spot endpoints x"@ + text::decimal(
            conns as nat,
        ) + " connections each ("@ + text::decimal((endpoints * conns) as nat) + " sockets) for "@
            + stream_name@ + " ("@ + text::decimal(seconds as nat) + "s)..."@,
{
    let mut message = String::from_str("Racing ");
    message.append(decimal_text(endpoints as u64).as_str());
    message.append(" spot endpoints x");
    message.append(decimal_text(conns).as_str());
    message.append(" connections each (");
    message.append(decimal_text(endpoints as u64 * conns).as_str());
    message.append(" sockets) for ");
    message.append(stream_name);
    message.append(" (");
    message.append(decimal_text(seconds).as_str());
    message.append("s)...");
    message
}

/// Says that a connection of the race could not be made.
pub fn connect_failed_message(name: &str, conn_id: u64, failure: &str) -> (r: String)
    ensures
        r@ == "["@ + name@ + "#"@ + text::decimal(conn_id as nat) + "] connect error: "@ + failure@,
{
    let mut message = String::from_str("[");
    message.append(name);
    message.append("#");
    message.append(decimal_text(conn_id).as_str());
    message.append("] connect error: ");
    message.append(failure);
    message
}

/// A text behind the name of its connection holds both in full.
pub proof fn law_named_text_reads_back(name: Seq<char>, text: Seq<char>)
    ensures
        named(name, text).len() == name.len() + text.len() + 3,
        named(name, text)[0] == '[',
        named(name, text).subrange(1, 1int + name.len()) == name,
        named(name, text).skip(3int + name.len()) == text,
{
    reveal_strlit("[");
    reveal_strlit("] ");
    assert(named(name, text).subrange(1, 1int + name.len()) =~= name);
    assert(named(name, text).skip(3int + name.len()) =~= text);
}

/// A reader's report names its connection first; it is an error exactly where connecting,
/// subscribing or receiving failed or the connection was closed; and the URI or the failure stands
/// at the end of those that speak of one.
pub proof fn law_reader_reports_tell_what_happened(
    notice: ReaderNotice,
    name: Seq<char>,
    uri: Seq<char>,
    failure: Seq<char>,
)
    ensures
        ({
            let report = reader_report_of(notice, name, uri, failure);
            &&& report is None <==> notice is Nothing || notice is IdleProgress
            &&& report is Some ==> {
                let text = report->0.text;
                &&& report->0.is_error <==> notice is Failed || notice is Broken || notice is Ended
                &&& text.len() >= name.len() + 3
                &&& text.subrange(1, 1int + name.len()) == name
                &&& notice is Connecting ==> text.len() >= uri.len() && text.skip(
                    text.len() - uri.len(),
                ) == uri
                &&& notice is Failed || notice is Broken ==> text.len() >= failure.len()
                    && text.skip(text.len() - failure.len()) == failure
            }
        }),
{
    reveal_strlit("[");
    reveal_strlit("] ");
    if let Some(report) = reader_report_of(notice, name, uri, failure) {
        let text = report.text;
        assert(text.subrange(1, 1int + name.len()) =~= name);
        if notice is Connecting {
            assert(text.skip(text.len() - uri.len()) =~= uri);
        }
        if notice is Failed || notice is Broken {
            assert(text.skip(text.len() - failure.len()) =~= failure);
        }
    }
}

/// Whether a part stands in a text at an offset.
pub open spec fn stands_at(text: Seq<char>, at: int, part: Seq<char>) -> bool {
    0 <= at <= at + part.len() <= text.len() && text.subrange(at, at + part.len()) == part
}

/// How many digits a number has.
pub open spec fn digits(n: int) -> int {
    text::decimal(n as nat).len() as int
}

/// Whether a number can be read off a text at an offset.
pub open spec fn reads_at(text: Seq<char>, at: int, n: u64) -> bool {
    0 <= at <= at + digits(n as int) <= text.len() && text::parsed_u64(
        text.subrange(at, at + digits(n as int)),
    ) == Some(n)
}

/// A number written at an offset can be read there.
proof fn lemma_reads_at(text: Seq<char>, at: int, n: u64)
    requires
        stands_at(text, at, text::decimal(n as nat)),
    ensures
        reads_at(text, at, n),
{
    text::law_decimal_round_trip(n);
}

/// What is said of a check that was skipped tells how many connections could be compared, and how
/// many samples it takes.
pub proof fn law_skipped_check_tells_its_numbers(eligible: u64)
    requires
        eligible <= usize::MAX,
    ensures
        ({
            let message = check_text(SlowCheck::Skipped { eligible: eligible as usize });
            &&& stands_at(message, 0, "Slow connection check skipped: only "@)
            &&& reads_at(message, 36, eligible)
            &&& stands_at(message, 36 + digits(eligible as int), " connections had at least "@)
            &&& reads_at(message, 62 + digits(eligible as int), 100)
            &&& message.len() == 62 + digits(eligible as int) + digits(100) + 8
        }),
{
    reveal_strlit("Slow connection check skipped: only ");
    reveal_strlit(" connections had at least ");
    reveal_strlit(" samples");
    let message = check_text(SlowCheck::Skipped { eligible: eligible as usize });
    let d = digits(eligible as int);
    assert(message.subrange(0, 36) =~= "Slow connection check skipped: only "@);
    assert(message.subrange(36, 36 + d) =~= text::decimal(eligible as nat));
    assert(message.subrange(36 + d, 62 + d) =~= " connections had at least "@);
    assert(message.subrange(62 + d, 62 + d + digits(100)) =~= text::decimal(100));
    lemma_reads_at(message, 36, eligible);
    lemma_reads_at(message, 62 + d, 100);
}

/// What is said of a healthy fleet names the slowest connection, and its median, that of the fleet
/// and the threshold can be read off it.
pub proof fn law_healthy_check_tells_its_numbers(check: SlowCheck)
    requires
        check is Healthy,
    ensures
        ({
            let message = check_text(check);
            let name = check->Healthy_name@;
            let m = check->Healthy_median_latency_ms;
            let b = check->Healthy_baseline_median_ms;
            let t = check->threshold_ms;
            let first = 42 + name.len() as int;
            let second = first + digits(m as int) + 17;
            let third = second + digits(b as int) + 14;
            &&& stands_at(message, 0, "Slow connection check ok: slowest="@)
            &&& stands_at(message, 34, name)
            &&& reads_at(message, first, m)
            &&& reads_at(message, second, b)
            &&& reads_at(message, third, t)
            &&& message.len() == third + digits(t as int) + 2
        }),
{
    reveal_strlit("Slow connection check ok: slowest=");
    reveal_strlit(" median=");
    reveal_strlit("ms, fleet median=");
    reveal_strlit("ms, threshold=");
    reveal_strlit("ms");
    let message = check_text(check);
    let name = check->Healthy_name@;
    let m = check->Healthy_median_latency_ms;
    let b = check->Healthy_baseline_median_ms;
    let t = check->threshold_ms;
    let first = 42 + name.len() as int;
    let second = first + digits(m as int) + 17;
    let third = second + digits(b as int) + 14;
    assert(message.subrange(0, 34) =~= "Slow connection check ok: slowest="@);
    assert(message.subrange(34, 34 + name.len() as int) =~= name);
    assert(message.subrange(first, first + digits(m as int)) =~= text::decimal(m as nat));
    assert(message.subrange(second, second + digits(b as int)) =~= text::decimal(b as nat));
    assert(message.subrange(third, third + digits(t as int)) =~= text::decimal(t as nat));
    lemma_reads_at(message, first, m);
    lemma_reads_at(message, second, b);
    lemma_reads_at(message, third, t);
}

/// What is said of a slow connection names it first, and its median, the number of its samples and
/// the median of the fleet can be read off it.
pub proof fn law_reconnect_tells_its_numbers(check: SlowCheck)
    requires
        check is Reconnect,
    ensures
        ({
            let message = check_text(check);
            let name = check->Reconnect_name@;
            let m = check->Reconnect_median_latency_ms;
            let n = check->sample_count as u64;
            let b = check->Reconnect_baseline_median_ms;
            let first = 18 + name.len() as int;
            let second = first + digits(m as int) + 8;
            let third = second + digits(n as int) + 33;
            &&& message[0] == '['
            &&& stands_at(message, 1, name)
            &&& reads_at(message, first, m)
            &&& reads_at(message, second, n)
            &&& reads_at(message, third, b)
            &&& message.len() == third + digits(b as int) + 35
        }),
{
    reveal_strlit("[");
    reveal_strlit("] ");
    reveal_strlit("median latency ");
    reveal_strlit("ms over ");
    reveal_strlit(" samples exceeds 2x fleet median ");
    reveal_strlit("ms; reconnecting slowest connection");
    let message = check_text(check);
    let name = check->Reconnect_name@;
    let m = check->Reconnect_median_latency_ms;
    let n = check->sample_count as u64;
    let b = check->Reconnect_baseline_median_ms;
    let first = 18 + name.len() as int;
    let second = first + digits(m as int) + 8;
    let third = second + digits(n as int) + 33;
    assert(message.subrange(1, 1 + name.len() as int) =~= name);
    assert(message.subrange(first, first + digits(m as int)) =~= text::decimal(m as nat));
    assert(message.subrange(second, second + digits(n as int)) =~= text::decimal(n as nat));
    assert(message.subrange(third, third + digits(b as int)) =~= text::decimal(b as nat));
    lemma_reads_at(message, first, m);
    lemma_reads_at(message, second, n);
    lemma_reads_at(message, third, b);
}

/// The end of a relay is reported where there is a reason; it is an error exactly where the
/// interrupt could not be waited for, and then the failure stands at the end.
pub proof fn law_end_of_a_relay_is_reported(notice: RunNotice, failure: Seq<char>)
    ensures
        ({
            let report = run_report_of(notice, failure);
            &&& report is None <==> notice is Nothing
            &&& report is Some ==> (report->0.is_error <==> notice is InterruptFailed)
            &&& notice is InterruptFailed ==> report->0.text.skip(22) == failure
                && report->0.text.len() == 22 + failure.len()
        }),
{
    reveal_strlit("Ctrl-C handler error: ");
    if notice is InterruptFailed {
        assert(run_report_of(notice, failure)->0.text.skip(22) =~= failure);
    }
}

} // verus!
