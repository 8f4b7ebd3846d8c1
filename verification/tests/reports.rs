use tokyo_relay::latency::SlowCheck;
use tokyo_relay::messages::{
    check_message, connect_failed_message, dropped_message, forward_failed_message,
    missing_u_message, race_start_message, reader_report, run_report, start_message,
    started_message,
};
use tokyo_relay::monitor::RunNotice;
use tokyo_relay::reader::ReaderNotice;

#[test]
fn checks_are_put_into_words() {
    assert_eq!(
        check_message(&SlowCheck::Skipped { eligible: 1 }),
        "Slow connection check skipped: only 1 connections had at least 100 samples"
    );
    assert_eq!(
        check_message(&SlowCheck::Healthy {
            connection: 1,
            name: "old-1-BTCUSDT".to_string(),
            median_latency_ms: 20,
            baseline_median_ms: 10,
            threshold_ms: 20,
        }),
        "Slow connection check ok: slowest=old-1-BTCUSDT median=20ms, fleet median=10ms, threshold=20ms"
    );
    assert_eq!(
        check_message(&SlowCheck::Reconnect {
            connection: 1,
            name: "old-1-BTCUSDT".to_string(),
            median_latency_ms: 21,
            sample_count: 150,
            baseline_median_ms: 10,
        }),
        "[old-1-BTCUSDT] median latency 21ms over 150 samples exceeds 2x fleet median 10ms; reconnecting slowest connection"
    );
}

#[test]
fn notices_are_put_into_words() {
    let words = |notice| {
        reader_report(notice, "new-1-X", "wss://host/x", "broken pipe")
            .map(|report| (report.is_error, report.text))
    };
    let info = |text: &str| Some((false, text.to_string()));
    let error = |text: &str| Some((true, text.to_string()));
    assert_eq!(words(ReaderNotice::Nothing), None);
    assert_eq!(words(ReaderNotice::Connecting), info("[new-1-X] connecting to wss://host/x"));
    assert_eq!(words(ReaderNotice::Connected), info("[new-1-X] connected"));
    assert_eq!(words(ReaderNotice::Failed), error("[new-1-X] reader error: broken pipe"));
    assert_eq!(words(ReaderNotice::Broken), error("[new-1-X] connection closed: broken pipe"));
    assert_eq!(
        words(ReaderNotice::Ended),
        error("[new-1-X] connection closed: websocket closed")
    );
    assert_eq!(
        words(ReaderNotice::ReconnectRequested),
        info("[new-1-X] reconnect requested by slow connection monitor")
    );
    assert_eq!(
        words(ReaderNotice::IdleReconnect),
        info("[new-1-X] idle 5s without payload; reconnecting")
    );
    assert_eq!(words(ReaderNotice::IdleProgress { idle_ns: 1 }), None);
}

#[test]
fn counts_and_starts_are_put_into_words() {
    assert_eq!(forward_failed_message("a", "missing symbol"), "[a] processor error: missing symbol");
    assert_eq!(missing_u_message("a", 100), "[a] payloads missing 'u': 100 samples seen");
    assert_eq!(dropped_message("a", 200, "old"), "[a] decode/drop count=200 (endpoint=old)");
    assert_eq!(
        start_message("BTCUSDT", "127.0.0.1:9125"),
        "Symbol=BTCUSDT packet_size=72B destination=127.0.0.1:9125"
    );
    assert_eq!(started_message(5, "BTCUSDT"), "Started 5 websocket connections for BTCUSDT");
}

#[test]
fn the_end_of_a_relay_is_put_into_words() {
    let words = |notice| {
        run_report(notice, "no handler").map(|report| (report.is_error, report.text))
    };
    assert_eq!(words(RunNotice::Nothing), None);
    assert_eq!(
        words(RunNotice::ShutdownRequested),
        Some((false, "Shutdown requested".to_string()))
    );
    assert_eq!(
        words(RunNotice::Interrupted),
        Some((false, "Shutting down due to Ctrl-C".to_string()))
    );
    assert_eq!(
        words(RunNotice::InterruptFailed),
        Some((true, "Ctrl-C handler error: no handler".to_string()))
    );
}

#[test]
fn the_race_is_put_into_words() {
    assert_eq!(
        race_start_message(4, 3, "btcusdt@bookTicker", 30),
        "Racing 4 spot endpoints x3 connections each (12 sockets) for btcusdt@bookTicker (30s)..."
    );
    assert_eq!(
        connect_failed_message("raw-443", 2, "refused"),
        "[raw-443#2] connect error: refused"
    );
}
