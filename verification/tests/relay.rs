use tokyo_relay::clock::{current_unix_millis, truncate, unix_millis};
use tokyo_relay::dedup::{register_new_u, SentIds};
use tokyo_relay::endpoints::connection_plan;
use tokyo_relay::json::{parse_json, Json};
use tokyo_relay::latency::{
    replace_slowest_connection_if_needed, ConnectionHealth, SlowCheck, LATENCY_SAMPLE_CAP,
};
use tokyo_relay::log::{error, info, log_line, render_line};
use tokyo_relay::median::median_u64;
use tokyo_relay::monitor::{run_notice, Monitor, RelayCounters, RunEvent, RunNotice};
use tokyo_relay::payload::WsMessage;
use tokyo_relay::processor::{
    idle_action, Frame, IdleAction, LatestBuffer, Processor, ProcessorEvent,
};
use tokyo_relay::reader::{Reader, ReaderAction, ReaderEvent, ReaderNotice};

const SECOND: u128 = 1_000_000_000;

fn health(name: &str, latency_ms: u64, samples: usize) -> ConnectionHealth {
    let mut health = ConnectionHealth::new(name.to_string());
    for _ in 0..samples {
        health.record_latency_ms(latency_ms);
    }
    health
}

fn payload(text: &str) -> Option<Json> {
    parse_json(text.as_bytes())
}

#[test]
fn medians_stand_in_the_middle() {
    assert_eq!(median_u64(&mut []), None);
    assert_eq!(median_u64(&mut [5]), Some(5));
    assert_eq!(median_u64(&mut [9, 1]), Some(9));
    assert_eq!(median_u64(&mut [3, 1, 2]), Some(2));
    assert_eq!(median_u64(&mut [4, 1, 3, 2]), Some(3));
    assert_eq!(median_u64(&mut [7, 7, 1, 7]), Some(7));
    let mut values = [u64::MAX, 0, 5, 5];
    assert_eq!(median_u64(&mut values), Some(5));
    assert_eq!(values, [0, 5, 5, u64::MAX]);
}

#[test]
fn samples_are_capped() {
    let mut health = health("a", 1, LATENCY_SAMPLE_CAP);
    health.record_latency_ms(2);
    assert_eq!(health.latency_samples_ms.len(), LATENCY_SAMPLE_CAP);
    assert!(health.latency_samples_ms.iter().all(|&ms| ms == 1));
}

#[test]
fn snapshots_drain_the_samples() {
    let mut health = ConnectionHealth::new("new-1-BTCUSDT".to_string());
    assert!(health.drain_latency_snapshot().is_none());
    for ms in [30, 10, 20] {
        health.record_latency_ms(ms);
    }
    match health.drain_latency_snapshot() {
        Some(snapshot) => {
            assert_eq!(snapshot.name, "new-1-BTCUSDT");
            assert_eq!(snapshot.sample_count, 3);
            assert_eq!(snapshot.median_latency_ms, 20);
        }
        None => panic!("no snapshot"),
    }
    assert!(health.latency_samples_ms.is_empty());
    assert!(health.drain_latency_snapshot().is_none());
}

#[test]
fn reconnect_requests_wrap_around() {
    let mut health = ConnectionHealth::new("a".to_string());
    health.request_reconnect();
    assert_eq!(health.reconnect_requests, 1);
    health.reconnect_requests = u64::MAX;
    health.request_reconnect();
    assert_eq!(health.reconnect_requests, 0);
}

#[test]
fn a_check_needs_two_connections_with_samples() {
    let mut all = vec![health("a", 10, 100), health("b", 99, 99), health("c", 1, 0)];
    assert!(matches!(
        replace_slowest_connection_if_needed(&mut all),
        SlowCheck::Skipped { eligible: 1 }
    ));
    assert!(all.iter().all(|h| h.latency_samples_ms.is_empty()));
    assert!(all.iter().all(|h| h.reconnect_requests == 0));
    assert!(matches!(
        replace_slowest_connection_if_needed(&mut Vec::new()),
        SlowCheck::Skipped { eligible: 0 }
    ));
}

#[test]
fn the_slowest_connection_is_asked_to_reconnect() {
    let mut all = vec![health("a", 10, 100), health("b", 21, 150), health("c", 10, 100)];
    match replace_slowest_connection_if_needed(&mut all) {
        SlowCheck::Reconnect {
            connection,
            name,
            median_latency_ms,
            sample_count,
            baseline_median_ms,
        } => {
            assert_eq!(connection, 1);
            assert_eq!(name, "b");
            assert_eq!(median_latency_ms, 21);
            assert_eq!(sample_count, 150);
            assert_eq!(baseline_median_ms, 10);
        }
        _ => panic!("no reconnect"),
    }
    let requests: Vec<u64> = all.iter().map(|h| h.reconnect_requests).collect();
    assert_eq!(requests, vec![0, 1, 0]);
    assert!(all.iter().all(|h| h.latency_samples_ms.is_empty()));
    assert!(matches!(
        replace_slowest_connection_if_needed(&mut all),
        SlowCheck::Skipped { eligible: 0 }
    ));
}

#[test]
fn twice_the_median_is_not_slow_yet() {
    let mut all = vec![health("a", 10, 100), health("b", 20, 100), health("c", 10, 100)];
    match replace_slowest_connection_if_needed(&mut all) {
        SlowCheck::Healthy {
            connection,
            name,
            median_latency_ms,
            baseline_median_ms,
            threshold_ms,
        } => {
            assert_eq!(connection, 1);
            assert_eq!(name, "b");
            assert_eq!(median_latency_ms, 20);
            assert_eq!(baseline_median_ms, 10);
            assert_eq!(threshold_ms, 20);
        }
        _ => panic!("not healthy"),
    }
    assert!(all.iter().all(|h| h.reconnect_requests == 0));
}

#[test]
fn the_last_of_equally_slow_connections_is_taken() {
    let mut all = vec![
        health("a", 30, 100),
        health("b", 1, 100),
        health("c", 30, 100),
        health("d", 1, 100),
        health("e", 1, 100),
    ];
    assert!(matches!(
        replace_slowest_connection_if_needed(&mut all),
        SlowCheck::Reconnect { connection: 2, .. }
    ));
}

#[test]
fn of_two_connections_neither_reconnects() {
    let mut all = vec![health("a", 1, 100), health("b", 1_000_000, 100)];
    assert!(matches!(
        replace_slowest_connection_if_needed(&mut all),
        SlowCheck::Healthy { connection: 1, baseline_median_ms: 1_000_000, .. }
    ));
}

#[test]
fn the_threshold_saturates() {
    let mut all = vec![health("a", u64::MAX, 100), health("b", u64::MAX - 1, 100)];
    assert!(matches!(
        replace_slowest_connection_if_needed(&mut all),
        SlowCheck::Healthy { connection: 0, threshold_ms: u64::MAX, .. }
    ));
}

#[test]
fn the_greatest_id_is_remembered() {
    let mut last_u = 0;
    let greatest: Vec<u64> = [3_u64, 3, 2, 5, 4, 5, 6, 0]
        .into_iter()
        .filter(|&u| register_new_u(&mut last_u, u))
        .collect();
    assert_eq!(greatest, vec![3, 5, 6]);
    assert_eq!(last_u, 6);
    assert!(!register_new_u(&mut last_u, 0));
    assert!(register_new_u(&mut last_u, u64::MAX));
    assert!(!register_new_u(&mut last_u, u64::MAX));
}

#[test]
fn each_update_goes_through_once() {
    let mut sent = SentIds::new();
    let through: Vec<u64> = [3_u64, 3, 2, 5, 4, 5, 6, 0, 0, u64::MAX, 3]
        .into_iter()
        .filter(|&u| sent.register(u))
        .collect();
    assert_eq!(through, vec![3, 2, 5, 4, 6, 0, u64::MAX]);
    assert_eq!(sent.ids.len(), 7);
}

#[test]
fn frames_are_forwarded_dropped_or_counted() {
    let mut processor = Processor::new();
    let mut health = ConnectionHealth::new("a".to_string());
    let mut sent = SentIds::new();
    let frame = processor.process(payload("{\"E\":100,\"u\":7}"), 130, &mut health, &mut sent);
    match frame {
        Frame::Forward { payload, u_value } => {
            assert_eq!(u_value, 7);
            assert!(payload.get("E").is_some());
        }
        _ => panic!("not forwarded"),
    }
    assert!(sent.ids.contains(&7));
    assert_eq!(health.latency_samples_ms, vec![30]);
    let frame = processor.process(payload("{\"E\":200,\"u\":\"7\"}"), 130, &mut health, &mut sent);
    assert!(matches!(frame, Frame::Stale));
    assert_eq!(health.latency_samples_ms, vec![30, 0]);
    let frame = processor.process(payload("{\"E\":100}"), 150, &mut health, &mut sent);
    assert!(matches!(frame, Frame::MissingU { report: None }));
    assert_eq!(health.latency_samples_ms, vec![30, 0, 50]);
    let frame = processor.process(payload("{\"u\":8}"), 150, &mut health, &mut sent);
    assert!(matches!(frame, Frame::Forward { u_value: 8, .. }));
    assert_eq!(health.latency_samples_ms, vec![30, 0, 50]);
    let frame = processor.process(None, 150, &mut health, &mut sent);
    assert!(matches!(frame, Frame::Dropped { report: None }));
    assert_eq!(processor.decode_fail_count, 1);
    assert_eq!(processor.missing_u_count, 1);
    assert_eq!(sent.ids.len(), 2);
}

#[test]
fn every_hundredth_loss_is_reported() {
    let mut processor = Processor::new();
    let mut health = ConnectionHealth::new("a".to_string());
    let mut sent = SentIds::new();
    let mut reports = Vec::new();
    for _ in 0..250 {
        match processor.process(None, 0, &mut health, &mut sent) {
            Frame::Dropped { report: Some(count) } => reports.push(count),
            Frame::Dropped { report: None } => {}
            _ => panic!("not dropped"),
        }
    }
    assert_eq!(reports, vec![100, 200]);
    let mut reports = Vec::new();
    for _ in 0..100 {
        match processor.process(payload("{}"), 0, &mut health, &mut sent) {
            Frame::MissingU { report: Some(count) } => reports.push(count),
            Frame::MissingU { report: None } => {}
            _ => panic!("not missing"),
        }
    }
    assert_eq!(reports, vec![100]);
}

#[test]
fn connections_that_share_the_ids_send_each_update_once() {
    let mut one = Processor::new();
    let mut two = Processor::new();
    let mut health = ConnectionHealth::new("a".to_string());
    let mut ids = SentIds::new();
    let mut sent = Vec::new();
    for u in [1_u64, 2, 3, 5, 4, 6] {
        for processor in [&mut one, &mut two] {
            let text = format!("{{\"u\":{}}}", u);
            if let Frame::Forward { u_value, .. } =
                processor.process(payload(&text), 0, &mut health, &mut ids)
            {
                sent.push(u_value);
            }
        }
    }
    assert_eq!(sent, vec![1, 2, 3, 5, 4, 6]);
}

#[test]
fn the_latest_frame_replaces_the_one_before() {
    let mut buffer = LatestBuffer::new();
    assert_eq!(buffer.take(), None);
    buffer.store(vec![1]);
    buffer.store(vec![2]);
    assert_eq!(buffer.take(), Some(vec![2]));
    assert_eq!(buffer.take(), None);
}

#[test]
fn a_processor_waits_and_stops() {
    assert_eq!(idle_action(ProcessorEvent::Empty { stop: false }), IdleAction::Wait);
    assert_eq!(idle_action(ProcessorEvent::Empty { stop: true }), IdleAction::Return);
    let changed = |closed, stop| ProcessorEvent::StopChanged { closed, stop };
    assert_eq!(idle_action(changed(false, false)), IdleAction::Next);
    assert_eq!(idle_action(changed(true, false)), IdleAction::Return);
    assert_eq!(idle_action(changed(false, true)), IdleAction::Return);
    assert_eq!(idle_action(ProcessorEvent::Notified), IdleAction::Next);
    let failed = |stop| ProcessorEvent::ForwardFailed { stop };
    assert_eq!(idle_action(failed(false)), IdleAction::ReportAndPause);
    assert_eq!(idle_action(failed(true)), IdleAction::Next);
}

fn reader(index: usize) -> Reader {
    Reader::new(&connection_plan("BTCUSDT")[index])
}

#[test]
fn a_reader_knows_its_target() {
    let raw = reader(0);
    assert_eq!(raw.stream_name, "btcusdt@bookTicker");
    assert_eq!(raw.uri, "wss://fstream.binance.com/public/ws/btcusdt@bookTicker");
    assert!(!raw.subscribes);
    assert_eq!(raw.message_id, 1);
    let combined = reader(4);
    assert_eq!(combined.uri, "wss://fstream.binance.com/stream");
    assert!(combined.subscribes);
}

#[test]
fn a_reader_connects_unless_stopped() {
    let mut reader = reader(0);
    let step = reader.step(ReaderEvent::StopRead { stop: false });
    assert!(matches!(step.action, ReaderAction::Connect));
    assert_eq!(step.notice, ReaderNotice::Connecting);
    let step = reader.step(ReaderEvent::StopRead { stop: true });
    assert!(matches!(step.action, ReaderAction::Return));
    assert_eq!(step.notice, ReaderNotice::Nothing);
}

#[test]
fn subscriptions_are_numbered_from_one() {
    let mut reader = reader(4);
    for id in 1..4 {
        let step = reader.step(ReaderEvent::Connected { now: 0 });
        match step.action {
            ReaderAction::Subscribe { text } => assert_eq!(
                text,
                format!(
                    "{{\"id\":{},\"method\":\"SUBSCRIBE\",\"params\":[\"btcusdt@bookTicker\"]}}",
                    id
                )
            ),
            _ => panic!("no subscription"),
        }
        assert_eq!(step.notice, ReaderNotice::Nothing);
    }
    let step = reader.step(ReaderEvent::Subscribed { now: 5 });
    assert!(matches!(step.action, ReaderAction::Receive));
    assert_eq!(step.notice, ReaderNotice::Connected);
    assert_eq!(reader.last_payload, 5);
    let step = reader.step(ReaderEvent::SubscribeFailed { stop: false });
    assert!(matches!(step.action, ReaderAction::Pause));
    assert_eq!(step.notice, ReaderNotice::Failed);
}

#[test]
fn a_reader_delivers_texts_and_binaries() {
    let mut reader = reader(0);
    let step = reader.step(ReaderEvent::Connected { now: 10 });
    assert!(matches!(step.action, ReaderAction::Receive));
    let message = WsMessage::Text("x".to_string());
    let step = reader.step(ReaderEvent::Received { message, now: 20 });
    assert!(matches!(step.action, ReaderAction::Deliver { raw } if raw == b"x"));
    assert_eq!(reader.last_payload, 20);
    let step = reader.step(ReaderEvent::Received { message: WsMessage::Other, now: 30 });
    assert!(matches!(step.action, ReaderAction::Receive));
    assert_eq!(reader.last_payload, 20);
}

#[test]
fn a_stalled_connection_is_given_up_after_five_seconds() {
    let mut reader = reader(0);
    reader.step(ReaderEvent::Connected { now: SECOND });
    let step = reader.step(ReaderEvent::TimedOut { now: 2 * SECOND - 1 });
    assert!(matches!(step.action, ReaderAction::Receive));
    assert_eq!(step.notice, ReaderNotice::Nothing);
    let step = reader.step(ReaderEvent::TimedOut { now: 2 * SECOND });
    assert!(matches!(step.action, ReaderAction::Receive));
    assert_eq!(step.notice, ReaderNotice::IdleProgress { idle_ns: SECOND });
    let step = reader.step(ReaderEvent::TimedOut { now: 3 * SECOND - 1 });
    assert_eq!(step.notice, ReaderNotice::Nothing);
    let step = reader.step(ReaderEvent::TimedOut { now: 6 * SECOND - 1 });
    assert!(matches!(step.action, ReaderAction::Receive));
    let step = reader.step(ReaderEvent::TimedOut { now: 6 * SECOND });
    assert!(matches!(step.action, ReaderAction::ReadStop));
    assert_eq!(step.notice, ReaderNotice::IdleReconnect);
}

#[test]
fn control_frames_do_not_keep_a_connection_alive() {
    let mut reader = reader(0);
    reader.step(ReaderEvent::Connected { now: 0 });
    let mut control = |now| {
        let step = reader.step(ReaderEvent::Received { message: WsMessage::Other, now });
        (matches!(step.action, ReaderAction::ReadStop), step.notice)
    };
    for half in 1..10 {
        let now = half * SECOND / 2;
        let notice = if half % 2 == 0 {
            ReaderNotice::IdleProgress { idle_ns: now }
        } else {
            ReaderNotice::Nothing
        };
        assert_eq!(control(now), (false, notice));
    }
    assert_eq!(control(5 * SECOND - 1), (false, ReaderNotice::Nothing));
    assert_eq!(control(5 * SECOND), (true, ReaderNotice::IdleReconnect));
    assert_eq!(control(6 * SECOND), (true, ReaderNotice::IdleReconnect));
}

#[test]
fn a_reader_heeds_stops_and_reconnects() {
    let mut reader = reader(0);
    let step = reader.step(ReaderEvent::StopChanged { closed: false, stop: false });
    assert!(matches!(step.action, ReaderAction::Receive));
    for (closed, stop) in [(true, false), (false, true), (true, true)] {
        let step = reader.step(ReaderEvent::StopChanged { closed, stop });
        assert!(matches!(step.action, ReaderAction::Return));
        let step = reader.step(ReaderEvent::ReconnectChanged { closed, stop });
        assert!(matches!(step.action, ReaderAction::Receive));
        assert_eq!(step.notice, ReaderNotice::Nothing);
    }
    let step = reader.step(ReaderEvent::ReconnectChanged { closed: false, stop: false });
    assert!(matches!(step.action, ReaderAction::ReadStop));
    assert_eq!(step.notice, ReaderNotice::ReconnectRequested);
}

#[test]
fn a_reader_pauses_after_failures() {
    let mut reader = reader(0);
    let events = |stop| {
        vec![
            (ReaderEvent::ConnectFailed { stop }, ReaderNotice::Failed),
            (ReaderEvent::ReceiveFailed { stop }, ReaderNotice::Broken),
            (ReaderEvent::Closed { stop }, ReaderNotice::Ended),
        ]
    };
    for (event, notice) in events(false) {
        let step = reader.step(event);
        assert!(matches!(step.action, ReaderAction::Pause));
        assert_eq!(step.notice, notice);
    }
    for (event, _) in events(true) {
        let step = reader.step(event);
        assert!(matches!(step.action, ReaderAction::ReadStop));
        assert_eq!(step.notice, ReaderNotice::Nothing);
    }
}

#[test]
fn reports_take_the_counters() {
    let hour = 3600 * SECOND;
    let mut counters = RelayCounters::new();
    for _ in 0..3 {
        counters.count_received();
    }
    counters.count_sent();
    let mut monitor = Monitor::new(10);
    let report = monitor.report(&mut counters, 70);
    assert_eq!((report.received, report.sent, report.elapsed_ns), (3, 1, 60));
    assert!(!report.check_connections);
    assert_eq!((counters.messages_received, counters.messages_sent), (0, 0));
    assert!(!monitor.report(&mut counters, hour + 9).check_connections);
    let report = monitor.report(&mut counters, hour + 10);
    assert!(report.check_connections);
    assert_eq!(report.elapsed_ns, 1);
    assert!(!monitor.report(&mut counters, 2 * hour + 9).check_connections);
    assert!(monitor.report(&mut counters, 2 * hour + 10).check_connections);
}

#[test]
fn counters_wrap_around() {
    let mut counters = RelayCounters { messages_received: u64::MAX, messages_sent: u64::MAX };
    counters.count_received();
    counters.count_sent();
    assert_eq!((counters.messages_received, counters.messages_sent), (0, 0));
}

#[test]
fn a_monitor_goes_on_until_stopped() {
    assert!(Monitor::goes_on(false, false));
    assert!(!Monitor::goes_on(true, false));
    assert!(!Monitor::goes_on(false, true));
}

#[test]
fn the_end_of_a_relay_is_reported() {
    let changed = |closed, stop| RunEvent::ShutdownChanged { closed, stop };
    assert_eq!(run_notice(changed(false, true)), RunNotice::ShutdownRequested);
    assert_eq!(run_notice(changed(true, false)), RunNotice::ShutdownRequested);
    assert_eq!(run_notice(changed(false, false)), RunNotice::Nothing);
    assert_eq!(run_notice(RunEvent::Interrupted), RunNotice::Interrupted);
    assert_eq!(run_notice(RunEvent::InterruptFailed), RunNotice::InterruptFailed);
}

#[test]
fn milliseconds_are_cut_and_truncated() {
    assert_eq!(unix_millis(Ok(1_999_999)), 1);
    assert_eq!(unix_millis(Ok(0)), 0);
    assert_eq!(unix_millis(Err("early".to_string())), 0);
    assert_eq!(unix_millis(Ok(((1_u128 << 64) + 3) * 1_000_000)), 3);
    assert_eq!(truncate(u128::MAX), u64::MAX);
    assert_eq!(truncate((1 << 64) + 5), 5);
    assert!(current_unix_millis() > 1_600_000_000_000);
}

#[test]
fn log_lines_have_a_time_a_level_and_a_message() {
    assert_eq!(
        render_line("2024-01-02 03:04:05.000006", "INFO", "hello"),
        "2024-01-02 03:04:05.000006 - __main__ - INFO - hello"
    );
    let line = info("started");
    assert!(!line.to_stderr);
    assert!(line.text.ends_with(" - __main__ - INFO - started"));
    let time = &line.text[..line.text.len() - " - __main__ - INFO - started".len()];
    assert_eq!(time.len(), 26);
    assert_eq!(&time[4..5], "-");
    assert_eq!(&time[10..11], " ");
    assert_eq!(&time[19..20], ".");
    assert!(time[..4].chars().all(|c| c.is_ascii_digit()));
    assert!(time[20..].chars().all(|c| c.is_ascii_digit()));
    let line = error("broke");
    assert!(line.to_stderr);
    assert!(line.text.ends_with(" - __main__ - ERROR - broke"));
    let line = log_line("DEBUG", "x", true);
    assert!(line.to_stderr && line.text.ends_with(" - DEBUG - x"));
}

#[test]
fn the_target_of_a_reader_is_fixed() {
    let mut reader = reader(4);
    let uri = reader.uri.clone();
    for now in 0..5 {
        reader.step(ReaderEvent::StopRead { stop: false });
        reader.step(ReaderEvent::Connected { now });
        reader.step(ReaderEvent::Subscribed { now });
        reader.step(ReaderEvent::Closed { stop: false });
    }
    assert_eq!(reader.uri, uri);
    assert_eq!(reader.stream_name, "btcusdt@bookTicker");
    assert_eq!(reader.message_id, 6);
}

#[test]
fn a_late_update_is_sent_too() {
    let mut processor = Processor::new();
    let mut health = ConnectionHealth::new("a".to_string());
    let mut ids = SentIds::new();
    ids.register(2);
    let mut sent = Vec::new();
    for u in [6_u64, 5, 2, 6, 5, 9, 1] {
        let text = format!("{{\"u\":{}}}", u);
        if let Frame::Forward { u_value, .. } =
            processor.process(payload(&text), 0, &mut health, &mut ids)
        {
            sent.push(u_value);
        }
    }
    assert_eq!(sent, vec![6, 5, 9, 1]);
}

#[test]
fn each_connection_asks_for_its_stream() {
    for index in 0..5 {
        let reader = reader(index);
        assert_eq!(reader.stream_name, "btcusdt@bookTicker");
        assert_eq!(reader.subscribes, index == 4);
        assert_eq!(reader.uri.ends_with("/btcusdt@bookTicker"), index != 4);
    }
}

#[test]
fn idle_reports_are_a_second_apart() {
    let mut reader = reader(0);
    reader.step(ReaderEvent::Connected { now: 0 });
    let mut reported = Vec::new();
    for tenth in 1..=45 {
        let now = tenth * SECOND / 10;
        let step = reader.step(ReaderEvent::TimedOut { now });
        assert!(matches!(step.action, ReaderAction::Receive));
        if step.notice == (ReaderNotice::IdleProgress { idle_ns: now }) {
            reported.push(tenth);
        }
    }
    assert_eq!(reported, vec![10, 20, 30, 40]);
}
