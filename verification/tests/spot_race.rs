use std::collections::HashMap;
use tokyo_relay::payload::WsMessage;
use tokyo_relay::race::{
    race_endpoints, race_stream_name, record, summarize, Endpoint, FirstSeen, Ratio, Stats,
};
use tokyo_relay::racer::{Racer, RacerAction, RacerEvent};

fn endpoints() -> Vec<Endpoint> {
    race_endpoints(&race_stream_name(" BTCUSDT "))
}

#[test]
fn four_endpoints_race() {
    let all = endpoints();
    let names: Vec<&str> = all.iter().map(|e| e.name).collect();
    assert_eq!(names, vec!["raw-9443", "raw-443", "data-vision", "combined-9443"]);
    let uris: Vec<&str> = all.iter().map(|e| e.uri.as_str()).collect();
    assert_eq!(
        uris,
        vec![
            "wss://stream.binance.com:9443/ws/btcusdt@bookTicker",
            "wss://stream.binance.com:443/ws/btcusdt@bookTicker",
            "wss://data-stream.binance.vision/ws/btcusdt@bookTicker",
            "wss://stream.binance.com:9443/stream",
        ]
    );
    let subscribes: Vec<bool> = all.iter().map(|e| e.use_subscribe).collect();
    assert_eq!(subscribes, vec![false, false, false, true]);
    assert!(all.iter().all(|e| e.stream_name == "btcusdt@bookTicker"));
    assert!(all.iter().all(|e| e.stats == Stats::default()));
}

fn first_arrival(first_seen: &FirstSeen, u: u64) -> Option<(u128, &'static str)> {
    first_seen.get(&u).map(|first| (first.at, first.endpoint))
}

#[test]
fn the_first_delivery_wins() {
    let mut all = endpoints();
    let mut first_seen: FirstSeen = HashMap::new();
    record(&mut all[0], &mut first_seen, 7, 1_000_000);
    record(&mut all[1], &mut first_seen, 7, 1_002_999);
    record(&mut all[1], &mut first_seen, 7, 1_001_000);
    record(&mut all[1], &mut first_seen, 8, 5);
    assert_eq!(all[0].stats, Stats { messages: 1, wins: 1, ..Stats::default() });
    assert_eq!(
        all[1].stats,
        Stats {
            messages: 3,
            wins: 1,
            losses: 2,
            lateness_sum_us: 3,
            lateness_max_us: 2,
            ..Stats::default()
        }
    );
    assert_eq!(first_seen.len(), 2);
    assert_eq!(first_arrival(&first_seen, 7), Some((1_000_000, "raw-9443")));
    assert_eq!(first_arrival(&first_seen, 8), Some((5, "raw-443")));
    assert_eq!(first_arrival(&first_seen, 9), None);
}

#[test]
fn an_endpoint_does_not_lose_to_itself() {
    let mut all = endpoints();
    let mut first_seen: FirstSeen = HashMap::new();
    record(&mut all[0], &mut first_seen, 7, 0);
    record(&mut all[0], &mut first_seen, 7, 5_000);
    assert_eq!(all[0].stats, Stats { messages: 2, wins: 1, ..Stats::default() });
    assert_eq!(first_arrival(&first_seen, 7), Some((0, "raw-9443")));
}

#[test]
fn a_repeat_behind_another_endpoint_is_a_loss() {
    let mut all = endpoints();
    let mut first_seen: FirstSeen = HashMap::new();
    record(&mut all[0], &mut first_seen, 7, 0);
    record(&mut all[0], &mut first_seen, 7, 2_000);
    record(&mut all[1], &mut first_seen, 7, 5_000);
    record(&mut all[0], &mut first_seen, 7, 9_000);
    assert_eq!(
        all[0].stats,
        Stats {
            messages: 3,
            wins: 1,
            losses: 1,
            lateness_sum_us: 9,
            lateness_max_us: 9,
            ..Stats::default()
        }
    );
    assert_eq!(all[1].stats.losses, 1);
    assert_eq!(first_arrival(&first_seen, 7), Some((0, "raw-9443")));
}

#[test]
fn one_endpoint_wins_each_update() {
    let mut all = endpoints();
    let mut first_seen: FirstSeen = HashMap::new();
    for u in 0_u64..40 {
        for step in 0_u64..4 {
            let endpoint = ((u * 3 + step) % 4) as usize;
            record(&mut all[endpoint], &mut first_seen, u, (u * 10_000 + step * 1_500) as u128);
        }
    }
    assert_eq!(first_seen.len(), 40);
    assert_eq!(all.iter().map(|e| e.stats.wins).sum::<u64>(), 40);
    for endpoint in &all {
        let stats = endpoint.stats;
        assert_eq!((stats.messages, stats.wins, stats.losses), (40, 10, 30));
        assert_eq!((stats.lateness_sum_us, stats.lateness_max_us), (80, 4));
    }
}

#[test]
fn an_earlier_arrival_recorded_later_is_kept() {
    let mut all = endpoints();
    let mut first_seen: FirstSeen = HashMap::new();
    record(&mut all[0], &mut first_seen, 7, 10_000);
    record(&mut all[1], &mut first_seen, 7, 0);
    assert_eq!(first_arrival(&first_seen, 7), Some((0, "raw-443")));
    assert_eq!(all[1].stats, Stats { messages: 1, losses: 1, ..Stats::default() });
    record(&mut all[2], &mut first_seen, 7, 12_000);
    assert_eq!(all[2].stats.lateness_sum_us, 12);
    record(&mut all[1], &mut first_seen, 7, 3_000);
    assert_eq!(
        all[1].stats,
        Stats {
            messages: 2,
            losses: 2,
            lateness_sum_us: 3,
            lateness_max_us: 3,
            ..Stats::default()
        }
    );
    record(&mut all[3], &mut first_seen, 7, 0);
    assert_eq!(first_arrival(&first_seen, 7), Some((0, "raw-443")));
}

#[test]
fn lateness_is_cut_to_sixty_four_bits() {
    let mut all = endpoints();
    let mut first_seen: FirstSeen = HashMap::new();
    record(&mut all[1], &mut first_seen, 1, 0);
    record(&mut all[0], &mut first_seen, 1, ((1_u128 << 64) + 9) * 1000);
    assert_eq!(all[0].stats.lateness_sum_us, 9);
    assert_eq!(all[0].stats.lateness_max_us, 9);
}

#[test]
fn counts_wrap_around() {
    let mut all = endpoints();
    let mut first_seen: FirstSeen = HashMap::new();
    all[0].stats.messages = u64::MAX;
    all[0].stats.wins = u64::MAX;
    all[0].stats.connects = u64::MAX;
    record(&mut all[0], &mut first_seen, 1, 0);
    all[0].count_connect();
    assert_eq!(all[0].stats, Stats::default());
}

#[test]
fn every_update_is_won_once() {
    let mut all = endpoints();
    let mut first_seen: FirstSeen = HashMap::new();
    let mut deliveries = 0;
    let mut own_repeats = [0_u64; 4];
    for round in 0_u64..50 {
        for endpoint in 0..4 {
            let u = round * 7 % 13 + endpoint as u64;
            let name = all[endpoint].name;
            if matches!(first_seen.get(&u), Some(first) if !first.by_several && first.endpoint == name)
            {
                own_repeats[endpoint] += 1;
            }
            record(&mut all[endpoint], &mut first_seen, u, (round * 1000) as u128);
            deliveries += 1;
        }
    }
    let wins: u64 = all.iter().map(|e| e.stats.wins).sum();
    let messages: u64 = all.iter().map(|e| e.stats.messages).sum();
    assert_eq!(wins, first_seen.len() as u64);
    assert_eq!(messages, deliveries);
    assert!(own_repeats[0] > 0 && own_repeats[3] > 0);
    for endpoint in 0..4 {
        let stats = all[endpoint].stats;
        assert_eq!(stats.messages, stats.wins + stats.losses + own_repeats[endpoint]);
    }
}

#[test]
fn a_summary_divides_by_no_zero() {
    let mut all = endpoints();
    let mut first_seen: FirstSeen = HashMap::new();
    let summary = summarize(&all, &first_seen, 0);
    assert_eq!(summary.total_updates, 0);
    assert_eq!(summary.rows.len(), 4);
    assert_eq!(summary.rows[0].name, "raw-9443");
    assert_eq!(summary.rows[0].rate, Ratio { numerator: 0, denominator: 1 });
    assert_eq!(summary.rows[0].win_share, Ratio { numerator: 0, denominator: 1 });
    assert_eq!(summary.rows[0].average_lateness_us, Ratio { numerator: 0, denominator: 1 });
    all[2].count_connect();
    record(&mut all[2], &mut first_seen, 1, 0);
    record(&mut all[3], &mut first_seen, 2, 0);
    record(&mut all[2], &mut first_seen, 2, 4_000);
    let summary = summarize(&all, &first_seen, 30);
    assert_eq!(summary.total_updates, 2);
    let row = &summary.rows[2];
    assert_eq!((row.connects, row.messages, row.wins, row.lateness_max_us), (1, 2, 1, 4));
    assert_eq!(row.rate, Ratio { numerator: 2, denominator: 30 });
    assert_eq!(row.win_share, Ratio { numerator: 1, denominator: 2 });
    assert_eq!(row.average_lateness_us, Ratio { numerator: 4, denominator: 1 });
}

#[test]
fn a_racer_stops_at_its_deadline() {
    let mut racer = Racer::new(&endpoints()[0], 100);
    assert!(matches!(racer.step(RacerEvent::ConnectDue { now: 99 }), RacerAction::Connect));
    assert!(matches!(racer.step(RacerEvent::ConnectDue { now: 100 }), RacerAction::Return));
    assert!(matches!(racer.step(RacerEvent::ReceiveDue { now: 99 }), RacerAction::Receive));
    assert!(matches!(racer.step(RacerEvent::ReceiveDue { now: 100 }), RacerAction::Return));
}

#[test]
fn a_racer_records_update_ids() {
    let mut racer = Racer::new(&endpoints()[0], 100);
    let message = WsMessage::Text("{\"u\":12}".to_string());
    let action = racer.step(RacerEvent::Received { message, now: 42 });
    assert!(matches!(action, RacerAction::Record { u: 12, now: 42 }));
    let action = racer.step(RacerEvent::Received { message: WsMessage::Other, now: 42 });
    assert!(matches!(action, RacerAction::CheckReceive));
    let mut combined = Racer::new(&endpoints()[3], 100);
    let message = WsMessage::Text("{\"data\":{\"u\":13}}".to_string());
    let action = combined.step(RacerEvent::Received { message, now: 1 });
    assert!(matches!(action, RacerAction::Record { u: 13, now: 1 }));
}

#[test]
fn a_racer_subscribes_on_the_combined_endpoint() {
    let mut raw = Racer::new(&endpoints()[0], 100);
    assert!(matches!(raw.step(RacerEvent::Connected), RacerAction::CheckReceive));
    let mut combined = Racer::new(&endpoints()[3], 100);
    for id in 1..3 {
        match combined.step(RacerEvent::Connected) {
            RacerAction::Subscribe { text } => assert_eq!(
                text,
                format!(
                    "{{\"id\":{},\"method\":\"SUBSCRIBE\",\"params\":[\"btcusdt@bookTicker\"]}}",
                    id
                )
            ),
            _ => panic!("no subscription"),
        }
    }
    assert!(matches!(combined.step(RacerEvent::Subscribed), RacerAction::CheckReceive));
}

#[test]
fn a_racer_pauses_after_failures() {
    let mut racer = Racer::new(&endpoints()[0], 100);
    let pause = |action| match action {
        RacerAction::Pause { millis } => millis,
        _ => panic!("no pause"),
    };
    assert_eq!(pause(racer.step(RacerEvent::ConnectFailed)), 300);
    assert_eq!(pause(racer.step(RacerEvent::SubscribeFailed)), 200);
    assert_eq!(pause(racer.step(RacerEvent::Broken)), 200);
    assert!(matches!(racer.step(RacerEvent::TimedOut), RacerAction::CheckReceive));
}
