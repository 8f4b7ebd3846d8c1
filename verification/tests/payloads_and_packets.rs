use tokyo_relay::dedup::SentIds;
use tokyo_relay::forward::{
    conclude_forward, finish_forward, forward_udp, prepare_forward, Converted, Pending,
};
use tokyo_relay::json::{json_to_f64, json_to_u64, parse_json, FloatSource, Json};
use tokyo_relay::latency::ConnectionHealth;
use tokyo_relay::monitor::RelayCounters;
use tokyo_relay::packet::{encode_packet, Quote, PACKET_SIZE};
use tokyo_relay::payload::{
    decode_payload, extract_update_id, find_update_id, message_to_raw_bytes, select_payload,
    WsMessage,
};
use tokyo_relay::processor::{Frame, Processor};

fn document(text: &str) -> Json {
    match parse_json(text.as_bytes()) {
        Some(json) => json,
        None => panic!("no JSON: {}", text),
    }
}

fn number_at(packet: &[u8], offset: usize) -> u64 {
    let mut bytes = [0_u8; 8];
    bytes.copy_from_slice(&packet[offset..offset + 8]);
    u64::from_le_bytes(bytes)
}

const TICKER: &str = "{\"e\":\"bookTicker\",\"u\":400900217,\"s\":\"BTCUSDT\",\"b\":\"25.35190000\",\"B\":\"31.21000000\",\"a\":\"25.36520000\",\"A\":\"40.66000000\",\"T\":1568014460891,\"E\":1568014460893}";

fn bits_of(source: &Option<FloatSource>) -> Option<u64> {
    match source {
        Some(FloatSource::Bits(bits)) => Some(*bits),
        Some(FloatSource::Unsigned(n)) => Some((*n as f64).to_bits()),
        Some(FloatSource::Signed(n)) => Some((*n as f64).to_bits()),
        Some(FloatSource::Text(text)) => text.parse::<f64>().ok().map(f64::to_bits),
        None => None,
    }
}

fn converted(pending: &Pending) -> Converted {
    Converted {
        bid_price: bits_of(&pending.bid_price),
        bid_size: bits_of(&pending.bid_size),
        ask_price: bits_of(&pending.ask_price),
        ask_size: bits_of(&pending.ask_size),
    }
}

fn complaint(symbol: &str, text: &str) -> String {
    match prepare_forward(symbol, &document(text)) {
        Err(message) => message,
        Ok(pending) => {
            match finish_forward(symbol, &pending, &converted(&pending), Ok(1), 1) {
                Err(message) => message,
                Ok(_) => panic!("no complaint"),
            }
        }
    }
}

#[test]
fn documents_are_read_as_they_stand() {
    assert!(matches!(document("null"), Json::Null));
    assert!(matches!(document(" true "), Json::Bool(true)));
    assert!(matches!(document("\"a\\u00e9\""), Json::Text(text) if text == "aé"));
    match document("[1,[],{\"k\":null}]") {
        Json::Array(items) => {
            assert_eq!(items.len(), 3);
            assert!(matches!(&items[1], Json::Array(inner) if inner.is_empty()));
            assert!(matches!(items[2].get("k"), Some(Json::Null)));
        }
        _ => panic!("no array"),
    }
    for text in ["", "{", "{\"a\":1} x", "nul", "{'a':1}", "\u{1}"] {
        assert!(parse_json(text.as_bytes()).is_none(), "{:?}", text);
    }
    assert!(parse_json(&[0xff, 0xfe]).is_none());
}

#[test]
fn numbers_keep_their_readings() {
    match document("7") {
        Json::Number { unsigned, signed, float_bits } => {
            assert_eq!(unsigned, Some(7));
            assert_eq!(signed, Some(7));
            assert_eq!(float_bits, Some(7.0_f64.to_bits()));
        }
        _ => panic!("no number"),
    }
    match document("-7") {
        Json::Number { unsigned, signed, float_bits } => {
            assert_eq!(unsigned, None);
            assert_eq!(signed, Some(-7));
            assert_eq!(float_bits, Some((-7.0_f64).to_bits()));
        }
        _ => panic!("no number"),
    }
    match document("0.5") {
        Json::Number { unsigned, signed, float_bits } => {
            assert_eq!(unsigned, None);
            assert_eq!(signed, None);
            assert_eq!(float_bits, Some(0.5_f64.to_bits()));
        }
        _ => panic!("no number"),
    }
    match document("18446744073709551615") {
        Json::Number { unsigned, signed, .. } => {
            assert_eq!(unsigned, Some(u64::MAX));
            assert_eq!(signed, None);
        }
        _ => panic!("no number"),
    }
}

#[test]
fn members_are_found_in_objects_only() {
    let json = document("{\"b\":1,\"a\":\"x\",\"data\":{\"u\":2}}");
    assert!(matches!(json.get("a"), Some(Json::Text(text)) if text == "x"));
    assert!(json.get("c").is_none());
    assert!(document("[1]").get("0").is_none());
    assert!(document("\"a\"").get("a").is_none());
    assert_eq!(json.get("a").and_then(Json::as_str), Some("x"));
    assert_eq!(json.get("b").and_then(Json::as_str), None);
    let data = document("{\"data\":{\"u\":2},\"z\":0}").into_member("data");
    assert_eq!(data.and_then(|d| d.get("u").and_then(json_to_u64)), Some(2));
    assert!(document("{}").into_member("data").is_none());
    assert!(document("3").into_member("data").is_none());
}

#[test]
fn unsigned_integers_are_read_off_numbers_and_texts() {
    assert_eq!(json_to_u64(&document("12")), Some(12));
    assert_eq!(json_to_u64(&document("\"12\"")), Some(12));
    assert_eq!(json_to_u64(&document("\"+12\"")), Some(12));
    assert_eq!(json_to_u64(&document("-12")), None);
    assert_eq!(json_to_u64(&document("1.5")), None);
    assert_eq!(json_to_u64(&document("12.0")), None);
    assert_eq!(json_to_u64(&document("\"x\"")), None);
    assert_eq!(json_to_u64(&document("null")), None);
    let signed_only = Json::Number { unsigned: None, signed: Some(3), float_bits: None };
    assert_eq!(json_to_u64(&signed_only), Some(3));
}

#[test]
fn floats_have_one_source_each() {
    assert!(matches!(
        json_to_f64(&document("2")),
        Some(FloatSource::Bits(bits)) if bits == 2.0_f64.to_bits()
    ));
    assert!(matches!(
        json_to_f64(&document("\"2.5\"")),
        Some(FloatSource::Text(text)) if text == "2.5"
    ));
    assert!(json_to_f64(&document("true")).is_none());
    let unsigned = Json::Number { unsigned: Some(4), signed: Some(4), float_bits: None };
    assert!(matches!(json_to_f64(&unsigned), Some(FloatSource::Unsigned(4))));
    let signed = Json::Number { unsigned: None, signed: Some(-4), float_bits: None };
    assert!(matches!(json_to_f64(&signed), Some(FloatSource::Signed(-4))));
    let nothing = Json::Number { unsigned: None, signed: None, float_bits: None };
    assert!(json_to_f64(&nothing).is_none());
}

#[test]
fn messages_carry_bytes_if_text_or_binary() {
    assert_eq!(
        message_to_raw_bytes(WsMessage::Text("aé".to_string())),
        Some("aé".as_bytes().to_vec())
    );
    assert_eq!(message_to_raw_bytes(WsMessage::Binary(vec![0, 255])), Some(vec![0, 255]));
    assert_eq!(message_to_raw_bytes(WsMessage::Other), None);
}

#[test]
fn payloads_depend_on_the_endpoint() {
    let combined = "{\"stream\":\"btcusdt@bookTicker\",\"data\":{\"u\":5}}";
    let payload = decode_payload(combined.as_bytes(), "stream");
    assert_eq!(payload.and_then(|p| p.get("u").and_then(json_to_u64)), Some(5));
    let whole = decode_payload(combined.as_bytes(), "new");
    assert!(whole.map(|p| p.get("data").is_some()).unwrap_or(false));
    assert!(decode_payload(b"{\"result\":null,\"id\":1}", "stream").is_none());
    assert!(decode_payload(b"[1]", "new").is_none());
    assert!(decode_payload(b"not json", "new").is_none());
    assert!(decode_payload(b"not json", "stream").is_none());
    assert!(matches!(decode_payload(b"{\"data\":7}", "stream"), Some(Json::Number { .. })));
    assert!(select_payload(document("{}"), "old").is_some());
    assert!(select_payload(document("1"), "old").is_none());
}

#[test]
fn update_ids_are_read_off_messages() {
    let text = |t: &str| WsMessage::Text(t.to_string());
    assert_eq!(extract_update_id(text("{\"u\":9}"), false), Some(9));
    assert_eq!(extract_update_id(text("{\"u\":\"9\"}"), false), Some(9));
    assert_eq!(extract_update_id(text("{\"u\":-9}"), false), None);
    assert_eq!(extract_update_id(text("{\"data\":{\"u\":9}}"), true), Some(9));
    assert_eq!(extract_update_id(text("{\"u\":9}"), true), None);
    assert_eq!(extract_update_id(text("{\"data\":{\"u\":9}}"), false), None);
    assert_eq!(extract_update_id(text("nonsense"), false), None);
    assert_eq!(extract_update_id(WsMessage::Binary(b"{\"u\":3}".to_vec()), false), Some(3));
    assert_eq!(extract_update_id(WsMessage::Other, false), None);
    let signed_only = Json::Object(vec![(
        "u".to_string(),
        Json::Number { unsigned: None, signed: Some(3), float_bits: None },
    )]);
    assert_eq!(find_update_id(&signed_only, false), None);
}

#[test]
fn packets_have_a_fixed_layout() {
    let quote = Quote {
        exchange_ts: 1,
        server_clock_ns: 2,
        bid_price: 3.5_f64.to_bits(),
        bid_size: 4,
        ask_price: 5,
        ask_size: 6,
        u_value: 0x0102_0304_0506_0708,
    };
    let packet = encode_packet("BTCUSDT", &quote);
    assert_eq!(PACKET_SIZE, 72);
    assert_eq!(packet.len(), 72);
    assert_eq!(&packet[..7], b"BTCUSDT");
    assert_eq!(&packet[7..16], &[0_u8; 9]);
    assert_eq!(&packet[16..24], &1_u64.to_le_bytes());
    assert_eq!(&packet[24..32], &2_u64.to_le_bytes());
    assert_eq!(&packet[32..40], &3.5_f64.to_le_bytes());
    assert_eq!(number_at(&packet, 40), 4);
    assert_eq!(number_at(&packet, 48), 5);
    assert_eq!(number_at(&packet, 56), 6);
    assert_eq!(&packet[64..72], &[8, 7, 6, 5, 4, 3, 2, 1]);
}

#[test]
fn long_symbols_are_cut_at_sixteen_bytes() {
    let quote = Quote {
        exchange_ts: 0,
        server_clock_ns: 0,
        bid_price: 0,
        bid_size: 0,
        ask_price: 0,
        ask_size: 0,
        u_value: 0,
    };
    let packet = encode_packet("1000000MOGUSDT_PERP", &quote);
    assert_eq!(&packet[..16], b"1000000MOGUSDT_P");
    let packet = encode_packet("ABCDEFGHIJKLMNOé", &quote);
    assert_eq!(&packet[..15], b"ABCDEFGHIJKLMNO");
    assert_eq!(packet[15], 0xc3);
    let packet = encode_packet("", &quote);
    assert_eq!(packet, vec![0_u8; 72]);
}

#[test]
fn a_ticker_becomes_a_packet() {
    let payload = document(TICKER);
    let pending = match prepare_forward("BTCUSDT", &payload) {
        Ok(pending) => pending,
        Err(message) => panic!("{}", message),
    };
    assert_eq!(pending.exchange_ts, 1_568_014_460_893);
    let reading = Ok((1_u128 << 64) + 77);
    let packet = match finish_forward("BTCUSDT", &pending, &converted(&pending), reading, 400_900_217)
    {
        Ok(packet) => packet,
        Err(message) => panic!("{}", message),
    };
    assert_eq!(&packet[..16], b"BTCUSDT\0\0\0\0\0\0\0\0\0");
    assert_eq!(number_at(&packet, 16), 1_568_014_460_893);
    assert_eq!(number_at(&packet, 24), 77);
    assert_eq!(&packet[32..40], &25.3519_f64.to_le_bytes());
    assert_eq!(&packet[40..48], &31.21_f64.to_le_bytes());
    assert_eq!(&packet[48..56], &25.3652_f64.to_le_bytes());
    assert_eq!(&packet[56..64], &40.66_f64.to_le_bytes());
    assert_eq!(number_at(&packet, 64), 400_900_217);
}

#[test]
fn the_present_time_goes_into_the_packet() {
    let payload = document(TICKER);
    let pending = match prepare_forward("BTCUSDT", &payload) {
        Ok(pending) => pending,
        Err(message) => panic!("{}", message),
    };
    match forward_udp("BTCUSDT", &pending, &converted(&pending), 1) {
        Ok(packet) => assert!(number_at(&packet, 24) > 1_600_000_000_000_000_000),
        Err(message) => panic!("{}", message),
    }
}

#[test]
fn numbers_serve_as_prices_too() {
    let payload = document(
        "{\"s\":\"btcusdt\",\"E\":\"5\",\"b\":1,\"B\":2.5,\"a\":-3,\"A\":\"4\",\"u\":6}",
    );
    let pending = match prepare_forward("BTCUSDT", &payload) {
        Ok(pending) => pending,
        Err(message) => panic!("{}", message),
    };
    let none = Converted { bid_price: None, bid_size: None, ask_price: None, ask_size: Some(9) };
    match finish_forward("BTCUSDT", &pending, &none, Ok(0), 6) {
        Ok(packet) => {
            assert_eq!(number_at(&packet, 32), 1.0_f64.to_bits());
            assert_eq!(number_at(&packet, 40), 2.5_f64.to_bits());
            assert_eq!(number_at(&packet, 48), (-3.0_f64).to_bits());
            assert_eq!(number_at(&packet, 56), 9);
        }
        Err(message) => panic!("{}", message),
    }
}

#[test]
fn the_first_complaint_is_given() {
    assert_eq!(complaint("BTCUSDT", "{}"), "missing symbol");
    assert_eq!(complaint("BTCUSDT", "{\"s\":1}"), "missing symbol");
    assert_eq!(complaint("BTCUSDT", "[]"), "missing symbol");
    assert_eq!(
        complaint("BTCUSDT", "{\"s\":\" ethusdt\"}"),
        "unexpected symbol ETHUSDT on BTCUSDT relay"
    );
    assert_eq!(complaint("BTCUSDT", "{\"s\":\"BTCUSDT\"}"), "missing exchange timestamp");
    assert_eq!(
        complaint("BTCUSDT", "{\"s\":\"BTCUSDT\",\"E\":-1}"),
        "missing exchange timestamp"
    );
    assert_eq!(complaint("BTCUSDT", "{\"s\":\"BTCUSDT\",\"E\":1}"), "missing bid price");
    assert_eq!(
        complaint("BTCUSDT", "{\"s\":\"BTCUSDT\",\"E\":1,\"b\":\"x\",\"B\":\"1\"}"),
        "missing bid price"
    );
    assert_eq!(
        complaint("BTCUSDT", "{\"s\":\"BTCUSDT\",\"E\":1,\"b\":\"1\"}"),
        "missing bid size"
    );
    assert_eq!(
        complaint("BTCUSDT", "{\"s\":\"BTCUSDT\",\"E\":1,\"b\":1,\"B\":1,\"a\":null}"),
        "missing ask price"
    );
    assert_eq!(
        complaint("BTCUSDT", "{\"s\":\"BTCUSDT\",\"E\":1,\"b\":1,\"B\":1,\"a\":1}"),
        "missing ask size"
    );
}

#[test]
fn a_clock_error_is_the_last_complaint() {
    let payload = document(TICKER);
    let pending = match prepare_forward("BTCUSDT", &payload) {
        Ok(pending) => pending,
        Err(message) => panic!("{}", message),
    };
    let failed = Err("second time provided was later than self".to_string());
    match finish_forward("BTCUSDT", &pending, &converted(&pending), failed, 1) {
        Err(message) => assert_eq!(message, "second time provided was later than self"),
        Ok(_) => panic!("no complaint"),
    }
    let none = Converted { bid_price: None, bid_size: None, ask_price: None, ask_size: None };
    match finish_forward("BTCUSDT", &pending, &none, Err("clock".to_string()), 1) {
        Err(message) => assert_eq!(message, "missing bid price"),
        Ok(_) => panic!("no complaint"),
    }
}

#[test]
fn packets_tell_symbols_apart() {
    let quote = Quote {
        exchange_ts: 1,
        server_clock_ns: 2,
        bid_price: 3,
        bid_size: 4,
        ask_price: 5,
        ask_size: 6,
        u_value: 7,
    };
    assert_ne!(encode_packet("BTCUSDT", &quote), encode_packet("BTCUSD", &quote));
    assert_ne!(encode_packet("ABCDEFGHIJKLMNOP", &quote), encode_packet("ABCDEFGHIJKLMNOQ", &quote));
    let other = Quote { u_value: 8, ..quote };
    assert_ne!(encode_packet("BTCUSDT", &quote), encode_packet("BTCUSDT", &other));
}

#[test]
fn the_packet_of_a_frame_carries_its_update_id() {
    let mut processor = Processor::new();
    let mut health = ConnectionHealth::new("new-1-BTCUSDT".to_string());
    let mut sent = SentIds::new();
    let payload = decode_payload(TICKER.as_bytes(), "new");
    let (payload, u_value) =
        match processor.process(payload, 1_568_014_460_900, &mut health, &mut sent) {
            Frame::Forward { payload, u_value } => (payload, u_value),
            _ => panic!("the update is new"),
        };
    let pending = match prepare_forward("BTCUSDT", &payload) {
        Ok(pending) => pending,
        Err(message) => panic!("{}", message),
    };
    let packet = finish_forward("BTCUSDT", &pending, &converted(&pending), Ok(5), u_value);
    assert_eq!(packet.map(|packet| number_at(&packet, 64)), Ok(400_900_217));
    assert!(sent.ids.contains(&400_900_217));
    assert_eq!(health.latency_samples_ms, vec![7]);
    let again = decode_payload(TICKER.as_bytes(), "old");
    assert!(matches!(processor.process(again, 0, &mut health, &mut sent), Frame::Stale));
    assert_eq!(health.latency_samples_ms, vec![7, 0]);
}

#[test]
fn only_packets_that_were_sent_are_counted() {
    let mut counters = RelayCounters::new();
    counters.count_received();
    let broken = || Err("broken pipe".to_string());
    let outcomes = [Ok(()), broken(), Err("missing symbol".to_string()), Ok(()), broken(), Ok(())];
    for outcome in outcomes {
        assert_eq!(conclude_forward(&mut counters, outcome.clone()), outcome);
    }
    assert_eq!(counters.messages_sent, 3);
    assert_eq!(counters.messages_received, 1);
    counters.messages_sent = u64::MAX;
    assert_eq!(conclude_forward(&mut counters, Ok(())), Ok(()));
    assert_eq!(counters.messages_sent, 0);
}
