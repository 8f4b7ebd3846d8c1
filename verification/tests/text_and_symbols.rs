use tokyo_relay::config::{find_port, load_udp_port, relay_symbol, udp_target, ConfigError};
use tokyo_relay::endpoints::{
    build_uri, connection_plan, subscribe_message, ConnectionRelay, ENDPOINT_LAYOUT,
    NEW_BINANCE_URI, OLD_BINANCE_URI, STREAM_BINANCE_URI,
};
use tokyo_relay::symbol::{normalize_symbol, stream_name};
use tokyo_relay::text::{characters, decimal_text, parse_u64, same_text, trim};

#[test]
fn decimal_text_writes_what_std_writes() {
    for n in [0_u64, 7, 10, 42, 100, 65_535, 1_000_000, u64::MAX] {
        assert_eq!(decimal_text(n), format!("{}", n));
    }
}

#[test]
fn parse_u64_reads_what_std_reads() {
    let texts = [
        "0", "7", "007", "+7", "18446744073709551615", "+18446744073709551615",
        "18446744073709551616", "99999999999999999999999", "", "+", "-", "-0", "-1", " 1", "1 ",
        "1_000", "0x10", "1.0", "++1", "12a", "\u{0661}", "00000000000000000000000000000001",
    ];
    for text in texts {
        assert_eq!(parse_u64(text), text.parse::<u64>().ok(), "{:?}", text);
    }
}

#[test]
fn parse_u64_gives_exact_values() {
    assert_eq!(parse_u64("1720000000123"), Some(1_720_000_000_123));
    assert_eq!(parse_u64("+5"), Some(5));
    assert_eq!(parse_u64("18446744073709551615"), Some(u64::MAX));
    assert_eq!(parse_u64("18446744073709551616"), None);
    assert_eq!(parse_u64("five"), None);
}

#[test]
fn decimal_round_trip() {
    for n in [0_u64, 9, 10, 12_345, u64::MAX - 1, u64::MAX] {
        assert_eq!(parse_u64(&decimal_text(n)), Some(n));
    }
}

#[test]
fn trim_removes_what_std_removes() {
    let texts = [
        "", " ", "\t\n\u{b}\u{c}\r ", "abc", " abc", "abc ", "  a b  ", "\u{a0}abc\u{3000}",
        "\u{2003}x\u{2028}", "\u{200b}x", "\u{85}x", "\u{1f}x\u{1c}", "x\u{0}",
    ];
    for text in texts {
        assert_eq!(trim(text), text.trim(), "{:?}", text);
    }
}

#[test]
fn every_ascii_character_is_trimmed_as_std_does() {
    for byte in 0_u8..128 {
        let text = format!("{}x{}", byte as char, byte as char);
        assert_eq!(trim(&text), text.trim(), "{:?}", text);
    }
}

#[test]
fn same_text_compares_characters() {
    assert!(same_text("", ""));
    assert!(same_text("stream", "stream"));
    assert!(same_text("日本", "日本"));
    assert!(!same_text("stream", "strea"));
    assert!(!same_text("new", "old"));
    assert!(!same_text("日本", "日木"));
}

#[test]
fn characters_come_in_order() {
    assert_eq!(characters("aé日"), vec!['a', 'é', '日']);
    assert!(characters("").is_empty());
}

#[test]
fn symbols_are_trimmed_and_upper_case() {
    assert_eq!(normalize_symbol(" btcUsdt\n"), "BTCUSDT");
    assert_eq!(normalize_symbol("ETHUSDT"), "ETHUSDT");
    assert_eq!(normalize_symbol(" \t "), "");
    assert_eq!(normalize_symbol("straße"), "STRASSE");
}

#[test]
fn every_ascii_character_changes_case_as_stated() {
    for byte in 33_u8..127 {
        let text = format!("{}", byte as char);
        let upper = format!("{}", byte.to_ascii_uppercase() as char);
        let lower = format!("{}@bookTicker", byte.to_ascii_lowercase() as char);
        assert_eq!(normalize_symbol(&text), upper);
        assert_eq!(stream_name(&text), lower);
    }
}

#[test]
fn stream_names_are_lower_case() {
    assert_eq!(stream_name("BTCUSDT"), "btcusdt@bookTicker");
    assert_eq!(stream_name("ÄÖ"), "äö@bookTicker");
}

#[test]
fn connections_are_named_by_endpoint_number_and_symbol() {
    let connection = ConnectionRelay {
        symbol: "BTCUSDT".to_string(),
        endpoint_name: "new",
        base_uri: NEW_BINANCE_URI,
        connection_id: 12,
    };
    assert_eq!(connection.name(), "new-12-BTCUSDT");
}

#[test]
fn uris_carry_the_stream_except_on_the_combined_endpoint() {
    assert_eq!(
        build_uri(OLD_BINANCE_URI, "btcusdt@bookTicker"),
        "wss://fstream.binance.com/ws/btcusdt@bookTicker"
    );
    assert_eq!(
        build_uri(NEW_BINANCE_URI, "btcusdt@bookTicker"),
        "wss://fstream.binance.com/public/ws/btcusdt@bookTicker"
    );
    assert_eq!(
        build_uri(STREAM_BINANCE_URI, "btcusdt@bookTicker"),
        "wss://fstream.binance.com/stream"
    );
}

#[test]
fn a_relay_opens_five_connections() {
    let plan = connection_plan("BTCUSDT");
    let names: Vec<String> = plan.iter().map(|c| c.name()).collect();
    assert_eq!(
        names,
        vec![
            "new-1-BTCUSDT",
            "new-2-BTCUSDT",
            "new-3-BTCUSDT",
            "old-1-BTCUSDT",
            "stream-1-BTCUSDT",
        ]
    );
    let uris: Vec<&str> = plan.iter().map(|c| c.base_uri).collect();
    assert_eq!(
        uris,
        vec![
            NEW_BINANCE_URI,
            NEW_BINANCE_URI,
            NEW_BINANCE_URI,
            OLD_BINANCE_URI,
            STREAM_BINANCE_URI,
        ]
    );
    let counted: usize = ENDPOINT_LAYOUT.iter().map(|e| e.2).sum();
    assert_eq!(plan.len(), counted);
}

#[test]
fn subscriptions_are_compact_json() {
    assert_eq!(
        subscribe_message("btcusdt@bookTicker", 1),
        "{\"id\":1,\"method\":\"SUBSCRIBE\",\"params\":[\"btcusdt@bookTicker\"]}"
    );
    assert_eq!(
        subscribe_message("a\"b", u64::MAX),
        "{\"id\":18446744073709551615,\"method\":\"SUBSCRIBE\",\"params\":[\"a\\\"b\"]}"
    );
}

#[test]
fn the_symbol_of_a_relay_must_not_be_empty() {
    assert!(matches!(relay_symbol(" btcusdt "), Ok(symbol) if symbol == "BTCUSDT"));
    match relay_symbol("  \n") {
        Err(error) => {
            assert!(matches!(error, ConfigError::EmptySymbol));
            assert_eq!(error.message(), "symbol must not be empty");
        }
        Ok(_) => panic!("an empty symbol was accepted"),
    }
}

#[test]
fn ports_are_found_by_normalized_symbol() {
    let raw = b"{\"BTCUSDT\": 9125, \" ethusdt \": 9126}";
    assert!(matches!(load_udp_port(raw, "symbol_ports.json", "BTCUSDT"), Ok(9125)));
    assert!(matches!(load_udp_port(raw, "symbol_ports.json", "ETHUSDT"), Ok(9126)));
}

#[test]
fn a_key_that_comes_twice_has_its_last_port() {
    let raw = b"{\"BTCUSDT\": 1, \"BTCUSDT\": 2}";
    assert!(matches!(load_udp_port(raw, "p", "BTCUSDT"), Ok(2)));
}

#[test]
fn one_of_two_keys_for_a_symbol_is_taken() {
    let raw = b"{\"BTCUSDT\": 1, \"btcusdt\": 2}";
    assert!(matches!(load_udp_port(raw, "p", "BTCUSDT"), Ok(1) | Ok(2)));
}

#[test]
fn a_missing_symbol_is_not_found() {
    match load_udp_port(b"{\"BTCUSDT\": 9125}", "symbol_ports.json", "XRPUSDT") {
        Err(error) => {
            assert!(matches!(error, ConfigError::NotFound(_)));
            assert_eq!(error.message(), "symbol XRPUSDT is missing from symbol_ports.json");
        }
        Ok(_) => panic!("a port was made up"),
    }
    assert!(matches!(load_udp_port(b"{}", "p", "BTCUSDT"), Err(ConfigError::NotFound(_))));
}

#[test]
fn an_unreadable_configuration_is_invalid() {
    for raw in ["", "[]", "{\"BTCUSDT\": 65536}", "{\"BTCUSDT\": \"9125\"}", "{} {}"] {
        match load_udp_port(raw.as_bytes(), "ports", "BTCUSDT") {
            Err(error) => {
                assert!(matches!(error, ConfigError::InvalidData(_)), "{:?}", raw);
                assert!(error.message().starts_with("failed to parse ports: "));
                assert!(error.message().len() > "failed to parse ports: ".len());
            }
            Ok(_) => panic!("a port was made up"),
        }
    }
}

#[test]
fn the_first_entry_for_a_symbol_counts() {
    let entries = vec![
        ("ETHUSDT".to_string(), 1),
        (" btcusdt".to_string(), 2),
        ("BTCUSDT".to_string(), 3),
    ];
    assert_eq!(find_port(&entries, "BTCUSDT"), Some(2));
    assert_eq!(find_port(&entries, "btcusdt"), None);
    assert_eq!(find_port(&Vec::new(), "BTCUSDT"), None);
}

#[test]
fn packets_go_to_address_and_port() {
    assert_eq!(udp_target("127.0.0.1", 9125), "127.0.0.1:9125");
    assert_eq!(udp_target("10.0.2.14", 0), "10.0.2.14:0");
}

#[test]
fn only_quotes_backslashes_and_control_characters_are_escaped() {
    assert_eq!(
        subscribe_message("\u{7f}/\u{e9}\u{20ac} '<", 20),
        "{\"id\":20,\"method\":\"SUBSCRIBE\",\"params\":[\"\u{7f}/\u{e9}\u{20ac} '<\"]}"
    );
    assert_eq!(
        subscribe_message("a\\\u{1}", 3),
        "{\"id\":3,\"method\":\"SUBSCRIBE\",\"params\":[\"a\\\\\\u0001\"]}"
    );
}

#[test]
fn case_and_whitespace_do_not_matter() {
    for symbol in [" btcusdt", "BTCUSDT\n", "\tbTcUsDt ", "", " 1000shib_x "] {
        let normalized = normalize_symbol(symbol);
        assert_eq!(normalize_symbol(&normalized), normalized);
        assert_eq!(stream_name(&normalized), stream_name(trim(symbol)));
    }
    assert_eq!(stream_name(&normalize_symbol(" bTc ")), "btc@bookTicker");
}
