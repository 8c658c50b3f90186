use trading_engine::errors::AppError;
use trading_engine::events::{decode_symbol, encode_symbol};
use trading_engine::feed::{decode_tick, encode_tick, BinanceFeed, IBFeed, Mt5Feed, NoopFeed, TickFrame};

#[test]
fn tick_frame_layout() {
    let tick = TickFrame { price_bits: 1.0850_f64.to_bits(), timestamp: 1_700_000_000_000_000_000 };
    let bytes = encode_tick(tick);
    assert_eq!(&bytes[0..8], &1.0850_f64.to_le_bytes());
    assert_eq!(&bytes[8..16], &1_700_000_000_000_000_000i64.to_le_bytes());
    assert_eq!(decode_tick(&bytes), tick);
}

#[test]
fn tick_frame_negative_timestamp_round_trip() {
    let tick = TickFrame { price_bits: 0x0102_0304_0506_0708, timestamp: -5 };
    let bytes = encode_tick(tick);
    assert_eq!(bytes[0], 0x08);
    assert_eq!(bytes[7], 0x01);
    assert_eq!(bytes[8], 0xfb);
    assert_eq!(bytes[15], 0xff);
    assert_eq!(decode_tick(&bytes), tick);
}

#[test]
fn symbol_field_round_trip() {
    let (field, len) = encode_symbol("EURUSD");
    assert_eq!(len, 6);
    assert_eq!(&field[..6], b"EURUSD");
    assert_eq!(&field[6..], &[0u8; 10]);
    assert_eq!(decode_symbol(&field, len), "EURUSD");
}

#[test]
fn symbol_field_truncates_long_symbols() {
    let (field, len) = encode_symbol("ABCDEFGHIJKLMNOPQRST");
    assert_eq!(len, 16);
    assert_eq!(decode_symbol(&field, len), "ABCDEFGHIJKLMNOP");
}

#[test]
fn symbol_field_cut_inside_a_character_reads_empty() {
    // 15 ASCII bytes, then a two-byte character cut after its first byte.
    let (field, len) = encode_symbol("ABCDEFGHIJKLMNOé");
    assert_eq!(len, 16);
    assert_eq!(decode_symbol(&field, len), "");
    assert_eq!(decode_symbol(&field, 15), "ABCDEFGHIJKLMNO");
    assert_eq!(decode_symbol(&field, 0), "");
}

#[test]
fn binance_stream_url_lowercases_symbol() {
    let feed = BinanceFeed::new("BTCUSDT".to_string(), "wss://stream.binance.com:9443".to_string());
    assert_eq!(feed.symbol(), "BTCUSDT");
    assert_eq!(feed.stream_url(), "wss://stream.binance.com:9443/ws/btcusdt@trade");
}

#[test]
fn ib_connection_url_and_accessors() {
    let feed = IBFeed::new("XAUUSD".to_string(), "127.0.0.1".to_string(), 4002, 7);
    assert_eq!(feed.connection_url(), "127.0.0.1:4002");
    assert_eq!(feed.symbol(), "XAUUSD");
    assert_eq!(feed.host(), "127.0.0.1");
    assert_eq!(feed.port(), 4002);
    assert_eq!(feed.client_id(), 7);
    let zero = IBFeed::new("XAUUSD".to_string(), "gw".to_string(), 0, 1);
    assert_eq!(zero.connection_url(), "gw:0");
    let max = IBFeed::new("XAUUSD".to_string(), "gw".to_string(), 65535, 1);
    assert_eq!(max.connection_url(), "gw:65535");
}

#[test]
fn ib_contract_only_for_gold() {
    let feed = IBFeed::new("XAUUSD".to_string(), "h".to_string(), 1, 1);
    assert!(feed.check_symbol().is_ok());
    let contract = feed.make_contract().expect("gold is supported");
    assert_eq!(contract.symbol.as_str(), "XAUUSD");
    let other = IBFeed::new("EURUSD".to_string(), "h".to_string(), 1, 1);
    match other.make_contract() {
        Err(AppError::Feed(msg)) => assert_eq!(msg, "Unsupported symbol: EURUSD. Expected only XAUUSD"),
        _ => panic!("expected a feed error"),
    }
}

#[test]
fn mt5_and_noop_feeds() {
    let feed = Mt5Feed::new(9000, "EURUSD".to_string());
    assert_eq!(feed.port, 9000);
    assert_eq!(feed.symbol(), "EURUSD");
    assert_eq!(NoopFeed.symbol(), "");
}

#[test]
fn error_messages_name_their_kind() {
    let cases = [
        (AppError::Config("a".to_string()), "Configuration error a"),
        (AppError::Feed("b".to_string()), "Feed error b"),
        (AppError::Strategy("c".to_string()), "Strategy error c"),
        (AppError::Risk("d".to_string()), "Risk error d"),
        (AppError::Execution("e".to_string()), "Execution error e"),
        (AppError::Unexpected("f".to_string()), "Unexpected error f"),
    ];
    for (e, text) in cases {
        assert_eq!(e.message(), text);
    }
}
