use market_feed::decimal::Decimal;
use market_feed::entities::{PriceMessage, RealTimePriceData};
use market_feed::store::{handle_frame, FrameReport, InboundFrame, PriceStore};

fn price_message(symbol: &str, price: i64, bid: i64, timestamp: i64) -> PriceMessage {
    PriceMessage {
        event: "price".to_string(),
        symbol: symbol.to_string(),
        currency_base: String::new(),
        currency_quote: String::new(),
        exchange: String::new(),
        timestamp,
        price: Decimal { units: price },
        bid: Decimal { units: bid },
        ask: Decimal { units: 0 },
        day_volume: Decimal { units: 0 },
    }
}

fn snapshot(symbol: &str, price: i64) -> RealTimePriceData {
    RealTimePriceData {
        symbol: symbol.to_string(),
        price: Decimal { units: price },
        bid: Decimal { units: 0 },
        ask: Decimal { units: 0 },
        time: "00:00:00".to_string(),
    }
}

#[test]
fn upsert_twice_keeps_one_entry_with_second_values() {
    let mut store = PriceStore::new();
    store.upsert("BTC/USD".to_string(), snapshot("BTC/USD", 100));
    store.upsert("BTC/USD".to_string(), snapshot("BTC/USD", 200));
    assert_eq!(store.len(), 1);
    assert_eq!(store.get("BTC/USD").unwrap().price, Decimal { units: 200 });
    store.upsert("ETH/USD".to_string(), snapshot("ETH/USD", 5));
    assert_eq!(store.len(), 2);
    assert!(store.get("LTC/USD").is_none());
}

#[test]
fn price_event_updates_store() {
    let mut store = PriceStore::new();
    let frame = InboundFrame::Text {
        event: Some("price".to_string()),
        price: Some(price_message("AAPL", 10_500_000_000, 0, 0)),
    };
    assert_eq!(handle_frame(&mut store, frame), FrameReport::PriceUpdated);
    let s = store.get("AAPL").unwrap();
    assert_eq!(s.price, Decimal { units: 10_500_000_000 });
    assert_eq!(s.bid, Decimal { units: 0 });
    assert_eq!(s.time, "03:00:00");
}

#[test]
fn binary_frame_reports_protocol_error_and_loop_continues() {
    let mut store = PriceStore::new();
    assert_eq!(handle_frame(&mut store, InboundFrame::Binary), FrameReport::ProtocolError);
    assert_eq!(store.len(), 0);
    let next = InboundFrame::Text {
        event: Some("price".to_string()),
        price: Some(price_message("MSFT", 1, 1, 1_700_000_000)),
    };
    assert_eq!(handle_frame(&mut store, next), FrameReport::PriceUpdated);
    assert_eq!(store.len(), 1);
    assert_eq!(store.get("MSFT").unwrap().time, "01:13:20");
}

#[test]
fn unknown_or_absent_event_does_not_touch_store() {
    let mut store = PriceStore::new();
    store.upsert("AAPL".to_string(), snapshot("AAPL", 7));
    for event in [Some("unknown"), Some(""), Some("quote"), None] {
        let frame = InboundFrame::Text {
            event: event.map(|e| e.to_string()),
            price: Some(price_message("AAPL", 99, 0, 0)),
        };
        assert_eq!(handle_frame(&mut store, frame), FrameReport::Unknown);
    }
    assert_eq!(store.len(), 1);
    assert_eq!(store.get("AAPL").unwrap().price, Decimal { units: 7 });
}

#[test]
fn status_and_heartbeat_events_only_report() {
    let mut store = PriceStore::new();
    let f = InboundFrame::Text { event: Some("subscribe-status".to_string()), price: None };
    assert_eq!(handle_frame(&mut store, f), FrameReport::SubscribeStatus);
    let f = InboundFrame::Text { event: Some("heartbeat".to_string()), price: None };
    assert_eq!(handle_frame(&mut store, f), FrameReport::Heartbeat);
    let f = InboundFrame::Text { event: Some("price".to_string()), price: None };
    assert_eq!(handle_frame(&mut store, f), FrameReport::MalformedPrice);
    assert_eq!(store.len(), 0);
}

#[test]
fn negative_timestamp_gives_empty_time() {
    let mut store = PriceStore::new();
    let f = InboundFrame::Text {
        event: Some("price".to_string()),
        price: Some(price_message("AAPL", 1, 0, -5)),
    };
    assert_eq!(handle_frame(&mut store, f), FrameReport::PriceUpdated);
    assert_eq!(store.get("AAPL").unwrap().time, "");
}

#[test]
fn snapshot_restricted_to_symbols() {
    let mut store = PriceStore::new();
    store.upsert("A".to_string(), snapshot("A", 1));
    store.upsert("B".to_string(), snapshot("B", 2));
    let want = vec!["B".to_string(), "C".to_string()];
    let snap = store.snapshot_for(&want);
    assert_eq!(snap.len(), 1);
    assert_eq!(snap.get("B").unwrap().price, Decimal { units: 2 });
    assert!(snap.get("A").is_none());
}
