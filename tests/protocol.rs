use market_feed::protocol::{
    classify_event, heartbeat_message, subscribe_message, ws_url, RestApiService, WSResponseEvent,
    WSResponseEventType,
};

#[test]
fn subscribe_frame() {
    let v = vec!["BTC/USD".to_string(), "AAPL".to_string()];
    assert_eq!(
        subscribe_message(&v),
        "{\"action\":\"subscribe\",\"params\":{\"symbols\":\"BTC/USD,AAPL\"}}"
    );
}

#[test]
fn heartbeat_frame() {
    assert_eq!(heartbeat_message(), "{\"action\":\"heartbeat\"}");
}

#[test]
fn event_classification() {
    assert_eq!(classify_event("price"), WSResponseEventType::Price);
    assert_eq!(classify_event("heartbeat"), WSResponseEventType::Heartbeat);
    assert_eq!(classify_event("subscribe-status"), WSResponseEventType::SubscribeStatus);
    assert_eq!(classify_event(""), WSResponseEventType::Unknown);
    assert_eq!(classify_event("Price"), WSResponseEventType::Unknown);
    assert_eq!(WSResponseEventType::from("price".to_string()), WSResponseEventType::Price);
    assert_eq!(WSResponseEventType::from("other".to_string()), WSResponseEventType::Unknown);
}

#[test]
fn default_envelope_is_unknown() {
    let e = WSResponseEvent::default();
    assert_eq!(e.event, "unknown");
    assert_eq!(WSResponseEventType::from(e.event), WSResponseEventType::Unknown);
}

#[test]
fn request_addresses() {
    let v = vec!["A".to_string(), "B".to_string()];
    assert_eq!(
        RestApiService::end_of_day_url("https://h/", "eod", &v, "k"),
        "https://h/eod?symbol=A,B&apikey=k"
    );
    assert_eq!(
        RestApiService::last_quote_url("https://h/", "quote", &v, "k"),
        "https://h/quote?symbol=A,B&interval=1day&apikey=k"
    );
    assert_eq!(RestApiService::indices_url("https://h/", "indices"), "https://h/indices");
    assert_eq!(
        RestApiService::us_stocks_url("https://h/", "stocks"),
        "https://h/stocks?country=United%20States"
    );
    assert_eq!(ws_url("wss://w/", "v1/quotes/price", "k"), "wss://w/v1/quotes/price?apikey=k");
}

use market_feed::protocol::{heartbeat_step, HeartbeatAction, HeartbeatPolicy, SendOutcome, HEARTBEAT_INTERVAL_SECS};

#[test]
fn default_heartbeat_retries_forever() {
    let policy = HeartbeatPolicy::default();
    assert_eq!(policy.interval_secs, HEARTBEAT_INTERVAL_SECS);
    let step = heartbeat_step(policy, 5, SendOutcome::Failed);
    assert_eq!(step.failures, 6);
    assert!(step.report_error);
    assert_eq!(step.action, HeartbeatAction::WaitThenSend(9));
    let step = heartbeat_step(policy, u64::MAX, SendOutcome::Failed);
    assert_eq!(step.failures, u64::MAX);
    assert_eq!(step.action, HeartbeatAction::WaitThenSend(9));
}

#[test]
fn bounded_heartbeat_stops_after_failures_in_a_row() {
    let policy = HeartbeatPolicy { interval_secs: 3, max_consecutive_failures: Some(2) };
    let step = heartbeat_step(policy, 0, SendOutcome::Failed);
    assert_eq!(step.action, HeartbeatAction::WaitThenSend(3));
    let step = heartbeat_step(policy, step.failures, SendOutcome::Failed);
    assert_eq!(step.action, HeartbeatAction::Stop);
    let step = heartbeat_step(policy, 1, SendOutcome::Sent);
    assert_eq!(step.failures, 0);
    assert!(!step.report_error);
    assert_eq!(step.action, HeartbeatAction::WaitThenSend(3));
}
