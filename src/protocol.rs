//! The subscription wire protocol, inbound event classification and request
//! addresses.
use crate::catalog::{join_symbols, prepare_symbols_for_url};
use crate::symbol_map::str_eq;
use vstd::prelude::*;

verus! {

/// The subscribe control frame for the given symbols.
pub open spec fn subscribe_text(symbols: Seq<Seq<char>>) -> Seq<char> {
    "{\"action\":\"subscribe\",\"params\":{\"symbols\":\""@ + join_symbols(symbols) + "\"}}"@
}

/// The subscribe control frame: `{"action":"subscribe","params":{"symbols":"A,B,C"}}`.
pub fn subscribe_message(symbols: &Vec<String>) -> (r: String)
    ensures
        r@ == subscribe_text(symbols@.map_values(|x: String| x@)),
{
    let mut msg = String::from_str("{\"action\":\"subscribe\",\"params\":{\"symbols\":\"");
    let joined = prepare_symbols_for_url(symbols);
    msg.append(joined.as_str());
    msg.append("\"}}");
    msg
}

/// The heartbeat control frame: `{"action":"heartbeat"}`.
pub fn heartbeat_message() -> (r: String)
    ensures
        r@ == "{\"action\":\"heartbeat\"}"@,
{
    String::from_str("{\"action\":\"heartbeat\"}")
}

/// Seconds between two heartbeat frames.
pub const HEARTBEAT_INTERVAL_SECS: u64 = 9;

/// How the heartbeat loop reacts to its sends.
#[derive(Clone, Copy, Debug, PartialEq, Eq, Structural)]
pub struct HeartbeatPolicy {
    /// Seconds between two heartbeat frames.
    pub interval_secs: u64,
    /// Failed sends in a row after which the loop stops; `None`: it never stops.
    pub max_consecutive_failures: Option<u64>,
}

impl Default for HeartbeatPolicy {
    /// A frame every `HEARTBEAT_INTERVAL_SECS` seconds, retried without end.
    fn default() -> (r: Self)
        ensures
            r.interval_secs == HEARTBEAT_INTERVAL_SECS,
            r.max_consecutive_failures is None,
    {
        HeartbeatPolicy { interval_secs: HEARTBEAT_INTERVAL_SECS, max_consecutive_failures: None }
    }
}

/// Outcome of one heartbeat send.
#[derive(Clone, Copy, Debug, PartialEq, Eq, Structural)]
pub enum SendOutcome {
    Sent,
    Failed,
}

/// What the heartbeat loop does next.
#[derive(Clone, Copy, Debug, PartialEq, Eq, Structural)]
pub enum HeartbeatAction {
    /// Wait this many seconds, then send the next frame.
    WaitThenSend(u64),
    /// End the loop.
    Stop,
}

/// The decision after one heartbeat send.
#[derive(Clone, Copy, Debug, PartialEq, Eq, Structural)]
pub struct HeartbeatStep {
    /// Failed sends in a row, this one included.
    pub failures: u64,
    /// Whether the send failed and is to be reported.
    pub report_error: bool,
    /// What to do next.
    pub action: HeartbeatAction,
}

/// Decides what follows a heartbeat send, given the failed sends in a row
/// before it. A success resets the count; a failure is reported, counted
/// (saturating), and ends the loop once the policy's limit is reached; else
/// the next frame is sent after the policy's interval.
pub fn heartbeat_step(policy: HeartbeatPolicy, failures: u64, outcome: SendOutcome) -> (r: HeartbeatStep)
    ensures
        r.report_error == (outcome == SendOutcome::Failed),
        r.failures as int == (if outcome == SendOutcome::Sent {
            0
        } else if failures == u64::MAX {
            u64::MAX as int
        } else {
            failures + 1
        }),
        r.action == (match policy.max_consecutive_failures {
            Some(n) if outcome == SendOutcome::Failed && r.failures >= n => HeartbeatAction::Stop,
            _ => HeartbeatAction::WaitThenSend(policy.interval_secs),
        }),
{
    let (count, failed) = match outcome {
        SendOutcome::Sent => (0u64, false),
        SendOutcome::Failed => (if failures == u64::MAX { u64::MAX } else { failures + 1 }, true),
    };
    let stop = match policy.max_consecutive_failures {
        Some(n) => failed && count >= n,
        None => false,
    };
    let action = if stop {
        HeartbeatAction::Stop
    } else {
        HeartbeatAction::WaitThenSend(policy.interval_secs)
    };
    HeartbeatStep { failures: count, report_error: failed, action }
}

/// Kind of an inbound event.
#[derive(Clone, Copy, Debug, PartialEq, Eq, Structural)]
pub enum WSResponseEventType {
    SubscribeStatus,
    Price,
    Heartbeat,
    Unknown,
}

/// The kind of the event named `event`.
pub open spec fn event_kind(event: Seq<char>) -> WSResponseEventType {
    if event == "price"@ {
        WSResponseEventType::Price
    } else if event == "heartbeat"@ {
        WSResponseEventType::Heartbeat
    } else if event == "subscribe-status"@ {
        WSResponseEventType::SubscribeStatus
    } else {
        WSResponseEventType::Unknown
    }
}

/// Classifies an event name.
pub fn classify_event(event: &str) -> (r: WSResponseEventType)
    ensures
        r == event_kind(event@),
{
    if str_eq(event, "price") {
        WSResponseEventType::Price
    } else if str_eq(event, "heartbeat") {
        WSResponseEventType::Heartbeat
    } else if str_eq(event, "subscribe-status") {
        WSResponseEventType::SubscribeStatus
    } else {
        WSResponseEventType::Unknown
    }
}

impl From<String> for WSResponseEventType {
    fn from(value: String) -> (r: Self) {
        classify_event(value.as_str())
    }
}

impl vstd::std_specs::convert::FromSpecImpl<String> for WSResponseEventType {
    open spec fn obeys_from_spec() -> bool {
        true
    }

    open spec fn from_spec(v: String) -> Self {
        event_kind(v@)
    }
}

/// The envelope of an inbound frame: the name of its event.
#[derive(Clone, Debug, PartialEq)]
pub struct WSResponseEvent {
    pub event: String,
}

impl Default for WSResponseEvent {
    /// The envelope of a frame that could not be read: event `unknown`.
    fn default() -> (r: Self)
        ensures
            r.event@ == "unknown"@,
    {
        WSResponseEvent { event: String::from_str("unknown") }
    }
}

/// Builds request addresses for the reference data service.
pub struct RestApiService;

impl RestApiService {
    /// `<address><route>?symbol=<symbols>&apikey=<key>`: end-of-day closes.
    pub fn end_of_day_url(address: &str, route: &str, symbols: &Vec<String>, key: &str) -> (r: String)
        ensures
            r@ == address@ + route@ + "?symbol="@ + join_symbols(symbols@.map_values(|x: String| x@))
                + "&apikey="@ + key@,
    {
        let mut url = String::from_str(address);
        url.append(route);
        url.append("?symbol=");
        url.append(prepare_symbols_for_url(symbols).as_str());
        url.append("&apikey=");
        url.append(key);
        url
    }

    /// `<address><route>?symbol=<symbols>&interval=1day&apikey=<key>`: last quotes.
    pub fn last_quote_url(address: &str, route: &str, symbols: &Vec<String>, key: &str) -> (r: String)
        ensures
            r@ == address@ + route@ + "?symbol="@ + join_symbols(symbols@.map_values(|x: String| x@))
                + "&interval=1day&apikey="@ + key@,
    {
        let mut url = String::from_str(address);
        url.append(route);
        url.append("?symbol=");
        url.append(prepare_symbols_for_url(symbols).as_str());
        url.append("&interval=1day&apikey=");
        url.append(key);
        url
    }

    /// `<address><route>`: the list of indices.
    pub fn indices_url(address: &str, route: &str) -> (r: String)
        ensures
            r@ == address@ + route@,
    {
        let mut url = String::from_str(address);
        url.append(route);
        url
    }

    /// `<address><route>?country=United%20States`: the list of US stocks.
    pub fn us_stocks_url(address: &str, route: &str) -> (r: String)
        ensures
            r@ == address@ + route@ + "?country=United%20States"@,
    {
        let mut url = String::from_str(address);
        url.append(route);
        url.append("?country=United%20States");
        url
    }
}

/// `<address><route>?apikey=<key>`: the real-time price socket.
pub fn ws_url(address: &str, route: &str, key: &str) -> (r: String)
    ensures
        r@ == address@ + route@ + "?apikey="@ + key@,
{
    let mut url = String::from_str(address);
    url.append(route);
    url.append("?apikey=");
    url.append(key);
    url
}

} // verus!
