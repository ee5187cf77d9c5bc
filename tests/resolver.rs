use market_feed::catalog::QuoteType;
use market_feed::decimal::Decimal;
use market_feed::entities::{EndOfDay, FiftyTwoWeek, Indices, Quote, RealTimePriceData, ReferenceData, Stock};
use market_feed::resolver::{fill_last_quote, get_eod_price, get_symbol_name, resolve, Coloring, DisplayPriceData};
use market_feed::symbol_map::SymbolMap;

fn quote(symbol: &str, close: &str, change: &str, percent: &str, timestamp: i64) -> Quote {
    let e = String::new;
    Quote {
        symbol: symbol.to_string(),
        name: e(),
        exchange: e(),
        mic_code: e(),
        currency: e(),
        datetime: e(),
        timestamp,
        open: e(),
        high: e(),
        low: e(),
        close: close.to_string(),
        volume: e(),
        previous_close: e(),
        change: change.to_string(),
        percent_change: percent.to_string(),
        average_volume: e(),
        is_market_open: false,
        fifty_two_week: FiftyTwoWeek {
            low: e(),
            high: e(),
            low_change: e(),
            high_change: e(),
            low_change_percent: e(),
            high_change_percent: e(),
            range: e(),
        },
        rolling_1d_change: e(),
        rolling_7d_change: e(),
        rolling_period_change: e(),
        extended_change: e(),
        extended_percent_change: e(),
        extended_price: e(),
        extended_timestamp: e(),
    }
}

fn eod(symbol: &str, close: &str) -> EndOfDay {
    EndOfDay {
        symbol: symbol.to_string(),
        exchange: String::new(),
        datetime: String::new(),
        timestamp: 0,
        close: close.to_string(),
    }
}

fn live(symbol: &str, price: &str, bid: &str, ask: &str) -> RealTimePriceData {
    RealTimePriceData {
        symbol: symbol.to_string(),
        price: Decimal::parse(price).unwrap(),
        bid: Decimal::parse(bid).unwrap(),
        ask: Decimal::parse(ask).unwrap(),
        time: "12:00:00".to_string(),
    }
}

fn prices_with(p: RealTimePriceData) -> SymbolMap<RealTimePriceData> {
    let mut m = SymbolMap::new();
    m.insert(p.symbol.clone(), p);
    m
}

#[test]
fn baseline_and_live_price_give_positive_change() {
    let mut rd = ReferenceData::new();
    rd.end_of_day.insert("AAPL".to_string(), eod("AAPL", "100.00"));
    let prices = prices_with(live("AAPL", "105.0", "104.5", "105.5"));
    let row = resolve("AAPL", QuoteType::USStocks, &rd, &prices);
    assert_eq!(row.data.change_value, "+5");
    assert_eq!(row.data.percentage_value, "+5");
    assert_eq!(row.data.coloring, Some(Coloring::Positive));
    assert_eq!(row.data.price_value, "105");
    assert_eq!(row.data.bid_value, "104.5");
    assert_eq!(row.data.ask_value, "105.5");
    assert_eq!(row.data.time_value, "12:00:00");
    assert_eq!(row.name, "AAPL");
}

#[test]
fn last_quote_change_used_as_is() {
    let mut rd = ReferenceData::new();
    rd.last_quote.insert("EUR/USD".to_string(), quote("EUR/USD", "1.08", "-2.5", "-1.25", 0));
    let prices = SymbolMap::new();
    let row = resolve("EUR/USD", QuoteType::Currency, &rd, &prices);
    assert_eq!(row.data.change_value, "-2.5");
    assert_eq!(row.data.percentage_value, "-1.25");
    assert_eq!(row.data.coloring, Some(Coloring::Negative));
    assert_eq!(row.data.price_value, "1.08");
    assert_eq!(row.data.bid_value, "1.08");
    assert_eq!(row.data.time_value, "03:00:00");
}

#[test]
fn zero_bid_falls_back_to_price() {
    let rd = ReferenceData::new();
    let prices = prices_with(live("BTC/USD", "65000.123456", "0", "0"));
    let row = resolve("BTC/USD", QuoteType::CryptoCurrency, &rd, &prices);
    assert_eq!(row.data.price_value, "65000.1234");
    assert_eq!(row.data.bid_value, row.data.price_value);
    assert_eq!(row.data.ask_value, row.data.price_value);
    assert_eq!(row.data.change_value, "");
    assert_eq!(row.data.coloring, None);
}

#[test]
fn negative_change_against_baseline() {
    let mut rd = ReferenceData::new();
    rd.end_of_day.insert("X".to_string(), eod("X", "200"));
    rd.last_quote.insert("X".to_string(), quote("X", "201", "1", "0.5", 0));
    let prices = prices_with(live("X", "150", "1", "1"));
    let row = resolve("X", QuoteType::Indices, &rd, &prices);
    assert_eq!(row.data.change_value, "-50");
    assert_eq!(row.data.percentage_value, "-25");
    assert_eq!(row.data.coloring, Some(Coloring::Negative));
}

#[test]
fn truncated_change_and_percentage() {
    let mut rd = ReferenceData::new();
    rd.end_of_day.insert("X".to_string(), eod("X", "3"));
    let prices = prices_with(live("X", "4", "0", "0"));
    let row = resolve("X", QuoteType::Currency, &rd, &prices);
    assert_eq!(row.data.change_value, "+1");
    assert_eq!(row.data.percentage_value, "+33.3333");
}

#[test]
fn change_below_the_fourth_place_is_flat() {
    let mut rd = ReferenceData::new();
    rd.end_of_day.insert("X".to_string(), eod("X", "1"));
    let prices = prices_with(live("X", "1.00009", "0", "0"));
    let row = resolve("X", QuoteType::Currency, &rd, &prices);
    assert_eq!(row.data.change_value, "0.00");
    assert_eq!(row.data.percentage_value, "0.00");
    assert_eq!(row.data.coloring, Some(Coloring::Flat));
}

#[test]
fn live_price_without_baseline_keeps_quote_change() {
    let mut rd = ReferenceData::new();
    rd.last_quote.insert("X".to_string(), quote("X", "10", "0.75", "8.1", 0));
    let prices = prices_with(live("X", "11", "0", "0"));
    let row = resolve("X", QuoteType::Currency, &rd, &prices);
    assert_eq!(row.data.price_value, "11");
    assert_eq!(row.data.change_value, "+0.75");
    assert_eq!(row.data.percentage_value, "+8.1");
    assert_eq!(row.data.coloring, Some(Coloring::Positive));
    assert_eq!(row.data.time_value, "12:00:00");
}

#[test]
fn unreadable_quote_fields_are_blank() {
    let mut rd = ReferenceData::new();
    rd.last_quote.insert("X".to_string(), quote("X", "n/a", "n/a", "n/a", -1));
    let row = resolve("X", QuoteType::Currency, &rd, &SymbolMap::new());
    assert_eq!(row.data.price_value, "");
    assert_eq!(row.data.change_value, "");
    assert_eq!(row.data.time_value, "");
    assert_eq!(row.data.coloring, None);
}

#[test]
fn nothing_known_gives_blank_row() {
    let rd = ReferenceData::new();
    let row = resolve("X", QuoteType::Currency, &rd, &SymbolMap::new());
    assert_eq!(row.data.price_value, "");
    assert_eq!(row.data.percentage_value, "");
    assert_eq!(row.name, "X");
}

#[test]
fn eod_price_is_the_parsed_close() {
    let mut rd = ReferenceData::new();
    rd.end_of_day.insert("X".to_string(), eod("X", "99.123456"));
    assert_eq!(get_eod_price("X", &rd), Some(Decimal { units: 9_912_345_600 }));
    assert_eq!(get_eod_price("Y", &rd), None);
}

#[test]
fn display_names() {
    let mut rd = ReferenceData::new();
    rd.indices.insert(
        "SPX".to_string(),
        Indices {
            symbol: "SPX".to_string(),
            name: "S&P 500".to_string(),
            country: String::new(),
            currency: String::new(),
            exchange: String::new(),
            mic_code: String::new(),
        },
    );
    rd.us_stocks.insert(
        "AAPL".to_string(),
        Stock {
            symbol: "AAPL".to_string(),
            name: "Apple Inc".to_string(),
            country: String::new(),
            currency: String::new(),
            exchange: String::new(),
            mic_code: String::new(),
        },
    );
    assert_eq!(get_symbol_name("SPX", QuoteType::Indices, &rd), "S&P 500");
    assert_eq!(get_symbol_name("DJIA", QuoteType::Indices, &rd), "DJIA");
    assert_eq!(get_symbol_name("AAPL", QuoteType::USStocks, &rd), "Apple Inc");
    assert_eq!(get_symbol_name("AAPL", QuoteType::Indices, &rd), "AAPL");
    assert_eq!(get_symbol_name("SPX", QuoteType::CryptoCurrency, &rd), "SPX");
}

#[test]
fn change_against_untruncated_close_below_fourth_place_is_flat() {
    let mut rd = ReferenceData::new();
    rd.end_of_day.insert("X".to_string(), eod("X", "1.00009"));
    let prices = prices_with(live("X", "1.0001", "0", "0"));
    let row = resolve("X", QuoteType::Currency, &rd, &prices);
    assert_eq!(row.data.change_value, "0.00");
    assert_eq!(row.data.percentage_value, "0.00");
    assert_eq!(row.data.coloring, Some(Coloring::Flat));
}

#[test]
fn negative_change_uses_the_full_close() {
    let mut rd = ReferenceData::new();
    rd.end_of_day.insert("X".to_string(), eod("X", "2.00005"));
    let prices = prices_with(live("X", "1", "0", "0"));
    let row = resolve("X", QuoteType::Currency, &rd, &prices);
    assert_eq!(row.data.change_value, "-1");
    assert_eq!(row.data.percentage_value, "-50.0012");
    assert_eq!(row.data.coloring, Some(Coloring::Negative));
}

#[test]
fn zero_baseline_gives_infinite_percentage() {
    let mut rd = ReferenceData::new();
    rd.end_of_day.insert("X".to_string(), eod("X", "0.00"));
    rd.last_quote.insert("X".to_string(), quote("X", "1", "-1", "-1", 0));
    let row = resolve("X", QuoteType::Currency, &rd, &prices_with(live("X", "5", "0", "0")));
    assert_eq!(row.data.change_value, "+5");
    assert_eq!(row.data.percentage_value, "+inf");
    assert_eq!(row.data.coloring, Some(Coloring::Positive));
    let row = resolve("X", QuoteType::Currency, &rd, &prices_with(live("X", "0", "0", "0")));
    assert_eq!(row.data.change_value, "0.00");
    assert_eq!(row.data.percentage_value, "0.00");
    assert_eq!(row.data.coloring, Some(Coloring::Flat));
}

#[test]
fn no_last_quote_clears_colour() {
    let rd = ReferenceData::new();
    let mut d = DisplayPriceData::new();
    d.change_value = "+1".to_string();
    d.coloring = Some(Coloring::Positive);
    fill_last_quote(&mut d, "X", &rd);
    assert_eq!(d.coloring, None);
    assert_eq!(d.change_value, "+1");
}
