use market_feed::symbol_map::{str_eq, SymbolMap};

#[test]
fn insert_get_and_replace() {
    let mut m: SymbolMap<u32> = SymbolMap::new();
    assert_eq!(m.len(), 0);
    m.insert("A".to_string(), 1);
    m.insert("B".to_string(), 2);
    m.insert("A".to_string(), 3);
    assert_eq!(m.len(), 2);
    assert_eq!(m.get("A"), Some(&3));
    assert_eq!(m.get("B"), Some(&2));
    assert_eq!(m.get("C"), None);
    assert!(m.contains_key("B"));
    assert!(!m.contains_key("b"));
}

#[test]
fn string_equality_by_characters() {
    assert!(str_eq("BTC/USD", "BTC/USD"));
    assert!(!str_eq("BTC/USD", "BTC/USDT"));
    assert!(!str_eq("a", "b"));
    assert!(str_eq("", ""));
}

use market_feed::entities::{Indices, IndicesReferenceData, Stock, UsStocksReferenceData};

fn index(symbol: &str, name: &str) -> Indices {
    Indices {
        symbol: symbol.to_string(),
        name: name.to_string(),
        country: String::new(),
        currency: String::new(),
        exchange: String::new(),
        mic_code: String::new(),
    }
}

#[test]
fn indices_keyed_by_symbol_later_wins() {
    let list = IndicesReferenceData {
        data: vec![index("SPX", "old"), index("DJI", "Dow"), index("SPX", "S&P 500")],
        status: "ok".to_string(),
        count: 3,
    };
    let m = list.by_symbol();
    assert_eq!(m.len(), 2);
    assert_eq!(m.get("SPX").unwrap().name, "S&P 500");
    assert_eq!(m.get("DJI").unwrap().name, "Dow");
}

#[test]
fn stocks_keyed_by_symbol() {
    let list = UsStocksReferenceData {
        data: vec![Stock {
            symbol: "AAPL".to_string(),
            name: "Apple Inc".to_string(),
            country: String::new(),
            currency: String::new(),
            exchange: String::new(),
            mic_code: String::new(),
        }],
        status: "ok".to_string(),
        count: 1,
    };
    assert_eq!(list.by_symbol().get("AAPL").unwrap().name, "Apple Inc");
    assert_eq!(list.by_symbol().len(), 1);
}
