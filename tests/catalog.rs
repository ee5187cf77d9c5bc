use market_feed::catalog::{prepare_symbols_for_url, DashboardConfiguration, QuoteType, QuotesComponentType};
use std::collections::HashSet;

fn listed(set: linked_hash_set::LinkedHashSet<String>) -> Vec<String> {
    set.into_iter().collect()
}

#[test]
fn crypto_catalog_in_order() {
    assert_eq!(
        listed(DashboardConfiguration::get_crypto_currencies_symbols()),
        vec!["EOS/USD", "ETH/USD", "LTC/USD", "BTC/USD", "ETH/BTC"]
    );
}

#[test]
fn catalog_sizes() {
    assert_eq!(DashboardConfiguration::get_currencies_symbols().len(), 5);
    assert_eq!(DashboardConfiguration::get_indices_symbols().len(), 11);
    assert_eq!(DashboardConfiguration::get_us_stocks().len(), 11);
    assert_eq!(
        listed(DashboardConfiguration::get_quote_symbols(QuoteType::Currency)),
        vec!["EUR/USD", "EUR/GBP", "USD/CNY", "USD/JPY", "GBP/CHF"]
    );
    assert_eq!(listed(DashboardConfiguration::get_quote_symbols(QuoteType::Indices))[0], "DJIA");
    assert_eq!(listed(DashboardConfiguration::get_quote_symbols(QuoteType::USStocks))[10], "XOM");
}

#[test]
fn all_symbols_are_distinct_and_complete() {
    let all = DashboardConfiguration::get_all_quote_symbols();
    assert_eq!(all.len(), 32);
    let set: HashSet<String> = all.iter().cloned().collect();
    assert_eq!(set.len(), 32);
    assert_eq!(all[0], "EOS/USD");
    assert_eq!(all[31], "XOM");
}

#[test]
fn join_with_commas() {
    let v = vec!["A".to_string(), "B".to_string(), "C".to_string()];
    assert_eq!(prepare_symbols_for_url(&v), "A,B,C");
    assert_eq!(prepare_symbols_for_url(&vec!["BTC/USD".to_string()]), "BTC/USD");
    assert_eq!(prepare_symbols_for_url(&Vec::new()), "");
}

#[test]
fn join_then_split_gives_the_same_set() {
    let all = DashboardConfiguration::get_all_quote_symbols();
    let joined = prepare_symbols_for_url(&all);
    let back: HashSet<String> = joined.split(',').map(|s| s.to_string()).collect();
    let orig: HashSet<String> = all.into_iter().collect();
    assert_eq!(back, orig);
}

#[test]
fn default_component_type() {
    assert_eq!(QuotesComponentType::default(), QuotesComponentType::BidAsk);
}
