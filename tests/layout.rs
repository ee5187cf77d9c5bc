use market_feed::catalog::QuotesComponentType;
use market_feed::layout::{coloring_class, get_css_props};
use market_feed::resolver::Coloring;

#[test]
fn css_classes_per_layout() {
    let bid_ask = get_css_props(QuotesComponentType::BidAsk);
    assert_eq!(bid_ask.container_classes, vec!["container", "bid-ask-comp"]);
    assert_eq!(bid_ask.title_classes, vec!["title", "bid-ask-comp"]);
    let only_price = get_css_props(QuotesComponentType::OnlyPrice);
    assert_eq!(only_price.container_classes, vec!["container", "only-price-comp"]);
    assert_eq!(only_price.title_classes, vec!["title", "bid-ask-comp"]);
}

#[test]
fn coloring_classes() {
    assert_eq!(coloring_class(Some(Coloring::Positive)), "color-green");
    assert_eq!(coloring_class(Some(Coloring::Negative)), "color-red");
    assert_eq!(coloring_class(Some(Coloring::Flat)), "");
    assert_eq!(coloring_class(None), "");
}
