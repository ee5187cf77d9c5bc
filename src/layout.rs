//! CSS classes of the quotes tables.
use crate::catalog::QuotesComponentType;
use crate::resolver::Coloring;
use vstd::prelude::*;

verus! {

/// Classes of a quotes table's container and title.
#[derive(Clone, Debug, PartialEq)]
pub struct CssProps {
    pub container_classes: Vec<String>,
    pub title_classes: Vec<String>,
}

/// Class of the layout of a table.
pub open spec fn layout_class(component_type: QuotesComponentType) -> Seq<char> {
    match component_type {
        QuotesComponentType::BidAsk => "bid-ask-comp"@,
        QuotesComponentType::OnlyPrice => "only-price-comp"@,
    }
}

/// The container gets `container` and the layout class; the title gets
/// `title` and `bid-ask-comp` in either layout.
pub fn get_css_props(component_type: QuotesComponentType) -> (r: CssProps)
    ensures
        r.container_classes@.map_values(|c: String| c@) == seq!["container"@, layout_class(component_type)],
        r.title_classes@.map_values(|c: String| c@) == seq!["title"@, "bid-ask-comp"@],
{
    let mut container_classes: Vec<String> = Vec::new();
    let mut title_classes: Vec<String> = Vec::new();
    container_classes.push(String::from_str("container"));
    title_classes.push(String::from_str("title"));
    match component_type {
        QuotesComponentType::BidAsk => {
            container_classes.push(String::from_str("bid-ask-comp"));
            title_classes.push(String::from_str("bid-ask-comp"));
        },
        QuotesComponentType::OnlyPrice => {
            container_classes.push(String::from_str("only-price-comp"));
            title_classes.push(String::from_str("bid-ask-comp"));
        },
    }
    assert(container_classes@.map_values(|c: String| c@) =~= seq!["container"@, layout_class(component_type)]);
    assert(title_classes@.map_values(|c: String| c@) =~= seq!["title"@, "bid-ask-comp"@]);
    CssProps { container_classes, title_classes }
}

/// Colour class of the change cells: green for a rise, red for a fall, none otherwise.
pub fn coloring_class(coloring: Option<Coloring>) -> (r: String)
    ensures
        r@ == match coloring {
            Some(Coloring::Positive) => "color-green"@,
            Some(Coloring::Negative) => "color-red"@,
            _ => ""@,
        },
{
    match coloring {
        Some(Coloring::Positive) => String::from_str("color-green"),
        Some(Coloring::Negative) => String::from_str("color-red"),
        _ => String::from_str(""),
    }
}

} // verus!
