//! The display price resolver: what a quotes table shows for one symbol.
use crate::catalog::{QuoteType, QuotesComponentType};
use crate::clock::{display_time, time_text};
use crate::decimal::{parse_units, round_f64, round_f64_str, trunc4, units_text, units_to_text, Decimal, SCALE};
use crate::entities::{RealTimePriceData, ReferenceData};
use crate::store::price_stored;
use crate::entities::PriceMessage;
use crate::symbol_map::SymbolMap;
use vstd::prelude::*;

verus! {

/// Direction of a price change, which decides its colour.
#[derive(Clone, Copy, Debug, PartialEq, Eq, Structural)]
pub enum Coloring {
    Positive,
    Negative,
    Flat,
}

/// One row of a quotes table, as text.
#[derive(Clone, Debug, PartialEq)]
pub struct DisplayPriceData {
    pub price_value: String,
    pub bid_value: String,
    pub ask_value: String,
    pub change_value: String,
    pub percentage_value: String,
    pub time_value: String,
    /// Colour of the change cells; `None` when no change is known.
    pub coloring: Option<Coloring>,
}

/// Model of a row.
pub struct RowView {
    pub price: Seq<char>,
    pub bid: Seq<char>,
    pub ask: Seq<char>,
    pub change: Seq<char>,
    pub percentage: Seq<char>,
    pub time: Seq<char>,
    pub coloring: Option<Coloring>,
}

impl View for DisplayPriceData {
    type V = RowView;

    open spec fn view(&self) -> RowView {
        RowView {
            price: self.price_value@,
            bid: self.bid_value@,
            ask: self.ask_value@,
            change: self.change_value@,
            percentage: self.percentage_value@,
            time: self.time_value@,
            coloring: self.coloring,
        }
    }
}

/// A row with every cell empty.
pub open spec fn blank_row() -> RowView {
    RowView {
        price: Seq::empty(),
        bid: Seq::empty(),
        ask: Seq::empty(),
        change: Seq::empty(),
        percentage: Seq::empty(),
        time: Seq::empty(),
        coloring: None,
    }
}

/// Text of a number of units truncated at four decimal places.
pub open spec fn rounded_text(u: int) -> Seq<char> {
    units_text(trunc4(u))
}

/// Text of a truncated value whose sign is the sign of the truncated change
/// `c`: `0.00` when `c` is zero, a leading `+` when it is positive.
pub open spec fn signed_text(c: int, v: int) -> Seq<char> {
    if c == 0 {
        "0.00"@
    } else if c > 0 {
        seq!['+'] + units_text(v)
    } else {
        units_text(v)
    }
}

/// Colour of a truncated change.
pub open spec fn coloring_of(c: int) -> Coloring {
    if c > 0 {
        Coloring::Positive
    } else if c < 0 {
        Coloring::Negative
    } else {
        Coloring::Flat
    }
}

/// `c / b * 100` in units, truncated toward zero.
pub open spec fn percent_units(c: int, b: int) -> int {
    let q = (abs_int(c) * 100 * SCALE) / abs_int(b);
    if (c < 0) != (b < 0) {
        -q
    } else {
        q
    }
}

pub open spec fn abs_int(x: int) -> int {
    if x < 0 { -x } else { x }
}

/// Text of a decimal text truncated at four places; empty when it is not a number.
pub open spec fn quote_value_text(t: Seq<char>) -> Seq<char> {
    match parse_units(t) {
        Some(u) => rounded_text(u),
        None => Seq::empty(),
    }
}

/// The row seeded from a last quote with fields `close`, `change`,
/// `percent_change` and `timestamp`.
pub open spec fn quote_row(close: Seq<char>, change: Seq<char>, percent: Seq<char>, timestamp: int) -> RowView {
    let v = quote_value_text(close);
    let (ct, pt, col) = match parse_units(change) {
        Some(cu) => {
            let c = trunc4(cu);
            let pt = if c == 0 {
                "0.00"@
            } else {
                match parse_units(percent) {
                    Some(pu) => signed_text(c, trunc4(pu)),
                    None => Seq::empty(),
                }
            };
            (signed_text(c, c), pt, Some(coloring_of(c)))
        },
        None => (Seq::empty(), Seq::empty(), None),
    };
    RowView { price: v, bid: v, ask: v, change: ct, percentage: pt, time: time_text(timestamp), coloring: col }
}

/// The baseline close of a symbol: its end-of-day close, parsed.
pub open spec fn baseline_of(rd: ReferenceData, symbol: Seq<char>) -> Option<int> {
    if rd.end_of_day.view().contains_key(symbol) {
        parse_units(rd.end_of_day.view()[symbol].close@)
    } else {
        None
    }
}

/// Text of the percentage change `cu / b * 100`, truncated at four places,
/// signed like the truncated change `c`. A zero baseline gives an infinite
/// percentage, shown as `+inf` or `-inf`.
pub open spec fn percent_text(c: int, cu: int, b: int) -> Seq<char> {
    if c == 0 {
        "0.00"@
    } else if b != 0 {
        signed_text(c, trunc4(percent_units(cu, b)))
    } else if c > 0 {
        "+inf"@
    } else {
        "-inf"@
    }
}

/// `row` with a live snapshot applied: price, bid, ask and time come from the
/// snapshot (a zero bid or ask shows the price), and where there is a baseline
/// the change and percentage are recomputed against it.
pub open spec fn live_row(row: RowView, p: RealTimePriceData, baseline: Option<int>) -> RowView {
    let price = rounded_text(p.price.units as int);
    let bid = if p.bid.units == 0 { price } else { rounded_text(p.bid.units as int) };
    let ask = if p.ask.units == 0 { price } else { rounded_text(p.ask.units as int) };
    match baseline {
        Some(b) => {
            let cu = p.price.units - b;
            let c = trunc4(cu);
            RowView {
                price,
                bid,
                ask,
                change: signed_text(c, c),
                percentage: percent_text(c, cu, b),
                time: p.time@,
                coloring: Some(coloring_of(c)),
            }
        },
        None => RowView { price, bid, ask, time: p.time@, ..row },
    }
}

/// The row shown for `symbol`: seeded from its last quote, then overridden by
/// its live snapshot.
pub open spec fn resolved_row(
    symbol: Seq<char>,
    rd: ReferenceData,
    prices: Map<Seq<char>, RealTimePriceData>,
) -> RowView {
    let seeded = if rd.last_quote.view().contains_key(symbol) {
        let q = rd.last_quote.view()[symbol];
        quote_row(q.close@, q.change@, q.percent_change@, q.timestamp as int)
    } else {
        blank_row()
    };
    if prices.contains_key(symbol) {
        live_row(seeded, prices[symbol], baseline_of(rd, symbol))
    } else {
        seeded
    }
}

/// The name shown for a symbol: the metadata name for indices and US stocks
/// where known, else the symbol itself.
pub open spec fn symbol_name(symbol: Seq<char>, quote_type: QuoteType, rd: ReferenceData) -> Seq<char> {
    match quote_type {
        QuoteType::Indices => if rd.indices.view().contains_key(symbol) {
            rd.indices.view()[symbol].name@
        } else {
            symbol
        },
        QuoteType::USStocks => if rd.us_stocks.view().contains_key(symbol) {
            rd.us_stocks.view()[symbol].name@
        } else {
            symbol
        },
        _ => symbol,
    }
}

fn trunc4_wide(u: i128) -> (r: i128)
    requires
        -1_000_000_000_000_000_000_000_000_000_000 <= u <= 1_000_000_000_000_000_000_000_000_000_000,
    ensures
        r == trunc4(u as int),
        -1_000_000_000_000_000_000_000_000_000_000 <= r <= 1_000_000_000_000_000_000_000_000_000_000,
{
    if u >= 0 {
        assert((u / 10000) * 10000 <= u) by (nonlinear_arith)
            requires
                u >= 0,
        ;
        assert((u / 10000) * 10000 >= 0) by (nonlinear_arith)
            requires
                u >= 0,
        ;
        (u / 10000) * 10000
    } else {
        let m = -u;
        assert((m / 10000) * 10000 <= m) by (nonlinear_arith)
            requires
                m >= 0,
        ;
        assert((m / 10000) * 10000 >= 0) by (nonlinear_arith)
            requires
                m >= 0,
        ;
        -((m / 10000) * 10000)
    }
}

fn percent_wide(c: i128, b: i128) -> (r: i128)
    requires
        -100_000_000_000_000_000_000 <= c <= 100_000_000_000_000_000_000,
        -100_000_000_000_000_000_000 <= b <= 100_000_000_000_000_000_000,
        b != 0,
    ensures
        r == percent_units(c as int, b as int),
        -1_000_000_000_000_000_000_000_000_000_000 <= r <= 1_000_000_000_000_000_000_000_000_000_000,
{
    let ac: i128 = if c < 0 { -c } else { c };
    let ab: i128 = if b < 0 { -b } else { b };
    let x: i128 = ac * 100 * 100_000_000;
    assert(x / ab <= x) by (nonlinear_arith)
        requires
            x >= 0,
            ab >= 1,
    ;
    assert(x / ab >= 0) by (nonlinear_arith)
        requires
            x >= 0,
            ab >= 1,
    ;
    let q = x / ab;
    if (c < 0) != (b < 0) {
        -q
    } else {
        q
    }
}

fn signed_value_text(c: i128, v: i128) -> (r: String)
    ensures
        r@ == signed_text(c as int, v as int),
{
    if c == 0 {
        String::from_str("0.00")
    } else if c > 0 {
        let mut out = String::from_str("+");
        proof {
            reveal_strlit("+");
        }
        out.append(units_to_text(v).as_str());
        out
    } else {
        units_to_text(v)
    }
}

fn coloring_for(c: i128) -> (r: Coloring)
    ensures
        r == coloring_of(c as int),
{
    if c > 0 {
        Coloring::Positive
    } else if c < 0 {
        Coloring::Negative
    } else {
        Coloring::Flat
    }
}

fn quote_value(t: &str) -> (r: String)
    ensures
        r@ == quote_value_text(t@),
{
    match Decimal::parse(t) {
        Some(d) => units_to_text(round_f64(d).units as i128),
        None => String::new(),
    }
}

impl DisplayPriceData {
    /// A row with every cell empty.
    pub fn new() -> (r: Self)
        ensures
            r@ == blank_row(),
    {
        DisplayPriceData {
            price_value: String::new(),
            bid_value: String::new(),
            ask_value: String::new(),
            change_value: String::new(),
            percentage_value: String::new(),
            time_value: String::new(),
            coloring: None,
        }
    }
}

/// Seeds `price_data` from the last quote of `symbol`, where there is one;
/// without one the cells stay and the change colour is cleared.
pub fn fill_last_quote(price_data: &mut DisplayPriceData, symbol: &str, reference_data: &ReferenceData)
    requires
        reference_data.wf(),
    ensures
        final(price_data)@ == if reference_data.last_quote.view().contains_key(symbol@) {
            let q = reference_data.last_quote.view()[symbol@];
            quote_row(q.close@, q.change@, q.percent_change@, q.timestamp as int)
        } else {
            RowView { coloring: None, ..old(price_data)@ }
        },
{
    price_data.coloring = None;
    if let Some(q) = reference_data.last_quote.get(symbol) {
        let v = quote_value(q.close.as_str());
        price_data.price_value = v.clone();
        price_data.bid_value = v.clone();
        price_data.ask_value = v;
        price_data.time_value = display_time(q.timestamp);
        match Decimal::parse(q.change.as_str()) {
            Some(cd) => {
                let c = round_f64(cd).units as i128;
                price_data.change_value = signed_value_text(c, c);
                price_data.coloring = Some(coloring_for(c));
                if c == 0 {
                    price_data.percentage_value = String::from_str("0.00");
                } else {
                    match round_f64_str(q.percent_change.as_str()) {
                        Some(pd) => {
                            price_data.percentage_value = signed_value_text(c, pd.units as i128);
                        },
                        None => {
                            price_data.percentage_value = String::new();
                        },
                    }
                }
            },
            None => {
                price_data.change_value = String::new();
                price_data.percentage_value = String::new();
                price_data.coloring = None;
            },
        }
    }
}

/// The baseline close of `symbol`: its end-of-day close, where there is one
/// and it reads as a number.
pub fn get_eod_price(symbol: &str, reference_data: &ReferenceData) -> (r: Option<Decimal>)
    requires
        reference_data.wf(),
    ensures
        match r {
            Some(d) => baseline_of(*reference_data, symbol@) == Some(d.units as int),
            None => baseline_of(*reference_data, symbol@) is None,
        },
{
    match reference_data.end_of_day.get(symbol) {
        Some(e) => Decimal::parse(e.close.as_str()),
        None => None,
    }
}

/// Applies the live snapshot of `symbol` to `price_data`, where there is one.
pub fn fill_current_quote(
    price_data: &mut DisplayPriceData,
    symbol: &str,
    reference_data: &ReferenceData,
    prices: &SymbolMap<RealTimePriceData>,
)
    requires
        reference_data.wf(),
        prices.wf(),
    ensures
        final(price_data)@ == if prices.view().contains_key(symbol@) {
            live_row(old(price_data)@, prices.view()[symbol@], baseline_of(*reference_data, symbol@))
        } else {
            old(price_data)@
        },
{
    let eod_price = get_eod_price(symbol, reference_data);
    if let Some(p) = prices.get(symbol) {
        let price_text = units_to_text(round_f64(p.price).units as i128);
        price_data.time_value = p.time.clone();
        if p.bid.units == 0 {
            price_data.bid_value = price_text.clone();
        } else {
            price_data.bid_value = units_to_text(round_f64(p.bid).units as i128);
        }
        if p.ask.units == 0 {
            price_data.ask_value = price_text.clone();
        } else {
            price_data.ask_value = units_to_text(round_f64(p.ask).units as i128);
        }
        price_data.price_value = price_text;
        if let Some(b) = eod_price {
            let cu = p.price.units as i128 - b.units as i128;
            let c = trunc4_wide(cu);
            price_data.change_value = signed_value_text(c, c);
            price_data.percentage_value = if c == 0 {
                String::from_str("0.00")
            } else if b.units != 0 {
                signed_value_text(c, trunc4_wide(percent_wide(cu, b.units as i128)))
            } else if c > 0 {
                String::from_str("+inf")
            } else {
                String::from_str("-inf")
            };
            price_data.coloring = Some(coloring_for(c));
        }
    }
}

/// The name shown for `symbol` (see `symbol_name`).
pub fn get_symbol_name(symbol: &str, quote_type: QuoteType, reference_data: &ReferenceData) -> (r: String)
    requires
        reference_data.wf(),
    ensures
        r@ == symbol_name(symbol@, quote_type, *reference_data),
{
    match quote_type {
        QuoteType::Indices => match reference_data.indices.get(symbol) {
            Some(i) => i.name.clone(),
            None => String::from_str(symbol),
        },
        QuoteType::USStocks => match reference_data.us_stocks.get(symbol) {
            Some(s) => s.name.clone(),
            None => String::from_str(symbol),
        },
        _ => String::from_str(symbol),
    }
}

/// A resolved table row: the name shown and the price cells.
#[derive(Clone, Debug, PartialEq)]
pub struct ResolvedRow {
    pub name: String,
    pub data: DisplayPriceData,
}

/// Resolves what the table of `quote_type` shows for `symbol`, from the
/// reference data and the live snapshots.
pub fn resolve(
    symbol: &str,
    quote_type: QuoteType,
    reference_data: &ReferenceData,
    prices: &SymbolMap<RealTimePriceData>,
) -> (r: ResolvedRow)
    requires
        reference_data.wf(),
        prices.wf(),
    ensures
        r.name@ == symbol_name(symbol@, quote_type, *reference_data),
        r.data@ == resolved_row(symbol@, *reference_data, prices.view()),
{
    let name = get_symbol_name(symbol, quote_type, reference_data);
    let mut data = DisplayPriceData::new();
    fill_last_quote(&mut data, symbol, reference_data);
    fill_current_quote(&mut data, symbol, reference_data, prices);
    ResolvedRow { name, data }
}

/// A price event without a bid (or ask), that is, with zero for it, once
/// stored, resolves to a row whose bid (or ask) cell shows the price.
pub proof fn lemma_price_event_without_bid(
    before: Map<Seq<char>, RealTimePriceData>,
    after: Map<Seq<char>, RealTimePriceData>,
    m: PriceMessage,
    rd: ReferenceData,
)
    requires
        price_stored(before, after, m),
    ensures
        m.bid.units == 0 ==> resolved_row(m.symbol@, rd, after).bid == resolved_row(m.symbol@, rd, after).price,
        m.ask.units == 0 ==> resolved_row(m.symbol@, rd, after).ask == resolved_row(m.symbol@, rd, after).price,
{
    assert(after.contains_key(m.symbol@));
    lemma_zero_bid_shows_price(m.symbol@, rd, after);
}

/// A live snapshot whose bid (or ask) is zero, that is, not provided, shows
/// the price in the bid (or ask) cell.
pub proof fn lemma_zero_bid_shows_price(
    symbol: Seq<char>,
    rd: ReferenceData,
    prices: Map<Seq<char>, RealTimePriceData>,
)
    requires
        prices.contains_key(symbol),
    ensures
        prices[symbol].bid.units == 0 ==> resolved_row(symbol, rd, prices).bid == resolved_row(
            symbol,
            rd,
            prices,
        ).price,
        prices[symbol].ask.units == 0 ==> resolved_row(symbol, rd, prices).ask == resolved_row(
            symbol,
            rd,
            prices,
        ).price,
{
}

} // verus!


