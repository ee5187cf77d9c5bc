//! Reference data and real-time price records.
use crate::decimal::Decimal;
use crate::symbol_map::SymbolMap;
use vstd::prelude::*;

verus! {

/// End-of-day close of an instrument.
#[derive(Clone, Debug, PartialEq)]
pub struct EndOfDay {
    /// Symbol ticker of the instrument.
    pub symbol: String,
    /// Exchange where the instrument is traded.
    pub exchange: String,
    /// Date of the bar.
    pub datetime: String,
    /// Unix time of the bar.
    pub timestamp: i64,
    /// Closing price, as decimal text.
    pub close: String,
}

/// Collection of 52-week metrics.
#[derive(Clone, Debug, PartialEq)]
pub struct FiftyTwoWeek {
    pub low: String,
    pub high: String,
    pub low_change: String,
    pub high_change: String,
    pub low_change_percent: String,
    pub high_change_percent: String,
    pub range: String,
}

/// Last officially published quote of an instrument.
#[derive(Clone, Debug, PartialEq)]
pub struct Quote {
    /// Symbol ticker of the instrument.
    pub symbol: String,
    /// Name of the instrument.
    pub name: String,
    /// Exchange where the instrument is traded.
    pub exchange: String,
    /// Market identifier code (ISO 10383).
    pub mic_code: String,
    /// Trading currency.
    pub currency: String,
    /// Date of the bar.
    pub datetime: String,
    /// Unix time of the last price.
    pub timestamp: i64,
    /// Opening price of the bar.
    pub open: String,
    /// Highest price of the bar.
    pub high: String,
    /// Lowest price of the bar.
    pub low: String,
    /// Closing price of the bar.
    pub close: String,
    /// Trading volume of the bar.
    pub volume: String,
    /// Closing price of the previous bar.
    pub previous_close: String,
    /// `close - previous_close`.
    pub change: String,
    /// `(close - previous_close) / previous_close * 100`.
    pub percent_change: String,
    /// Average volume.
    pub average_volume: String,
    /// Whether the market is open.
    pub is_market_open: bool,
    /// 52-week metrics.
    pub fifty_two_week: FiftyTwoWeek,
    /// One-day rolling change, for crypto.
    pub rolling_1d_change: String,
    /// Seven-day rolling change, for crypto.
    pub rolling_7d_change: String,
    /// Rolling change over the requested period, for crypto.
    pub rolling_period_change: String,
    /// Difference between the regular close and the latest extended price.
    pub extended_change: String,
    /// Percent difference between the regular close and the latest extended price.
    pub extended_percent_change: String,
    /// Latest extended price.
    pub extended_price: String,
    /// Unix time of the latest extended price.
    pub extended_timestamp: String,
}

/// Metadata of an index.
#[derive(Clone, Debug, PartialEq)]
pub struct Indices {
    /// Instrument symbol.
    pub symbol: String,
    /// Full name of the instrument.
    pub name: String,
    /// Country of the index.
    pub country: String,
    /// Trading currency (ISO 4217).
    pub currency: String,
    /// Exchange where the instrument is traded.
    pub exchange: String,
    /// Market identifier code (ISO 10383).
    pub mic_code: String,
}

/// Metadata of a stock.
#[derive(Clone, Debug, PartialEq)]
pub struct Stock {
    /// Instrument symbol.
    pub symbol: String,
    /// Name of the instrument.
    pub name: String,
    /// Country of the stock.
    pub country: String,
    /// Trading currency (ISO 4217).
    pub currency: String,
    /// Exchange where the instrument is traded.
    pub exchange: String,
    /// Market identifier code (ISO 10383).
    pub mic_code: String,
}

/// List of indices as the reference service returns it.
#[derive(Clone, Debug, PartialEq)]
pub struct IndicesReferenceData {
    pub data: Vec<Indices>,
    pub status: String,
    pub count: u64,
}

/// List of US stocks as the reference service returns it.
#[derive(Clone, Debug, PartialEq)]
pub struct UsStocksReferenceData {
    pub data: Vec<Stock>,
    pub status: String,
    pub count: u64,
}


impl Indices {
    /// A copy of this record.
    pub fn duplicate(&self) -> (r: Self)
        ensures
            r == *self,
    {
        Indices {
            symbol: self.symbol.clone(),
            name: self.name.clone(),
            country: self.country.clone(),
            currency: self.currency.clone(),
            exchange: self.exchange.clone(),
            mic_code: self.mic_code.clone(),
        }
    }
}

/// Records keyed by symbol; of two records with one symbol the later one counts.
pub open spec fn indices_by_symbol(s: Seq<Indices>) -> Map<Seq<char>, Indices>
    decreases s.len(),
{
    if s.len() == 0 {
        Map::empty()
    } else {
        indices_by_symbol(s.drop_last()).insert(s.last().symbol@, s.last())
    }
}

impl IndicesReferenceData {
    /// The listed records keyed by symbol (see `indices_by_symbol`).
    pub fn by_symbol(&self) -> (r: SymbolMap<Indices>)
        ensures
            r.wf(),
            r.view() == indices_by_symbol(self.data@),
    {
        let mut out: SymbolMap<Indices> = SymbolMap::new();
        let mut i: usize = 0;
        while i < self.data.len()
            invariant
                i <= self.data@.len(),
                out.wf(),
                out.view() == indices_by_symbol(self.data@.take(i as int)),
            decreases self.data@.len() - i,
        {
            assert(self.data@.take(i + 1).drop_last() =~= self.data@.take(i as int));
            let item = &self.data[i];
            out.insert(item.symbol.clone(), item.duplicate());
            i = i + 1;
        }
        assert(self.data@.take(i as int) =~= self.data@);
        out
    }
}

impl Stock {
    /// A copy of this record.
    pub fn duplicate(&self) -> (r: Self)
        ensures
            r == *self,
    {
        Stock {
            symbol: self.symbol.clone(),
            name: self.name.clone(),
            country: self.country.clone(),
            currency: self.currency.clone(),
            exchange: self.exchange.clone(),
            mic_code: self.mic_code.clone(),
        }
    }
}

/// Records keyed by symbol; of two records with one symbol the later one counts.
pub open spec fn stocks_by_symbol(s: Seq<Stock>) -> Map<Seq<char>, Stock>
    decreases s.len(),
{
    if s.len() == 0 {
        Map::empty()
    } else {
        stocks_by_symbol(s.drop_last()).insert(s.last().symbol@, s.last())
    }
}

impl UsStocksReferenceData {
    /// The listed records keyed by symbol (see `stocks_by_symbol`).
    pub fn by_symbol(&self) -> (r: SymbolMap<Stock>)
        ensures
            r.wf(),
            r.view() == stocks_by_symbol(self.data@),
    {
        let mut out: SymbolMap<Stock> = SymbolMap::new();
        let mut i: usize = 0;
        while i < self.data.len()
            invariant
                i <= self.data@.len(),
                out.wf(),
                out.view() == stocks_by_symbol(self.data@.take(i as int)),
            decreases self.data@.len() - i,
        {
            assert(self.data@.take(i + 1).drop_last() =~= self.data@.take(i as int));
            let item = &self.data[i];
            out.insert(item.symbol.clone(), item.duplicate());
            i = i + 1;
        }
        assert(self.data@.take(i as int) =~= self.data@);
        out
    }
}

/// Reference data of a session, fetched once and read-only afterwards.
#[derive(Clone, Debug)]
pub struct ReferenceData {
    /// Index metadata by symbol.
    pub indices: SymbolMap<Indices>,
    /// US stock metadata by symbol.
    pub us_stocks: SymbolMap<Stock>,
    /// End-of-day closes by symbol.
    pub end_of_day: SymbolMap<EndOfDay>,
    /// Last quotes by symbol.
    pub last_quote: SymbolMap<Quote>,
}

impl ReferenceData {
    /// Each of the four maps is well formed.
    pub open spec fn wf(&self) -> bool {
        &&& self.indices.wf()
        &&& self.us_stocks.wf()
        &&& self.end_of_day.wf()
        &&& self.last_quote.wf()
    }

    /// Reference data with no entries.
    pub fn new() -> (r: Self)
        ensures
            r.wf(),
            r.indices.view() == Map::<Seq<char>, Indices>::empty(),
            r.us_stocks.view() == Map::<Seq<char>, Stock>::empty(),
            r.end_of_day.view() == Map::<Seq<char>, EndOfDay>::empty(),
            r.last_quote.view() == Map::<Seq<char>, Quote>::empty(),
    {
        ReferenceData {
            indices: SymbolMap::new(),
            us_stocks: SymbolMap::new(),
            end_of_day: SymbolMap::new(),
            last_quote: SymbolMap::new(),
        }
    }
}

/// Properties of the dashboard: the session's reference data.
#[derive(Clone, Debug)]
pub struct DashboardComponentProps {
    pub reference_data: ReferenceData,
}

/// A real-time price event as the feed sends it; absent fields hold zero or
/// the empty string.
#[derive(Clone, Debug, PartialEq)]
pub struct PriceMessage {
    /// Kind of event.
    pub event: String,
    /// Symbol ticker of the instrument.
    pub symbol: String,
    /// Base currency.
    pub currency_base: String,
    /// Quote currency.
    pub currency_quote: String,
    /// Exchange.
    pub exchange: String,
    /// Unix time of the price.
    pub timestamp: i64,
    /// Real-time price.
    pub price: Decimal,
    /// Bid price; zero when not provided.
    pub bid: Decimal,
    /// Ask price; zero when not provided.
    pub ask: Decimal,
    /// Day volume.
    pub day_volume: Decimal,
}

/// The latest real-time price of a symbol.
#[derive(Clone, Debug, PartialEq)]
pub struct RealTimePriceData {
    /// Symbol ticker of the instrument.
    pub symbol: String,
    /// Price.
    pub price: Decimal,
    /// Bid price; zero when the feed did not provide it.
    pub bid: Decimal,
    /// Ask price; zero when the feed did not provide it.
    pub ask: Decimal,
    /// Local time of the price, `HH:MM:SS`.
    pub time: String,
}

impl RealTimePriceData {
    /// A copy of this snapshot.
    pub fn duplicate(&self) -> (r: Self)
        ensures
            r == *self,
    {
        RealTimePriceData {
            symbol: self.symbol.clone(),
            price: self.price,
            bid: self.bid,
            ask: self.ask,
            time: self.time.clone(),
        }
    }
}

} // verus!
