//! The price store and the routing of inbound frames into it.
use crate::clock::{display_time, time_text};
use crate::entities::{PriceMessage, RealTimePriceData};
use crate::protocol::{classify_event, event_kind, WSResponseEventType};
use crate::symbol_map::SymbolMap;
use vstd::prelude::*;

verus! {

/// The latest real-time price of each symbol seen since the connection opened.
pub struct PriceStore {
    prices: SymbolMap<RealTimePriceData>,
}

impl PriceStore {
    /// The stored symbols are distinct.
    pub closed spec fn wf(&self) -> bool {
        self.prices.wf()
    }

    /// The snapshot of each symbol.
    pub closed spec fn view(&self) -> Map<Seq<char>, RealTimePriceData> {
        self.prices.view()
    }

    /// An empty store.
    pub fn new() -> (r: Self)
        ensures
            r.wf(),
            r.view() == Map::<Seq<char>, RealTimePriceData>::empty(),
    {
        PriceStore { prices: SymbolMap::new() }
    }

    /// Replaces the snapshot of `symbol` with `data`, or adds it.
    pub fn upsert(&mut self, symbol: String, data: RealTimePriceData)
        requires
            old(self).wf(),
        ensures
            final(self).wf(),
            final(self).view() == old(self).view().insert(symbol@, data),
    {
        self.prices.insert(symbol, data);
    }

    /// The snapshot of `symbol`, if one was stored.
    pub fn get(&self, symbol: &str) -> (r: Option<&RealTimePriceData>)
        requires
            self.wf(),
        ensures
            match r {
                Some(v) => self.view().contains_key(symbol@) && self.view()[symbol@] == *v,
                None => !self.view().contains_key(symbol@),
            },
    {
        self.prices.get(symbol)
    }

    /// The store holds finitely many symbols.
    pub proof fn lemma_finite(&self)
        requires
            self.wf(),
        ensures
            self.view().dom().finite(),
    {
        self.prices.lemma_finite();
    }

    /// Number of symbols with a snapshot.
    pub fn len(&self) -> (r: usize)
        requires
            self.wf(),
        ensures
            r == self.view().dom().len(),
    {
        self.prices.len()
    }

    /// The snapshots of the given symbols that the store holds.
    pub fn snapshot_for(&self, symbols: &Vec<String>) -> (r: SymbolMap<RealTimePriceData>)
        requires
            self.wf(),
        ensures
            r.wf(),
            r.view() == self.view().restrict(symbols@.map_values(|x: String| x@).to_set()),
    {
        let ghost sv = symbols@.map_values(|x: String| x@);
        let mut out: SymbolMap<RealTimePriceData> = SymbolMap::new();
        let mut i: usize = 0;
        while i < symbols.len()
            invariant
                self.wf(),
                out.wf(),
                i <= symbols@.len(),
                sv == symbols@.map_values(|x: String| x@),
                out.view() == self.view().restrict(sv.take(i as int).to_set()),
            decreases symbols@.len() - i,
        {
            proof {
                assert(sv.take(i + 1) =~= sv.take(i as int).push(sv[i as int]));
                sv.take(i as int).lemma_push_to_set_commute(sv[i as int]);
            }
            match self.prices.get(symbols[i].as_str()) {
                Some(v) => {
                    out.insert(symbols[i].clone(), v.duplicate());
                    assert(out.view() =~= self.view().restrict(sv.take(i + 1).to_set()));
                },
                None => {
                    assert(out.view() =~= self.view().restrict(sv.take(i + 1).to_set()));
                },
            }
            i = i + 1;
        }
        assert(sv.take(i as int) =~= sv);
        out
    }
}

/// Upserting one symbol twice leaves a single entry for it, holding the
/// second snapshot; the other entries are untouched.
pub proof fn lemma_upsert_twice(
    store: PriceStore,
    symbol: Seq<char>,
    first: RealTimePriceData,
    second: RealTimePriceData,
)
    requires
        store.wf(),
    ensures
        store.view().insert(symbol, first).insert(symbol, second) == store.view().insert(symbol, second),
        store.view().insert(symbol, first).insert(symbol, second).dom() == store.view().dom().insert(symbol),
        store.view().insert(symbol, first).insert(symbol, second)[symbol] == second,
{
    assert(store.view().insert(symbol, first).insert(symbol, second) =~= store.view().insert(symbol, second));
}

/// An inbound frame, decoded as far as its text allows.
#[derive(Clone, Debug)]
pub enum InboundFrame {
    /// A text frame: the event that its envelope names (`None` when the text
    /// is no envelope or names no event) and, where the frame reads as a
    /// price event, that event.
    Text { event: Option<String>, price: Option<PriceMessage> },
    /// A binary frame, which the protocol does not use.
    Binary,
}

/// What handling a frame reports to the observer.
#[derive(Clone, Copy, Debug, PartialEq, Eq, Structural)]
pub enum FrameReport {
    /// A subscription status event.
    SubscribeStatus,
    /// A price event that updated the store.
    PriceUpdated,
    /// A price event whose payload could not be read; the store is unchanged.
    MalformedPrice,
    /// A heartbeat event.
    Heartbeat,
    /// An event of another kind.
    Unknown,
    /// A binary frame: a protocol error.
    ProtocolError,
}

/// The kind of a text frame's event; a frame that names none is `Unknown`.
pub open spec fn frame_kind(event: Option<String>) -> WSResponseEventType {
    match event {
        Some(e) => event_kind(e@),
        None => WSResponseEventType::Unknown,
    }
}

/// `after` is `before` with the snapshot of the price event `m` stored under
/// its symbol: price, bid and ask as sent, and the local time of its
/// timestamp. Every other symbol keeps its entry.
pub open spec fn price_stored(
    before: Map<Seq<char>, RealTimePriceData>,
    after: Map<Seq<char>, RealTimePriceData>,
    m: PriceMessage,
) -> bool {
    &&& after.dom() == before.dom().insert(m.symbol@)
    &&& forall|k: Seq<char>| k != m.symbol@ ==> #[trigger] after.get(k) == before.get(k)
    &&& after[m.symbol@].symbol == m.symbol
    &&& after[m.symbol@].price == m.price
    &&& after[m.symbol@].bid == m.bid
    &&& after[m.symbol@].ask == m.ask
    &&& after[m.symbol@].time@ == time_text(m.timestamp as int)
}

/// Two price events for one symbol, handled in turn, leave one entry for it
/// that holds the second event's values; the store gains at most one entry.
pub proof fn lemma_second_price_event_wins(
    s0: Map<Seq<char>, RealTimePriceData>,
    s1: Map<Seq<char>, RealTimePriceData>,
    s2: Map<Seq<char>, RealTimePriceData>,
    m1: PriceMessage,
    m2: PriceMessage,
)
    requires
        s0.dom().finite(),
        m1.symbol@ == m2.symbol@,
        price_stored(s0, s1, m1),
        price_stored(s1, s2, m2),
    ensures
        price_stored(s0, s2, m2),
        s2.dom().len() <= s0.dom().len() + 1,
{
    assert(s2.dom() =~= s0.dom().insert(m2.symbol@));
    assert forall|k: Seq<char>| k != m2.symbol@ implies #[trigger] s2.get(k) == s0.get(k) by {
        assert(s2.get(k) == s1.get(k));
        assert(s1.get(k) == s0.get(k));
    }
}

/// Handles one inbound frame: a price event stores its snapshot; every other
/// frame leaves the store as it was. No frame ends the receive loop.
pub fn handle_frame(store: &mut PriceStore, frame: InboundFrame) -> (r: FrameReport)
    requires
        old(store).wf(),
    ensures
        final(store).wf(),
        match frame {
            InboundFrame::Binary => r == FrameReport::ProtocolError && final(store).view() == old(
                store,
            ).view(),
            InboundFrame::Text { event, price } => match frame_kind(event) {
                WSResponseEventType::Price => match price {
                    Some(m) => r == FrameReport::PriceUpdated && price_stored(
                        old(store).view(),
                        final(store).view(),
                        m,
                    ),
                    None => r == FrameReport::MalformedPrice && final(store).view() == old(store).view(),
                },
                WSResponseEventType::SubscribeStatus => r == FrameReport::SubscribeStatus
                    && final(store).view() == old(store).view(),
                WSResponseEventType::Heartbeat => r == FrameReport::Heartbeat && final(store).view()
                    == old(store).view(),
                WSResponseEventType::Unknown => r == FrameReport::Unknown && final(store).view() == old(
                    store,
                ).view(),
            },
        },
{
    match frame {
        InboundFrame::Binary => FrameReport::ProtocolError,
        InboundFrame::Text { event, price } => match match event {
            Some(e) => classify_event(e.as_str()),
            None => WSResponseEventType::Unknown,
        } {
            WSResponseEventType::Price => match price {
                Some(m) => {
                    let data = RealTimePriceData {
                        symbol: m.symbol.clone(),
                        price: m.price,
                        bid: m.bid,
                        ask: m.ask,
                        time: display_time(m.timestamp),
                    };
                    store.upsert(m.symbol, data);
                    FrameReport::PriceUpdated
                },
                None => FrameReport::MalformedPrice,
            },
            WSResponseEventType::SubscribeStatus => FrameReport::SubscribeStatus,
            WSResponseEventType::Heartbeat => FrameReport::Heartbeat,
            WSResponseEventType::Unknown => FrameReport::Unknown,
        },
    }
}

} // verus!
