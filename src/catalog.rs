//! Symbol catalogs: the instruments shown, grouped by asset class.
use linked_hash_set::LinkedHashSet;
use crate::symbol_map::str_eq;
use vstd::prelude::*;

verus! {

#[verifier::external_type_specification]
#[verifier::external_body]
#[verifier::reject_recursive_types(T)]
#[verifier::reject_recursive_types(S)]
pub struct ExLinkedHashSet<T, S>(LinkedHashSet<T, S>);

/// The symbols a `LinkedHashSet` holds, in its iteration order.
pub uninterp spec fn ordered_symbols(s: LinkedHashSet<String>) -> Seq<Seq<char>>;

/// Relies on `LinkedHashSet::new`: a new set is empty.
#[verifier::external_body]
fn new_symbol_set() -> (r: LinkedHashSet<String>)
    ensures
        ordered_symbols(r) == Seq::<Seq<char>>::empty(),
{
    LinkedHashSet::new()
}

/// Relies on `LinkedHashSet::insert`: the value is placed at the end of the
/// order, whether or not the set held it already; `true` when it did not.
#[verifier::external_body]
fn insert_symbol(set: &mut LinkedHashSet<String>, value: String) -> (r: bool)
    ensures
        r == !ordered_symbols(*old(set)).contains(value@),
        ordered_symbols(*final(set)) == ordered_symbols(*old(set)).remove_value(value@).push(value@),
{
    set.insert(value)
}

/// Relies on `LinkedHashSet::iter`: it yields the symbols in the set's order.
#[verifier::external_body]
fn symbols_of(set: &LinkedHashSet<String>) -> (r: Vec<String>)
    ensures
        r@.map_values(|x: String| x@) == ordered_symbols(*set),
{
    set.iter().cloned().collect()
}

/// Asset class of a group of instruments.
#[derive(Clone, Copy, Debug, PartialEq, Eq, Structural)]
pub enum QuoteType {
    CryptoCurrency,
    Currency,
    Indices,
    USStocks,
}

/// Layout of a quotes table: with bid and ask columns, or the price alone.
#[derive(Clone, Copy, Debug, PartialEq, Eq, Structural)]
pub enum QuotesComponentType {
    BidAsk,
    OnlyPrice,
}

impl Default for QuotesComponentType {
    fn default() -> (r: Self)
        ensures
            r == QuotesComponentType::BidAsk,
    {
        QuotesComponentType::BidAsk
    }
}

pub open spec fn crypto_symbols() -> Seq<Seq<char>> {
    seq!["EOS/USD"@, "ETH/USD"@, "LTC/USD"@, "BTC/USD"@, "ETH/BTC"@]
}

pub open spec fn currency_symbols() -> Seq<Seq<char>> {
    seq!["EUR/USD"@, "EUR/GBP"@, "USD/CNY"@, "USD/JPY"@, "GBP/CHF"@]
}

pub open spec fn index_symbols() -> Seq<Seq<char>> {
    seq![
        "DJIA"@, "DJT"@, "COMP"@, "NYA"@, "SPX"@, "MID"@, "OEX"@, "NDX"@, "UKX"@, "FCHI"@, "DAX"@,
    ]
}

pub open spec fn us_stock_symbols() -> Seq<Seq<char>> {
    seq![
        "MSFT"@, "AAPL"@, "NVDA"@, "GOOGL"@, "AMZN"@, "META"@, "AVGO"@, "JPM"@, "TSLA"@, "WMT"@,
        "XOM"@,
    ]
}

/// The catalog of an asset class, in display order.
pub open spec fn catalog(quote_type: QuoteType) -> Seq<Seq<char>> {
    match quote_type {
        QuoteType::CryptoCurrency => crypto_symbols(),
        QuoteType::Currency => currency_symbols(),
        QuoteType::Indices => index_symbols(),
        QuoteType::USStocks => us_stock_symbols(),
    }
}

/// `acc` followed by the elements of `s` that are not already present, each once.
pub open spec fn append_new(acc: Seq<Seq<char>>, s: Seq<Seq<char>>) -> Seq<Seq<char>>
    decreases s.len(),
{
    if s.len() == 0 {
        acc
    } else {
        let prev = append_new(acc, s.drop_last());
        if prev.contains(s.last()) {
            prev
        } else {
            prev.push(s.last())
        }
    }
}

/// All catalogs together, in catalog order, each symbol once.
pub open spec fn all_symbols() -> Seq<Seq<char>> {
    append_new(
        append_new(
            append_new(append_new(Seq::empty(), crypto_symbols()), currency_symbols()),
            index_symbols(),
        ),
        us_stock_symbols(),
    )
}

/// The first three characters and the fifth, which tell the catalog symbols apart.
spec fn sig(s: Seq<char>) -> (char, char, char, char) {
    (s[0], s[1], s[2], if s.len() > 4 { s[4] } else { ' ' })
}

proof fn lemma_distinct_by_sig(l: Seq<Seq<char>>)
    requires
        forall|i: int, j: int| 0 <= i < j < l.len() ==> sig(l[i]) != sig(l[j]),
    ensures
        l.no_duplicates(),
{
    assert forall|i: int, j: int| 0 <= i < l.len() && 0 <= j < l.len() && i != j implies l[i] != l[j] by {
        if i < j {
            assert(sig(l[i]) != sig(l[j]));
        } else {
            assert(sig(l[j]) != sig(l[i]));
        }
    }
}

/// No catalog names a symbol twice.
proof fn lemma_catalogs_distinct()
    ensures
        crypto_symbols().no_duplicates(),
        currency_symbols().no_duplicates(),
        index_symbols().no_duplicates(),
        us_stock_symbols().no_duplicates(),
{
    reveal_strlit("EOS/USD");
    reveal_strlit("ETH/USD");
    reveal_strlit("LTC/USD");
    reveal_strlit("BTC/USD");
    reveal_strlit("ETH/BTC");
    reveal_strlit("EUR/USD");
    reveal_strlit("EUR/GBP");
    reveal_strlit("USD/CNY");
    reveal_strlit("USD/JPY");
    reveal_strlit("GBP/CHF");
    reveal_strlit("DJIA");
    reveal_strlit("DJT");
    reveal_strlit("COMP");
    reveal_strlit("NYA");
    reveal_strlit("SPX");
    reveal_strlit("MID");
    reveal_strlit("OEX");
    reveal_strlit("NDX");
    reveal_strlit("UKX");
    reveal_strlit("FCHI");
    reveal_strlit("DAX");
    reveal_strlit("MSFT");
    reveal_strlit("AAPL");
    reveal_strlit("NVDA");
    reveal_strlit("GOOGL");
    reveal_strlit("AMZN");
    reveal_strlit("META");
    reveal_strlit("AVGO");
    reveal_strlit("JPM");
    reveal_strlit("TSLA");
    reveal_strlit("WMT");
    reveal_strlit("XOM");
    assert forall|i: int, j: int| 0 <= i < j < 5 implies sig(crypto_symbols()[i]) != sig(crypto_symbols()[j]) by {
        assert(i == 0 || i == 1 || i == 2 || i == 3);
        assert(j == 1 || j == 2 || j == 3 || j == 4);
    }
    lemma_distinct_by_sig(crypto_symbols());
    assert forall|i: int, j: int| 0 <= i < j < 5 implies sig(currency_symbols()[i]) != sig(currency_symbols()[j]) by {
        assert(i == 0 || i == 1 || i == 2 || i == 3);
        assert(j == 1 || j == 2 || j == 3 || j == 4);
    }
    lemma_distinct_by_sig(currency_symbols());
    assert forall|i: int, j: int| 0 <= i < j < 11 implies sig(index_symbols()[i]) != sig(index_symbols()[j]) by {
        assert(i == 0 || i == 1 || i == 2 || i == 3 || i == 4 || i == 5 || i == 6 || i == 7 || i == 8 || i == 9);
        assert(j == 1 || j == 2 || j == 3 || j == 4 || j == 5 || j == 6 || j == 7 || j == 8 || j == 9 || j == 10);
    }
    lemma_distinct_by_sig(index_symbols());
    assert forall|i: int, j: int| 0 <= i < j < 11 implies sig(us_stock_symbols()[i]) != sig(us_stock_symbols()[j]) by {
        assert(i == 0 || i == 1 || i == 2 || i == 3 || i == 4 || i == 5 || i == 6 || i == 7 || i == 8 || i == 9);
        assert(j == 1 || j == 2 || j == 3 || j == 4 || j == 5 || j == 6 || j == 7 || j == 8 || j == 9 || j == 10);
    }
    lemma_distinct_by_sig(us_stock_symbols());
}

/// Builds a set from distinct symbols, in order.
fn set_of(symbols: &[&str]) -> (r: LinkedHashSet<String>)
    requires
        symbols@.map_values(|x: &str| x@).no_duplicates(),
    ensures
        ordered_symbols(r) == symbols@.map_values(|x: &str| x@),
{
    let ghost views = symbols@.map_values(|x: &str| x@);
    let mut set = new_symbol_set();
    let mut i: usize = 0;
    while i < symbols.len()
        invariant
            i <= symbols@.len(),
            views == symbols@.map_values(|x: &str| x@),
            views.no_duplicates(),
            ordered_symbols(set) == views.take(i as int),
        decreases symbols@.len() - i,
    {
        let ghost before = ordered_symbols(set);
        let v = String::from_str(symbols[i]);
        proof {
            assert(v@ == views[i as int]);
            if before.contains(v@) {
                let j = choose|j: int| 0 <= j < before.len() && before[j] == v@;
                assert(views[j] == views[i as int]);
            }
            before.index_of_first_ensures(v@);
        }
        insert_symbol(&mut set, v);
        assert(views.take(i + 1) =~= views.take(i as int).push(views[i as int]));
        i = i + 1;
    }
    assert(views.take(i as int) =~= views);
    set
}

/// Dashboard display configuration.
pub struct DashboardConfiguration;

impl DashboardConfiguration {
    /// Cryptocurrency block.
    pub fn get_crypto_currencies_symbols() -> (r: LinkedHashSet<String>)
        ensures
            ordered_symbols(r) == crypto_symbols(),
    {
        let list = ["EOS/USD", "ETH/USD", "LTC/USD", "BTC/USD", "ETH/BTC"];
        proof {
            assert(list@.map_values(|x: &str| x@) =~= crypto_symbols());
            lemma_catalogs_distinct();
        }
        set_of(&list)
    }

    /// Currency block.
    pub fn get_currencies_symbols() -> (r: LinkedHashSet<String>)
        ensures
            ordered_symbols(r) == currency_symbols(),
    {
        let list = ["EUR/USD", "EUR/GBP", "USD/CNY", "USD/JPY", "GBP/CHF"];
        proof {
            assert(list@.map_values(|x: &str| x@) =~= currency_symbols());
            lemma_catalogs_distinct();
        }
        set_of(&list)
    }

    /// Indices block.
    pub fn get_indices_symbols() -> (r: LinkedHashSet<String>)
        ensures
            ordered_symbols(r) == index_symbols(),
    {
        let list = ["DJIA", "DJT", "COMP", "NYA", "SPX", "MID", "OEX", "NDX", "UKX", "FCHI", "DAX"];
        proof {
            assert(list@.map_values(|x: &str| x@) =~= index_symbols());
            lemma_catalogs_distinct();
        }
        set_of(&list)
    }

    /// US stocks block.
    pub fn get_us_stocks() -> (r: LinkedHashSet<String>)
        ensures
            ordered_symbols(r) == us_stock_symbols(),
    {
        let list = ["MSFT", "AAPL", "NVDA", "GOOGL", "AMZN", "META", "AVGO", "JPM", "TSLA", "WMT", "XOM"];
        proof {
            assert(list@.map_values(|x: &str| x@) =~= us_stock_symbols());
            lemma_catalogs_distinct();
        }
        set_of(&list)
    }

    /// The catalog of an asset class.
    pub fn get_quote_symbols(quote_type: QuoteType) -> (r: LinkedHashSet<String>)
        ensures
            ordered_symbols(r) == catalog(quote_type),
    {
        match quote_type {
            QuoteType::CryptoCurrency => Self::get_crypto_currencies_symbols(),
            QuoteType::Currency => Self::get_currencies_symbols(),
            QuoteType::Indices => Self::get_indices_symbols(),
            QuoteType::USStocks => Self::get_us_stocks(),
        }
    }

    /// The symbols of all catalogs together, in catalog order, each once.
    pub fn get_all_quote_symbols() -> (r: Vec<String>)
        ensures
            r@.map_values(|x: String| x@) == all_symbols(),
            r@.map_values(|x: String| x@).no_duplicates(),
    {
        let mut out: Vec<String> = Vec::new();
        assert(out@.map_values(|x: String| x@) =~= Seq::<Seq<char>>::empty());
        append_new_into(&mut out, &symbols_of(&Self::get_crypto_currencies_symbols()));
        append_new_into(&mut out, &symbols_of(&Self::get_currencies_symbols()));
        append_new_into(&mut out, &symbols_of(&Self::get_indices_symbols()));
        append_new_into(&mut out, &symbols_of(&Self::get_us_stocks()));
        out
    }
}

/// Whether `list` holds a string with the characters of `s`.
fn contains_symbol(list: &Vec<String>, s: &str) -> (r: bool)
    ensures
        r == list@.map_values(|x: String| x@).contains(s@),
{
    let ghost views = list@.map_values(|x: String| x@);
    let mut i: usize = 0;
    while i < list.len()
        invariant
            i <= list@.len(),
            views == list@.map_values(|x: String| x@),
            forall|j: int| 0 <= j < i ==> views[j] != s@,
        decreases list@.len() - i,
    {
        if str_eq(list[i].as_str(), s) {
            assert(views[i as int] == s@);
            return true;
        }
        i = i + 1;
    }
    false
}

/// Appends to `out` each symbol of `s` that it does not hold yet.
fn append_new_into(out: &mut Vec<String>, s: &Vec<String>)
    ensures
        final(out)@.map_values(|x: String| x@) == append_new(
            old(out)@.map_values(|x: String| x@),
            s@.map_values(|x: String| x@),
        ),
        old(out)@.map_values(|x: String| x@).no_duplicates() ==> final(out)@.map_values(
            |x: String| x@,
        ).no_duplicates(),
{
    let ghost start = out@.map_values(|x: String| x@);
    let ghost sv = s@.map_values(|x: String| x@);
    let mut i: usize = 0;
    while i < s.len()
        invariant
            i <= s@.len(),
            sv == s@.map_values(|x: String| x@),
            out@.map_values(|x: String| x@) == append_new(start, sv.take(i as int)),
            start.no_duplicates() ==> out@.map_values(|x: String| x@).no_duplicates(),
        decreases s@.len() - i,
    {
        assert(sv.take(i + 1).drop_last() =~= sv.take(i as int));
        assert(sv.take(i + 1).last() == s@[i as int]@);
        if !contains_symbol(out, s[i].as_str()) {
            let ghost before = out@.map_values(|x: String| x@);
            out.push(s[i].clone());
            assert(out@.map_values(|x: String| x@) =~= before.push(s@[i as int]@));
        }
        i = i + 1;
    }
    assert(sv.take(i as int) =~= sv);
}

/// Symbols joined with commas.
pub open spec fn join_symbols(s: Seq<Seq<char>>) -> Seq<char>
    decreases s.len(),
{
    if s.len() == 0 {
        Seq::empty()
    } else if s.len() == 1 {
        s[0]
    } else {
        join_symbols(s.drop_last()) + seq![','] + s.last()
    }
}

/// Concatenates symbol names with commas, for requests that name several symbols.
pub fn prepare_symbols_for_url(symbols: &Vec<String>) -> (r: String)
    ensures
        r@ == join_symbols(symbols@.map_values(|x: String| x@)),
{
    let ghost sv = symbols@.map_values(|x: String| x@);
    let mut out = String::new();
    let mut i: usize = 0;
    proof {
        reveal_strlit(",");
        assert(sv.take(0) =~= Seq::<Seq<char>>::empty());
    }
    while i < symbols.len()
        invariant
            i <= symbols@.len(),
            sv == symbols@.map_values(|x: String| x@),
            out@ == join_symbols(sv.take(i as int)),
            ","@ == seq![','],
        decreases symbols@.len() - i,
    {
        assert(sv.take(i + 1).drop_last() =~= sv.take(i as int));
        if i > 0 {
            out.append(",");
        }
        out.append(symbols[i].as_str());
        assert(out@ =~= join_symbols(sv.take(i + 1)));
        i = i + 1;
    }
    assert(sv.take(i as int) =~= sv);
    out
}

/// The comma-separated fields of a text; at least one, possibly empty.
pub open spec fn split_fields(t: Seq<char>) -> Seq<Seq<char>>
    decreases t.len(),
{
    if t.len() == 0 {
        seq![Seq::empty()]
    } else {
        let f = split_fields(t.drop_last());
        if t.last() == ',' {
            f.push(Seq::empty())
        } else {
            f.update(f.len() - 1, f.last().push(t.last()))
        }
    }
}

/// The symbols named by a comma-separated list; none for an empty text.
pub open spec fn split_symbols(t: Seq<char>) -> Seq<Seq<char>> {
    if t.len() == 0 {
        Seq::empty()
    } else {
        split_fields(t)
    }
}

proof fn lemma_fields_nonempty(t: Seq<char>)
    ensures
        split_fields(t).len() >= 1,
    decreases t.len(),
{
    if t.len() > 0 {
        lemma_fields_nonempty(t.drop_last());
    }
}

/// Appending comma-free text extends the last field.
proof fn lemma_fields_append(a: Seq<char>, b: Seq<char>)
    requires
        !b.contains(','),
    ensures
        split_fields(a + b) == split_fields(a).update(
            split_fields(a).len() - 1,
            split_fields(a).last() + b,
        ),
    decreases b.len(),
{
    lemma_fields_nonempty(a);
    let f = split_fields(a);
    if b.len() == 0 {
        assert(a + b =~= a);
        assert(f.last() + b =~= f.last());
        assert(f.update(f.len() - 1, f.last()) =~= f);
    } else {
        let b1 = b.drop_last();
        assert(!b1.contains(',')) by {
            if b1.contains(',') {
                let i = choose|i: int| 0 <= i < b1.len() && b1[i] == ',';
                assert(b[i] == ',');
            }
        }
        lemma_fields_append(a, b1);
        assert((a + b).drop_last() =~= a + b1);
        assert((a + b).last() == b.last());
        assert(b.last() != ',') by {
            assert(b[b.len() - 1] == b.last());
        }
        let f2 = split_fields(a + b1);
        assert(f2.len() == f.len());
        assert(f2.last() == f.last() + b1);
        assert(split_fields(a + b) == f2.update(f2.len() - 1, f2.last().push(b.last())));
        assert((f.last() + b1).push(b.last()) =~= f.last() + b);
        assert(split_fields(a + b) =~= f.update(f.len() - 1, f.last() + b));
    }
}

proof fn lemma_join_nonempty(s: Seq<Seq<char>>)
    requires
        s.len() > 0,
        s[0].len() > 0,
    ensures
        join_symbols(s).len() > 0,
    decreases s.len(),
{
    if s.len() > 1 {
        lemma_join_nonempty(s.drop_last());
    }
}

/// Joining symbols with commas and splitting the text at its commas gives back
/// the same symbols, in the same order, provided no symbol is empty or holds a
/// comma; so the set of symbols is kept too.
pub proof fn lemma_symbols_round_trip(s: Seq<Seq<char>>)
    requires
        forall|i: int| 0 <= i < s.len() ==> (#[trigger] s[i]).len() > 0 && !s[i].contains(','),
    ensures
        split_symbols(join_symbols(s)) == s,
        split_symbols(join_symbols(s)).to_set() == s.to_set(),
    decreases s.len(),
{
    if s.len() == 1 {
        lemma_fields_append(Seq::empty(), s[0]);
        assert(Seq::<char>::empty() + s[0] =~= s[0]);
        assert(split_fields(s[0]) =~= s);
    } else if s.len() > 1 {
        let p = s.drop_last();
        lemma_symbols_round_trip(p);
        lemma_join_nonempty(p);
        lemma_join_nonempty(s);
        let jp = join_symbols(p);
        assert(split_fields(jp + seq![',']) == split_fields(jp).push(Seq::empty())) by {
            assert((jp + seq![',']).drop_last() =~= jp);
        }
        assert(s.last() == s[s.len() - 1]);
        lemma_fields_append(jp + seq![','], s.last());
        assert(Seq::<char>::empty() + s.last() =~= s.last());
        assert(split_fields(join_symbols(s)) =~= s);
    }
}

} // verus!
