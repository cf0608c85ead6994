//! The stages of the pipeline: normalising the extract's rows, splitting them
//! into option and futures quotes, joining each option to its futures quote,
//! and selecting the inputs of each implied-volatility solve.
use vstd::prelude::*;
use crate::date::{date_value, parse_date};
use crate::price::{is_decimal, Price};

verus! {

/// Whether `a` and `b` hold the same characters.
pub fn text_eq(a: &str, b: &str) -> (r: bool)
    ensures
        r == (a@ == b@),
{
    let n = a.unicode_len();
    if n != b.unicode_len() {
        return false;
    }
    let mut i: usize = 0;
    while i < n
        invariant
            n == a@.len(),
            n == b@.len(),
            i <= n,
            forall|j: int| 0 <= j < i ==> a@[j] == b@[j],
        decreases n - i,
    {
        if a.get_char(i) != b.get_char(i) {
            return false;
        }
        i = i + 1;
    }
    assert(a@ =~= b@);
    true
}

/// The class of an option contract.
#[derive(Clone, Copy, Debug, PartialEq, Eq, Structural)]
pub enum OptionClass {
    Call,
    Put,
}

/// `CE` marks a call; every other value is read as a put.
pub open spec fn class_of(t: Seq<char>) -> OptionClass {
    if t == "CE"@ {
        OptionClass::Call
    } else {
        OptionClass::Put
    }
}

/// The class of an option whose type is written `t`: a call for exactly
/// `CE`, a put for anything else.
pub fn encode_option_type(t: &str) -> (r: OptionClass)
    ensures
        r == class_of(t@),
        r == OptionClass::Call <==> t@ == "CE"@,
{
    if text_eq(t, "CE") {
        OptionClass::Call
    } else {
        OptionClass::Put
    }
}

impl OptionClass {
    /// The numeric flag of the class: 0 for a call, 1 for a put.
    pub fn flag(self) -> (r: u8)
        ensures
            r == 0 <==> self == OptionClass::Call,
            r == 1 <==> self == OptionClass::Put,
    {
        match self {
            OptionClass::Call => 0,
            OptionClass::Put => 1,
        }
    }
}

/// One line of the extract, every field as text.
#[derive(Debug)]
pub struct RawRow {
    pub symbol: String,
    pub expiry_dt: String,
    pub strike_pr: String,
    pub option_typ: String,
    pub close: String,
    pub timestamp: String,
    pub contracts: String,
}

/// A row after normalisation; `None` stands for a value that is missing
/// because its text could not be read.
#[derive(Debug)]
pub struct NormalizedRow {
    pub symbol: String,
    /// Day number of the expiry date.
    pub expiry_date: Option<i64>,
    pub strike_price: Option<Price>,
    /// `CE`, `PE`, or `XX` for a futures quote.
    pub option_type: String,
    pub close_price: Option<Price>,
    /// Day number of the trading date.
    pub timestamp: Option<i64>,
    /// Calendar days from the trading date to the expiry date.
    pub days_to_expiry: Option<i64>,
}

/// A row is kept when it is of the target symbol and its contract count is
/// not the text `0`.
pub open spec fn keeps(row: RawRow, symbol: Seq<char>) -> bool {
    row.symbol@ == symbol && row.contracts@ != "0"@
}

/// The rows that normalisation keeps, in their order.
pub open spec fn kept_rows(rows: Seq<RawRow>, symbol: Seq<char>) -> Seq<RawRow>
    decreases rows.len(),
{
    if rows.len() == 0 {
        seq![]
    } else {
        let rest = kept_rows(rows.drop_last(), symbol);
        if keeps(rows.last(), symbol) {
            rest.push(rows.last())
        } else {
            rest
        }
    }
}

/// `d` is the day number of the date written `text`, or missing where
/// `text` is no date.
pub open spec fn day_field(d: Option<i64>, text: Seq<char>) -> bool {
    match d {
        Some(v) => date_value(text) == Some(v as int),
        None => date_value(text) is None,
    }
}

/// `p` is the price written `text`, or missing where `text` is no decimal.
pub open spec fn price_field(p: Option<Price>, text: Seq<char>) -> bool {
    match p {
        Some(v) => is_decimal(text) && v@ == text,
        None => !is_decimal(text),
    }
}

/// `out` is the normal form of `raw`.
pub open spec fn normalizes(out: NormalizedRow, raw: RawRow) -> bool {
    &&& out.symbol == raw.symbol
    &&& out.option_type == raw.option_typ
    &&& day_field(out.expiry_date, raw.expiry_dt@)
    &&& day_field(out.timestamp, raw.timestamp@)
    &&& price_field(out.strike_price, raw.strike_pr@)
    &&& price_field(out.close_price, raw.close@)
    &&& match (out.expiry_date, out.timestamp) {
        (Some(e), Some(t)) => out.days_to_expiry matches Some(n) && n == e - t,
        _ => out.days_to_expiry is None,
    }
}

/// The normal form of one row.
pub fn normalize_row(raw: &RawRow) -> (r: NormalizedRow)
    ensures
        normalizes(r, *raw),
{
    let expiry_date = parse_date(raw.expiry_dt.as_str());
    let timestamp = parse_date(raw.timestamp.as_str());
    let days_to_expiry = match (expiry_date, timestamp) {
        (Some(e), Some(t)) => Some(e - t),
        _ => None,
    };
    NormalizedRow {
        symbol: raw.symbol.clone(),
        expiry_date,
        strike_price: Price::parse(raw.strike_pr.as_str()),
        option_type: raw.option_typ.clone(),
        close_price: Price::parse(raw.close.as_str()),
        timestamp,
        days_to_expiry,
    }
}

/// Normalises the extract for one symbol: keeps the rows of `symbol` whose
/// contract count is not the text `0`, in their order, and reads their
/// dates, prices and days to expiry.
pub fn process_data(rows: &Vec<RawRow>, symbol: &str) -> (r: Vec<NormalizedRow>)
    ensures
        r@.len() == kept_rows(rows@, symbol@).len(),
        forall|i: int| 0 <= i < r@.len() ==> normalizes(#[trigger] r@[i], kept_rows(rows@, symbol@)[i]),
        forall|i: int| 0 <= i < r@.len() ==> (#[trigger] r@[i]).symbol@ == symbol@,
{
    let mut out: Vec<NormalizedRow> = Vec::new();
    let mut i: usize = 0;
    while i < rows.len()
        invariant
            i <= rows@.len(),
            out@.len() == kept_rows(rows@.subrange(0, i as int), symbol@).len(),
            forall|k: int| 0 <= k < out@.len() ==> normalizes(#[trigger] out@[k], kept_rows(rows@.subrange(0, i as int), symbol@)[k]),
            forall|k: int| 0 <= k < out@.len() ==> (#[trigger] out@[k]).symbol@ == symbol@,
        decreases rows@.len() - i,
    {
        let row = &rows[i];
        assert(rows@.subrange(0, i + 1).drop_last() =~= rows@.subrange(0, i as int));
        if text_eq(row.symbol.as_str(), symbol) && !text_eq(row.contracts.as_str(), "0") {
            out.push(normalize_row(row));
        }
        i = i + 1;
    }
    assert(rows@.subrange(0, rows@.len() as int) =~= rows@);
    out
}

fn clone_price(p: &Option<Price>) -> (r: Option<Price>)
    ensures
        r == *p,
{
    match p {
        Some(v) => Some(v.clone()),
        None => None,
    }
}

impl Clone for NormalizedRow {
    fn clone(&self) -> (r: NormalizedRow)
        ensures
            r == *self,
    {
        NormalizedRow {
            symbol: self.symbol.clone(),
            expiry_date: self.expiry_date,
            strike_price: clone_price(&self.strike_price),
            option_type: self.option_type.clone(),
            close_price: clone_price(&self.close_price),
            timestamp: self.timestamp,
            days_to_expiry: self.days_to_expiry,
        }
    }
}

/// A futures quote is marked by the option type `XX`.
pub open spec fn is_future(row: NormalizedRow) -> bool {
    row.option_type@ == "XX"@
}

/// The option quotes of `rows`, in their order.
pub open spec fn options_of(rows: Seq<NormalizedRow>) -> Seq<NormalizedRow>
    decreases rows.len(),
{
    if rows.len() == 0 {
        seq![]
    } else if is_future(rows.last()) {
        options_of(rows.drop_last())
    } else {
        options_of(rows.drop_last()).push(rows.last())
    }
}

/// The futures quotes of `rows`, in their order.
pub open spec fn futures_of(rows: Seq<NormalizedRow>) -> Seq<NormalizedRow>
    decreases rows.len(),
{
    if rows.len() == 0 {
        seq![]
    } else if is_future(rows.last()) {
        futures_of(rows.drop_last()).push(rows.last())
    } else {
        futures_of(rows.drop_last())
    }
}

/// Splits normalised rows into option quotes (type other than `XX`) and
/// futures quotes (type `XX`), each in the order of `rows`.
pub fn split_data(rows: &Vec<NormalizedRow>) -> (r: (Vec<NormalizedRow>, Vec<NormalizedRow>))
    ensures
        r.0@ == options_of(rows@),
        r.1@ == futures_of(rows@),
{
    let mut options: Vec<NormalizedRow> = Vec::new();
    let mut futures: Vec<NormalizedRow> = Vec::new();
    let mut i: usize = 0;
    while i < rows.len()
        invariant
            i <= rows@.len(),
            options@ == options_of(rows@.subrange(0, i as int)),
            futures@ == futures_of(rows@.subrange(0, i as int)),
        decreases rows@.len() - i,
    {
        let row = &rows[i];
        assert(rows@.subrange(0, i + 1).drop_last() =~= rows@.subrange(0, i as int));
        if text_eq(row.option_type.as_str(), "XX") {
            futures.push(row.clone());
        } else {
            options.push(row.clone());
        }
        i = i + 1;
    }
    assert(rows@.subrange(0, rows@.len() as int) =~= rows@);
    (options, futures)
}

/// Every row that normalisation keeps is of the target symbol and has a
/// contract count other than the text `0`; and every row of the extract
/// that meets both is kept.
pub proof fn lemma_kept_rows(rows: Seq<RawRow>, symbol: Seq<char>)
    ensures
        forall|i: int| 0 <= i < kept_rows(rows, symbol).len() ==> (#[trigger] kept_rows(rows, symbol)[i]).symbol@ == symbol
            && kept_rows(rows, symbol)[i].contracts@ != "0"@,
        forall|j: int| 0 <= j < rows.len() && keeps(#[trigger] rows[j], symbol) ==> kept_rows(rows, symbol).contains(rows[j]),
    decreases rows.len(),
{
    if rows.len() > 0 {
        lemma_kept_rows(rows.drop_last(), symbol);
        let rest = kept_rows(rows.drop_last(), symbol);
        assert forall|j: int| 0 <= j < rows.len() && keeps(#[trigger] rows[j], symbol) implies kept_rows(rows, symbol).contains(rows[j]) by {
            if j < rows.len() - 1 {
                assert(rows.drop_last()[j] == rows[j]);
                let k = choose|k: int| 0 <= k < rest.len() && rest[k] == rows[j];
                assert(kept_rows(rows, symbol)[k] == rows[j]);
            } else {
                assert(kept_rows(rows, symbol)[kept_rows(rows, symbol).len() - 1] == rows[j]);
            }
        }
    }
}

/// The split is a partition: the option quotes and the futures quotes
/// together hold each input row exactly as often as the input does, and no
/// row is in both, since every option quote has a type other than `XX` and
/// every futures quote has type `XX`.
pub proof fn lemma_split_partitions(rows: Seq<NormalizedRow>)
    ensures
        rows.to_multiset() =~= options_of(rows).to_multiset().add(futures_of(rows).to_multiset()),
        forall|i: int| 0 <= i < options_of(rows).len() ==> !is_future(#[trigger] options_of(rows)[i]),
        forall|i: int| 0 <= i < futures_of(rows).len() ==> is_future(#[trigger] futures_of(rows)[i]),
        options_of(rows).len() + futures_of(rows).len() == rows.len(),
    decreases rows.len(),
{
    broadcast use vstd::seq_lib::to_multiset_build, vstd::seq_lib::to_multiset_len, vstd::multiset::group_multiset_axioms;
    if rows.len() == 0 {
        rows.to_multiset_ensures();
        options_of(rows).to_multiset_ensures();
        futures_of(rows).to_multiset_ensures();
        vstd::multiset::lemma_multiset_empty_len(rows.to_multiset());
        vstd::multiset::lemma_multiset_empty_len(options_of(rows).to_multiset());
        vstd::multiset::lemma_multiset_empty_len(futures_of(rows).to_multiset());
    } else {
        lemma_split_partitions(rows.drop_last());
        assert(rows =~= rows.drop_last().push(rows.last()));
    }
}

/// An option quote joined to its futures quote.
#[derive(Debug)]
pub struct EnrichedRow {
    pub symbol: String,
    /// Day number of the expiry date.
    pub expiry_date: i64,
    /// Day number of the trading date.
    pub timestamp: i64,
    pub strike_price: Option<Price>,
    pub option_type: OptionClass,
    /// The option's premium.
    pub close_price: Option<Price>,
    /// Calendar days to expiry; the time to expiry in years is this over 365.
    pub days_to_expiry: Option<i64>,
    /// The close of the matching futures quote.
    pub future_price: Price,
}

/// The option quote `o` and the futures quote `f` are of one symbol, expiry
/// date and trading date; a missing date matches nothing.
pub open spec fn same_key(o: NormalizedRow, f: NormalizedRow) -> bool {
    &&& o.symbol@ == f.symbol@
    &&& o.expiry_date is Some
    &&& o.expiry_date == f.expiry_date
    &&& o.timestamp is Some
    &&& o.timestamp == f.timestamp
}

/// The option quote `o` joined to the futures price `future_price`.
pub open spec fn enrich(o: NormalizedRow, future_price: Price) -> EnrichedRow {
    EnrichedRow {
        symbol: o.symbol,
        expiry_date: o.expiry_date.unwrap(),
        timestamp: o.timestamp.unwrap(),
        strike_price: o.strike_price,
        option_type: class_of(o.option_type@),
        close_price: o.close_price,
        days_to_expiry: o.days_to_expiry,
        future_price,
    }
}

/// The rows that the option quote `o` gives: one for each futures quote of
/// its key that has a price, in the order of `futures`.
pub open spec fn matches_of(o: NormalizedRow, futures: Seq<NormalizedRow>) -> Seq<EnrichedRow>
    decreases futures.len(),
{
    if futures.len() == 0 {
        seq![]
    } else {
        let f = futures.last();
        let rest = matches_of(o, futures.drop_last());
        if same_key(o, f) && f.close_price is Some {
            rest.push(enrich(o, f.close_price.unwrap()))
        } else {
            rest
        }
    }
}

/// The join of `options` to `futures`: the rows of each option quote in
/// turn.
pub open spec fn joined(options: Seq<NormalizedRow>, futures: Seq<NormalizedRow>) -> Seq<EnrichedRow>
    decreases options.len(),
{
    if options.len() == 0 {
        seq![]
    } else {
        joined(options.drop_last(), futures) + matches_of(options.last(), futures)
    }
}

fn enrich_row(o: &NormalizedRow, future_price: &Price) -> (r: EnrichedRow)
    requires
        o.expiry_date is Some,
        o.timestamp is Some,
    ensures
        r == enrich(*o, *future_price),
{
    EnrichedRow {
        symbol: o.symbol.clone(),
        expiry_date: o.expiry_date.unwrap(),
        timestamp: o.timestamp.unwrap(),
        strike_price: clone_price(&o.strike_price),
        option_type: encode_option_type(o.option_type.as_str()),
        close_price: clone_price(&o.close_price),
        days_to_expiry: o.days_to_expiry,
        future_price: future_price.clone(),
    }
}

fn key_matches(o: &NormalizedRow, f: &NormalizedRow) -> (r: bool)
    ensures
        r == same_key(*o, *f),
{
    o.expiry_date.is_some() && o.timestamp.is_some() && o.expiry_date == f.expiry_date
        && o.timestamp == f.timestamp && text_eq(o.symbol.as_str(), f.symbol.as_str())
}

/// Joins each option quote to the futures quotes of its symbol, expiry date
/// and trading date, and keeps only the rows that found a futures price:
/// an option quote with no such futures quote is dropped, and one with
/// several appears once for each, in the order of `futures`.
pub fn iv_prep(options: &Vec<NormalizedRow>, futures: &Vec<NormalizedRow>) -> (r: Vec<EnrichedRow>)
    ensures
        r@ == joined(options@, futures@),
{
    let mut out: Vec<EnrichedRow> = Vec::new();
    let mut i: usize = 0;
    while i < options.len()
        invariant
            i <= options@.len(),
            out@ == joined(options@.subrange(0, i as int), futures@),
        decreases options@.len() - i,
    {
        let o = &options[i];
        assert(options@.subrange(0, i + 1).drop_last() =~= options@.subrange(0, i as int));
        let ghost before = out@;
        let mut j: usize = 0;
        while j < futures.len()
            invariant
                i < options@.len(),
                *o == options@[i as int],
                j <= futures@.len(),
                out@ == before + matches_of(*o, futures@.subrange(0, j as int)),
            decreases futures@.len() - j,
        {
            let f = &futures[j];
            assert(futures@.subrange(0, j + 1).drop_last() =~= futures@.subrange(0, j as int));
            if key_matches(o, f) {
                match &f.close_price {
                    Some(p) => {
                        out.push(enrich_row(o, p));
                    },
                    None => {},
                }
            }
            proof {
                let m = matches_of(*o, futures@.subrange(0, j + 1));
                assert(out@ =~= before + m);
            }
            j = j + 1;
        }
        assert(futures@.subrange(0, futures@.len() as int) =~= futures@);
        i = i + 1;
    }
    assert(options@.subrange(0, options@.len() as int) =~= options@);
    out
}

/// `row` is `o` joined to the price of a futures quote of `futures` of the
/// same key.
pub open spec fn from_future(row: EnrichedRow, o: NormalizedRow, futures: Seq<NormalizedRow>) -> bool {
    exists|j: int|
        0 <= j < futures.len() && same_key(o, #[trigger] futures[j]) && futures[j].close_price is Some
            && row == enrich(o, futures[j].close_price.unwrap())
}

/// `row` is an option quote of `options` joined to the price of a futures
/// quote of `futures` of the same key.
pub open spec fn from_match(row: EnrichedRow, options: Seq<NormalizedRow>, futures: Seq<NormalizedRow>) -> bool {
    exists|i: int| 0 <= i < options.len() && from_future(row, #[trigger] options[i], futures)
}

/// Each row that an option quote gives comes from a futures quote of its
/// key that has a price.
pub proof fn lemma_matches_have_future(o: NormalizedRow, futures: Seq<NormalizedRow>)
    ensures
        forall|k: int| 0 <= k < matches_of(o, futures).len() ==> from_future(#[trigger] matches_of(o, futures)[k], o, futures),
    decreases futures.len(),
{
    if futures.len() > 0 {
        let rest = futures.drop_last();
        lemma_matches_have_future(o, rest);
        assert forall|k: int| 0 <= k < matches_of(o, futures).len() implies from_future(#[trigger] matches_of(o, futures)[k], o, futures) by {
            if k < matches_of(o, rest).len() {
                let j = choose|j: int|
                    0 <= j < rest.len() && same_key(o, #[trigger] rest[j]) && rest[j].close_price is Some
                        && matches_of(o, rest)[k] == enrich(o, rest[j].close_price.unwrap());
                assert(futures[j] == rest[j]);
            } else {
                assert(futures[futures.len() - 1] == futures.last());
            }
        }
    }
}

/// An option quote that no futures quote with a price matches gives no row.
pub proof fn lemma_unmatched_option_dropped(o: NormalizedRow, futures: Seq<NormalizedRow>)
    requires
        forall|j: int| 0 <= j < futures.len() ==> !same_key(o, #[trigger] futures[j])
            || futures[j].close_price is None,
    ensures
        matches_of(o, futures).len() == 0,
    decreases futures.len(),
{
    if futures.len() > 0 {
        let rest = futures.drop_last();
        assert forall|j: int| 0 <= j < rest.len() implies !same_key(o, #[trigger] rest[j])
            || rest[j].close_price is None by {
            assert(rest[j] == futures[j]);
        }
        lemma_unmatched_option_dropped(o, rest);
        assert(futures.last() == futures[futures.len() - 1]);
    }
}

/// Every row of the join is an option quote joined to the price of a
/// futures quote of the same symbol, expiry date and trading date, so every
/// row has a futures price; and an option quote that matches no futures
/// quote with a price gives no row.
pub proof fn lemma_join_rows_matched(options: Seq<NormalizedRow>, futures: Seq<NormalizedRow>)
    ensures
        forall|k: int| 0 <= k < joined(options, futures).len() ==> from_match(#[trigger] joined(options, futures)[k], options, futures),
        forall|i: int| 0 <= i < options.len() && (forall|j: int| 0 <= j < futures.len() ==> !same_key(
            options[i], #[trigger] futures[j]) || futures[j].close_price is None) ==> (
        #[trigger] matches_of(options[i], futures)).len() == 0,
    decreases options.len(),
{
    assert forall|i: int| 0 <= i < options.len() && (forall|j: int| 0 <= j < futures.len() ==> !same_key(
        options[i], #[trigger] futures[j]) || futures[j].close_price is None) implies (
    #[trigger] matches_of(options[i], futures)).len() == 0 by {
        lemma_unmatched_option_dropped(options[i], futures);
    }
    if options.len() > 0 {
        let init = options.drop_last();
        let o = options.last();
        lemma_join_rows_matched(init, futures);
        lemma_matches_have_future(o, futures);
        let all = joined(options, futures);
        assert forall|k: int| 0 <= k < all.len() implies from_match(#[trigger] all[k], options, futures) by {
            let n = joined(init, futures).len();
            if k < n {
                let i = choose|i: int| 0 <= i < init.len() && from_future(joined(init, futures)[k], #[trigger] init[i], futures);
                assert(options[i] == init[i]);
                assert(all[k] == joined(init, futures)[k]);
            } else {
                assert(options[options.len() - 1] == o);
                assert(all[k] == matches_of(o, futures)[k - n]);
            }
        }
    }
}

/// What one implied-volatility solve reads.
#[derive(Debug)]
pub struct SolveInputs {
    pub option_type: OptionClass,
    /// The underlying's price: the futures quote's close.
    pub future_price: Price,
    pub strike_price: Price,
    /// The option's premium.
    pub premium: Price,
    /// Calendar days to expiry; the time to expiry in years is this over 365.
    pub days_to_expiry: i64,
}

impl EnrichedRow {
    /// The inputs of this row's solve, where none of them is missing; a row
    /// with a missing strike, premium or days to expiry gets no solve.
    pub fn iv_inputs(&self) -> (r: Option<SolveInputs>)
        ensures
            r is Some <==> self.strike_price is Some && self.close_price is Some && self.days_to_expiry is Some,
            r matches Some(v) ==> v == (SolveInputs {
                option_type: self.option_type,
                future_price: self.future_price,
                strike_price: self.strike_price.unwrap(),
                premium: self.close_price.unwrap(),
                days_to_expiry: self.days_to_expiry.unwrap(),
            }),
    {
        match (&self.strike_price, &self.close_price, self.days_to_expiry) {
            (Some(k), Some(p), Some(t)) => Some(SolveInputs {
                option_type: self.option_type,
                future_price: self.future_price.clone(),
                strike_price: k.clone(),
                premium: p.clone(),
                days_to_expiry: t,
            }),
            _ => None,
        }
    }
}

} // verus!
