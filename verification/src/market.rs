//! The ad book and the trades taken from it: listing, creating and cancelling
//! ads, reserving a slice of an ad for a trade and returning it, and every
//! change a trade goes through on its way from `Pending` to its end.

use std::cmp::Ordering;

use vstd::prelude::*;

use crate::amount::{
    ckb_for_fiat, ckb_from_fiat, cmp_ckb, difference_of, fiat_for_ckb, fiat_from_ckb,
    normalize_amount, normalized_amount, ok_or_msg, parse_decimal_8, parsed_decimal, subtract_ckb, sum_of,
    add_ckb,
};
use crate::keyed::{
    find_key, insert_keyed, key_map, lemma_remove_keyed, lemma_sorted_index, lemma_update_keyed,
    sorted_keys, Keyed,
};
use crate::order::{
    new_id, normalize_pubkey, pubkey_key, state_name, state_text, CreateAdBody, CreateTradeBody,
    ErrorModel, OrderError, OrderState, Trade, TradeModel, TradeView, TradeViewModel,
    is_open_state, public_view,
};
use crate::outside::hex_bytes;
use crate::text::{chars_of, owned, seq_lt, text_is, trim, trim_chars, string_of};

verus! {

#[derive(Clone, Debug, PartialEq, Eq)]
pub struct Ad {
    pub id: String,
    pub pubkey: String,
    pub available: String,
    pub currency: String,
    pub price: String,
    pub min: String,
    pub max: String,
    pub payment_method: String,
    pub cancelled: bool,
    pub open_trade_id: Option<String>,
}

pub struct AdModel {
    pub id: Seq<char>,
    pub pubkey: Seq<char>,
    pub available: Seq<char>,
    pub currency: Seq<char>,
    pub price: Seq<char>,
    pub min: Seq<char>,
    pub max: Seq<char>,
    pub payment_method: Seq<char>,
    pub cancelled: bool,
    pub open_trade_id: Option<Seq<char>>,
}

/// What the public sees of an ad.
#[derive(Clone, Debug, PartialEq, Eq)]
pub struct AdView {
    pub id: String,
    pub pubkey: String,
    pub available: String,
    pub currency: String,
    pub price: String,
    pub min: String,
    pub max: String,
    pub payment_method: String,
    pub open_trade_id: Option<String>,
}

pub struct AdViewModel {
    pub id: Seq<char>,
    pub pubkey: Seq<char>,
    pub available: Seq<char>,
    pub currency: Seq<char>,
    pub price: Seq<char>,
    pub min: Seq<char>,
    pub max: Seq<char>,
    pub payment_method: Seq<char>,
    pub open_trade_id: Option<Seq<char>>,
}

impl AdView {
    pub open spec fn model(&self) -> AdViewModel {
        AdViewModel {
            id: self.id@,
            pubkey: self.pubkey@,
            available: self.available@,
            currency: self.currency@,
            price: self.price@,
            min: self.min@,
            max: self.max@,
            payment_method: self.payment_method@,
            open_trade_id: crate::order::opt_text(self.open_trade_id),
        }
    }
}

pub open spec fn ad_public(a: AdModel) -> AdViewModel {
    AdViewModel {
        id: a.id,
        pubkey: a.pubkey,
        available: a.available,
        currency: a.currency,
        price: a.price,
        min: a.min,
        max: a.max,
        payment_method: a.payment_method,
        open_trade_id: a.open_trade_id,
    }
}

impl Ad {
    pub open spec fn model(&self) -> AdModel {
        AdModel {
            id: self.id@,
            pubkey: self.pubkey@,
            available: self.available@,
            currency: self.currency@,
            price: self.price@,
            min: self.min@,
            max: self.max@,
            payment_method: self.payment_method@,
            cancelled: self.cancelled,
            open_trade_id: crate::order::opt_text(self.open_trade_id),
        }
    }

    /// The public view of the ad.
    pub fn view(&self) -> (r: AdView)
        ensures
            r.model() == ad_public(self.model()),
    {
        AdView {
            id: self.id.clone(),
            pubkey: self.pubkey.clone(),
            available: self.available.clone(),
            currency: self.currency.clone(),
            price: self.price.clone(),
            min: self.min.clone(),
            max: self.max.clone(),
            payment_method: self.payment_method.clone(),
            open_trade_id: crate::order::copy_opt(&self.open_trade_id),
        }
    }

    pub fn duplicate(&self) -> (r: Ad)
        ensures
            r.model() == self.model(),
    {
        Ad {
            id: self.id.clone(),
            pubkey: self.pubkey.clone(),
            available: self.available.clone(),
            currency: self.currency.clone(),
            price: self.price.clone(),
            min: self.min.clone(),
            max: self.max.clone(),
            payment_method: self.payment_method.clone(),
            cancelled: self.cancelled,
            open_trade_id: crate::order::copy_opt(&self.open_trade_id),
        }
    }
}

impl Keyed for Ad {
    open spec fn key(&self) -> Seq<char> {
        self.id@
    }

    fn key_chars(&self) -> (r: Vec<char>) {
        chars_of(self.id.as_str())
    }
}

impl Keyed for Trade {
    open spec fn key(&self) -> Seq<char> {
        self.id@
    }

    fn key_chars(&self) -> (r: Vec<char>) {
        chars_of(self.id.as_str())
    }
}

/// All ads and trades, each kept in increasing id order.
pub struct Market {
    pub ads: Vec<Ad>,
    pub trades: Vec<Trade>,
}

impl Default for Market {
    /// A book with no ads and no trades.
    fn default() -> (r: Market)
        ensures
            r.ads@.len() == 0,
            r.trades@.len() == 0,
    {
        Market { ads: Vec::new(), trades: Vec::new() }
    }
}

pub open spec fn ad_models(m: Map<Seq<char>, Ad>) -> Map<Seq<char>, AdModel> {
    m.map_values(|a: Ad| a.model())
}

pub open spec fn trade_models(m: Map<Seq<char>, Trade>) -> Map<Seq<char>, TradeModel> {
    m.map_values(|t: Trade| t.model())
}

// ---------------------------------------------------------------------------
// The rules of the book
/// The trade that `ad` is reserved for has not ended.
pub open spec fn has_open_trade(trades: Map<Seq<char>, TradeModel>, ad: AdModel) -> bool {
    match ad.open_trade_id {
        Some(t) => trades.contains_key(t) && is_open_state(trades[t].state),
        None => false,
    }
}

/// `a > b` as amounts, or why one of them does not parse.
pub open spec fn exceeds(a: Seq<char>, b: Seq<char>) -> Result<bool, Seq<char>> {
    match parsed_decimal(a) {
        Err(e) => Err(e),
        Ok(x) => match parsed_decimal(b) {
            Err(e) => Err(e),
            Ok(y) => Ok(x > y),
        },
    }
}

/// `a < b` as amounts, or why one of them does not parse.
pub open spec fn falls_short(a: Seq<char>, b: Seq<char>) -> Result<bool, Seq<char>> {
    match parsed_decimal(a) {
        Err(e) => Err(e),
        Ok(x) => match parsed_decimal(b) {
            Err(e) => Err(e),
            Ok(y) => Ok(x < y),
        },
    }
}

/// The ad still holds enough CKB for its minimum take.
pub open spec fn fills_min(ad: AdModel) -> bool {
    if parsed_decimal(ad.available) == Ok::<u128, Seq<char>>(0) {
        false
    } else if trim(ad.min).len() == 0 {
        parsed_decimal(ad.available) matches Ok(v) && v > 0
    } else {
        match ckb_for_fiat(ad.min, ad.price) {
            Ok(min_ckb) => falls_short(ad.available, min_ckb) == Ok::<bool, Seq<char>>(false),
            Err(_) => false,
        }
    }
}

/// The ad is shown on the book: not cancelled, not reserved by a live trade,
/// and its leftover still covers the minimum take.
pub open spec fn shoppable(trades: Map<Seq<char>, TradeModel>, ad: AdModel) -> bool {
    !ad.cancelled && !has_open_trade(trades, ad) && fills_min(ad)
}

/// The text of a required field: trimmed, or refused when empty.
pub open spec fn required_text(raw: Seq<char>, field: Seq<char>) -> Result<Seq<char>, ErrorModel> {
    if trim(raw).len() == 0 {
        Err(ErrorModel::BadState(field + " is required"@))
    } else {
        Ok(trim(raw))
    }
}

pub struct AdTerms {
    pub pubkey: Seq<char>,
    pub available: Seq<char>,
    pub currency: Seq<char>,
    pub price: Seq<char>,
    pub min: Seq<char>,
    pub max: Seq<char>,
    pub payment_method: Seq<char>,
}

pub open spec fn amount_field(raw: Seq<char>) -> Result<Seq<char>, ErrorModel> {
    match normalized_amount(raw) {
        Ok(t) => Ok(t),
        Err(e) => Err(ErrorModel::BadAmount(e)),
    }
}

pub open spec fn currency_of(c: Option<String>) -> Seq<char> {
    match c {
        Some(s) => if trim(s@).len() > 0 {
            trim(s@)
        } else {
            "NGN"@
        },
        None => "NGN"@,
    }
}

/// The terms of the ad that `body` asks for, or why it is refused.
pub open spec fn ad_terms(body: &CreateAdBody) -> Result<AdTerms, ErrorModel> {
    match required_text(body.pubkey@, "pubkey"@) {
        Err(e) => Err(e),
        Ok(pubkey) => match amount_field(body.available@) {
            Err(e) => Err(e),
            Ok(available) => match amount_field(body.price@) {
                Err(e) => Err(e),
                Ok(price) => match amount_field(body.min@) {
                    Err(e) => Err(e),
                    Ok(min) => match amount_field(body.max@) {
                        Err(e) => Err(e),
                        Ok(max) => match required_text(body.payment_method@, "payment_method"@) {
                            Err(e) => Err(e),
                            Ok(payment_method) => ad_limits(
                                AdTerms {
                                    pubkey,
                                    available,
                                    currency: currency_of(body.currency),
                                    price,
                                    min,
                                    max,
                                    payment_method,
                                },
                            ),
                        },
                    },
                },
            },
        },
    }
}

/// The take limits of `t` are consistent with each other and with what is available.
pub open spec fn ad_limits(t: AdTerms) -> Result<AdTerms, ErrorModel> {
    match exceeds(t.min, t.max) {
        Err(e) => Err(ErrorModel::BadAmount(e)),
        Ok(true) => Err(ErrorModel::BadAmount("min cannot exceed max"@)),
        Ok(false) => match ckb_for_fiat(t.min, t.price) {
            Err(e) => Err(ErrorModel::BadAmount(e)),
            Ok(min_ckb) => match ckb_for_fiat(t.max, t.price) {
                Err(e) => Err(ErrorModel::BadAmount(e)),
                Ok(max_ckb) => match exceeds(min_ckb, t.available) {
                    Err(e) => Err(ErrorModel::BadAmount(e)),
                    Ok(true) => Err(
                        ErrorModel::BadAmount("available is too small for the minimum take"@),
                    ),
                    Ok(false) => match exceeds(max_ckb, t.available) {
                        Err(e) => Err(ErrorModel::BadAmount(e)),
                        Ok(true) => Err(ErrorModel::BadAmount("max take is larger than available"@)),
                        Ok(false) => Ok(t),
                    },
                },
            },
        },
    }
}

/// The ad that terms `t` create under `id`.
pub open spec fn new_ad(id: Seq<char>, t: AdTerms) -> AdModel {
    AdModel {
        id,
        pubkey: t.pubkey,
        available: t.available,
        currency: t.currency,
        price: t.price,
        min: t.min,
        max: t.max,
        payment_method: t.payment_method,
        cancelled: false,
        open_trade_id: None,
    }
}

/// The ads after the CKB reserved for `trade_id` returns to the ad `ad_id`.
pub open spec fn returned_ckb(
    ads: Map<Seq<char>, AdModel>,
    ad_id: Seq<char>,
    trade_id: Seq<char>,
    amount: Seq<char>,
) -> Result<Map<Seq<char>, AdModel>, ErrorModel> {
    if !ads.contains_key(ad_id) {
        Ok(ads)
    } else {
        let ad = ads[ad_id];
        match sum_of(ad.available, amount) {
            Err(e) => Err(ErrorModel::BadAmount(e)),
            Ok(total) => Ok(
                ads.insert(
                    ad_id,
                    AdModel {
                        available: total,
                        open_trade_id: if ad.open_trade_id == Some(trade_id) {
                            None
                        } else {
                            ad.open_trade_id
                        },
                        ..ad
                    },
                ),
            ),
        }
    }
}

pub open spec fn not_found(what: Seq<char>, id: Seq<char>) -> ErrorModel {
    ErrorModel::NotFound(what + id + " not found"@)
}

fn ad_not_found(id: &str) -> (r: OrderError)
    ensures
        r.model() == not_found("ad "@, id@),
{
    let mut m = owned("ad ");
    m.append(id);
    m.append(" not found");
    OrderError::NotFound(m)
}

fn trade_not_found(id: &str) -> (r: OrderError)
    ensures
        r.model() == not_found("trade "@, id@),
{
    let mut m = owned("trade ");
    m.append(id);
    m.append(" not found");
    OrderError::NotFound(m)
}

/// Trims `raw`, refusing an empty text.
pub(crate) fn require_text(raw: &str, field: &str) -> (r: Result<String, OrderError>)
    ensures
        match r {
            Ok(t) => required_text(raw@, field@) == Ok::<Seq<char>, ErrorModel>(t@),
            Err(e) => required_text(raw@, field@) == Err::<Seq<char>, ErrorModel>(e.model()),
        },
{
    let t = trim_chars(&chars_of(raw));
    if t.len() == 0 {
        let mut m = owned(field);
        m.append(" is required");
        return Err(OrderError::BadState(m));
    }
    Ok(string_of(&t))
}

fn amount_or_bad(raw: &str) -> (r: Result<String, OrderError>)
    ensures
        match r {
            Ok(t) => amount_field(raw@) == Ok::<Seq<char>, ErrorModel>(t@),
            Err(e) => amount_field(raw@) == Err::<Seq<char>, ErrorModel>(e.model()),
        },
{
    match normalize_amount(raw) {
        Ok(t) => Ok(t),
        Err(e) => Err(OrderError::BadAmount(e)),
    }
}

/// Whether `left > right` as amounts.
fn exceeds_exec(left: &str, right: &str) -> (r: Result<bool, OrderError>)
    ensures
        match r {
            Ok(b) => exceeds(left@, right@) == Ok::<bool, Seq<char>>(b),
            Err(e) => exceeds(left@, right@) is Err && e.model() == ErrorModel::BadAmount(
                exceeds(left@, right@)->Err_0,
            ),
        },
{
    match cmp_ckb(left, right) {
        Ok(o) => Ok(matches!(o, Ordering::Greater)),
        Err(e) => Err(OrderError::BadAmount(e)),
    }
}

/// Whether `left < right` as amounts.
fn falls_short_exec(left: &str, right: &str) -> (r: Result<bool, OrderError>)
    ensures
        match r {
            Ok(b) => falls_short(left@, right@) == Ok::<bool, Seq<char>>(b),
            Err(e) => falls_short(left@, right@) is Err && e.model() == ErrorModel::BadAmount(
                falls_short(left@, right@)->Err_0,
            ),
        },
{
    match cmp_ckb(left, right) {
        Ok(o) => Ok(matches!(o, Ordering::Less)),
        Err(e) => Err(OrderError::BadAmount(e)),
    }
}

/// The amount of CKB an ad holds.
fn parse_available(raw: &str) -> (r: Result<u128, String>)
    ensures
        ok_or_msg(r) == parsed_decimal(raw@),
{
    parse_decimal_8(raw)
}

/// Whether the ad still covers its minimum take.
pub fn can_fill_min(ad: &Ad) -> (r: bool)
    ensures
        r == fills_min(ad.model()),
{
    match parse_available(ad.available.as_str()) {
        Ok(v) => {
            if v == 0 {
                return false;
            }
        },
        Err(_) => {},
    }
    let t = trim_chars(&chars_of(ad.min.as_str()));
    if t.len() == 0 {
        return match parse_available(ad.available.as_str()) {
            Ok(v) => v > 0,
            Err(_) => false,
        };
    }
    match ckb_from_fiat(ad.min.as_str(), ad.price.as_str()) {
        Ok(min_ckb) => match falls_short_exec(ad.available.as_str(), min_ckb.as_str()) {
            Ok(b) => !b,
            Err(_) => false,
        },
        Err(_) => false,
    }
}

/// Some trade of `trades` under the ad's open trade id has not ended.
pub open spec fn reserved_in(trades: Seq<Trade>, ad: AdModel) -> bool {
    match ad.open_trade_id {
        Some(t) => exists|i: int|
            0 <= i < trades.len() && (#[trigger] trades[i]).id@ == t && is_open_state(trades[i].state),
        None => false,
    }
}

/// With trades kept in id order, "some trade under the id is open" is
/// `has_open_trade` on the trades by id.
proof fn lemma_reserved_in_sorted(trades: Seq<Trade>, ad: AdModel)
    requires
        sorted_keys(trades),
    ensures
        reserved_in(trades, ad) == has_open_trade(trade_models(key_map(trades)), ad),
{
    match ad.open_trade_id {
        Some(t) => {
            if reserved_in(trades, ad) {
                let i = choose|i: int|
                    0 <= i < trades.len() && (#[trigger] trades[i]).id@ == t && is_open_state(
                        trades[i].state,
                    );
                lemma_sorted_index(trades, i);
                assert(trades[i].key() == t);
            }
            if has_open_trade(trade_models(key_map(trades)), ad) {
                assert(key_map(trades).contains_key(t));
                let i = crate::keyed::key_index(trades, t);
                assert(trades[i].key() == t);
            }
        },
        None => {},
    }
}

/// Whether the ad is reserved by a trade of `market` that has not ended.
pub fn ad_has_open_trade(market: &Market, ad: &Ad) -> (r: bool)
    ensures
        r == reserved_in(market.trades@, ad.model()),
        sorted_keys(market.trades@) ==> r == has_open_trade(
            trade_models(key_map(market.trades@)),
            ad.model(),
        ),
{
    proof {
        if sorted_keys(market.trades@) {
            lemma_reserved_in_sorted(market.trades@, ad.model());
        }
    }
    match &ad.open_trade_id {
        None => false,
        Some(id) => {
            let n = market.trades.len();
            for i in 0..n
                invariant
                    n == market.trades@.len(),
                    ad.model().open_trade_id == Some(id@),
                    sorted_keys(market.trades@) ==> reserved_in(market.trades@, ad.model())
                        == has_open_trade(trade_models(key_map(market.trades@)), ad.model()),
                    forall|j: int|
                        0 <= j < i ==> !((#[trigger] market.trades@[j]).id@ == id@ && is_open_state(
                            market.trades@[j].state,
                        )),
            {
                if text_is(market.trades[i].id.as_str(), id.as_str()) && market.trades[i].is_open() {
                    assert(reserved_in(market.trades@, ad.model())) by {
                        assert(market.trades@[i as int].id@ == id@);
                    }
                    return true;
                }
            }
            false
        },
    }
}

/// Whether the ad is shown on the book of `market`.
pub fn ad_is_shoppable(market: &Market, ad: &Ad) -> (r: bool)
    ensures
        r == (!ad.cancelled && !reserved_in(market.trades@, ad.model()) && fills_min(ad.model())),
        sorted_keys(market.trades@) ==> r == shoppable(
            trade_models(key_map(market.trades@)),
            ad.model(),
        ),
{
    !ad.cancelled && !ad_has_open_trade(market, ad) && can_fill_min(ad)
}

/// The ads of `s` by id; of two ads with one id, the later one.
pub open spec fn ads_by_id(s: Seq<Ad>) -> Map<Seq<char>, AdModel>
    decreases s.len(),
{
    if s.len() == 0 {
        Map::empty()
    } else {
        ads_by_id(s.drop_last()).insert(s.last().id@, s.last().model())
    }
}

/// The trades of `s` by id; of two trades with one id, the later one.
pub open spec fn trades_by_id(s: Seq<Trade>) -> Map<Seq<char>, TradeModel>
    decreases s.len(),
{
    if s.len() == 0 {
        Map::empty()
    } else {
        trades_by_id(s.drop_last()).insert(s.last().id@, s.last().model())
    }
}

/// The ads of `s` carry distinct ids.
pub open spec fn distinct_ad_ids(s: Seq<Ad>) -> bool {
    forall|i: int, j: int| 0 <= i < j < s.len() ==> (#[trigger] s[i]).id@ != (#[trigger] s[j]).id@
}

/// The trades of `s` carry distinct ids.
pub open spec fn distinct_trade_ids(s: Seq<Trade>) -> bool {
    forall|i: int, j: int| 0 <= i < j < s.len() ==> (#[trigger] s[i]).id@ != (#[trigger] s[j]).id@
}

proof fn lemma_ads_by_id(s: Seq<Ad>)
    requires
        distinct_ad_ids(s),
    ensures
        forall|k: Seq<char>|
            #[trigger] ads_by_id(s).contains_key(k) <==> exists|i: int| 0 <= i < s.len() && s[i].id@ == k,
        forall|i: int| 0 <= i < s.len() ==> ads_by_id(s)[(#[trigger] s[i]).id@] == s[i].model(),
    decreases s.len(),
{
    if s.len() > 0 {
        let t = s.drop_last();
        assert(distinct_ad_ids(t)) by {
            assert forall|i: int, j: int| 0 <= i < j < t.len() implies (#[trigger] t[i]).id@ != (#[trigger] t[j]).id@ by {
                assert(t[i] == s[i] && t[j] == s[j]);
            }
        }
        lemma_ads_by_id(t);
        assert forall|k: Seq<char>| #[trigger] ads_by_id(s).contains_key(k) <==> exists|i: int|
            0 <= i < s.len() && s[i].id@ == k by {
            if ads_by_id(s).contains_key(k) && k != s.last().id@ {
                let i = choose|i: int| 0 <= i < t.len() && t[i].id@ == k;
                assert(s[i] == t[i]);
            }
            if exists|i: int| 0 <= i < s.len() && s[i].id@ == k {
                let i = choose|i: int| 0 <= i < s.len() && s[i].id@ == k;
                if i < t.len() {
                    assert(t[i] == s[i]);
                }
            }
        }
        assert forall|i: int| 0 <= i < s.len() implies ads_by_id(s)[(#[trigger] s[i]).id@] == s[i].model() by {
            if i < t.len() {
                assert(t[i] == s[i]);
                assert(s[i].id@ != s[s.len() - 1].id@);
            }
        }
    }
}

proof fn lemma_trades_by_id(s: Seq<Trade>)
    requires
        distinct_trade_ids(s),
    ensures
        forall|k: Seq<char>|
            #[trigger] trades_by_id(s).contains_key(k) <==> exists|i: int| 0 <= i < s.len() && s[i].id@ == k,
        forall|i: int| 0 <= i < s.len() ==> trades_by_id(s)[(#[trigger] s[i]).id@] == s[i].model(),
    decreases s.len(),
{
    if s.len() > 0 {
        let t = s.drop_last();
        assert(distinct_trade_ids(t)) by {
            assert forall|i: int, j: int| 0 <= i < j < t.len() implies (#[trigger] t[i]).id@ != (#[trigger] t[j]).id@ by {
                assert(t[i] == s[i] && t[j] == s[j]);
            }
        }
        lemma_trades_by_id(t);
        assert forall|k: Seq<char>| #[trigger] trades_by_id(s).contains_key(k) <==> exists|i: int|
            0 <= i < s.len() && s[i].id@ == k by {
            if trades_by_id(s).contains_key(k) && k != s.last().id@ {
                let i = choose|i: int| 0 <= i < t.len() && t[i].id@ == k;
                assert(s[i] == t[i]);
            }
            if exists|i: int| 0 <= i < s.len() && s[i].id@ == k {
                let i = choose|i: int| 0 <= i < s.len() && s[i].id@ == k;
                if i < t.len() {
                    assert(t[i] == s[i]);
                }
            }
        }
        assert forall|i: int| 0 <= i < s.len() implies trades_by_id(s)[(#[trigger] s[i]).id@] == s[i].model() by {
            if i < t.len() {
                assert(t[i] == s[i]);
                assert(s[i].id@ != s[s.len() - 1].id@);
            }
        }
    }
}

/// The book kept by the daemon.
pub struct MarketStore {
    market: Market,
}

impl MarketStore {
    /// The ads and trades are each kept in strictly increasing id order.
    pub closed spec fn wf(&self) -> bool {
        sorted_keys(self.market.ads@) && sorted_keys(self.market.trades@)
    }

    /// The ads by id.
    pub closed spec fn ads(&self) -> Map<Seq<char>, AdModel> {
        ad_models(key_map(self.market.ads@))
    }

    /// The trades by id.
    pub closed spec fn trades(&self) -> Map<Seq<char>, TradeModel> {
        trade_models(key_map(self.market.trades@))
    }

    /// Id of the trade in slot `i`.
    pub closed spec fn trade_slot(&self, i: int) -> Seq<char> {
        self.market.trades@[i].id@
    }

    pub closed spec fn trade_slots(&self) -> nat {
        self.market.trades@.len()
    }

    pub closed spec fn ad_slot(&self, i: int) -> Seq<char> {
        self.market.ads@[i].id@
    }

    pub closed spec fn ad_slots(&self) -> nat {
        self.market.ads@.len()
    }

    /// An empty book.
    pub fn new() -> (r: MarketStore)
        ensures
            r.wf(),
            r.ads() == Map::<Seq<char>, AdModel>::empty(),
            r.trades() == Map::<Seq<char>, TradeModel>::empty(),
    {
        let r = MarketStore { market: Market { ads: Vec::new(), trades: Vec::new() } };
        assert(r.ads() =~= Map::<Seq<char>, AdModel>::empty());
        assert(r.trades() =~= Map::<Seq<char>, TradeModel>::empty());
        r
    }

    /// The book holding `ads` and `trades`; of two records with one id, the later is kept.
    pub fn from_parts(ads: Vec<Ad>, trades: Vec<Trade>) -> (r: MarketStore)
        ensures
            r.wf(),
            r.ads() == ads_by_id(ads@),
            r.trades() == trades_by_id(trades@),
    {
        let mut store = MarketStore::new();
        let ghost a0 = ads@;
        let ghost t0 = trades@;
        let mut ads = ads;
        let mut trades = trades;
        assert(a0.subrange(0, 0) =~= Seq::<Ad>::empty());
        assert(a0.subrange(0, a0.len() as int) =~= a0);
        while ads.len() > 0
            invariant
                store.wf(),
                store.trades() == Map::<Seq<char>, TradeModel>::empty(),
                trades@ == t0,
                ads@.len() <= a0.len(),
                ads@ == a0.subrange(a0.len() - ads@.len(), a0.len() as int),
                store.ads() == ads_by_id(a0.subrange(0, a0.len() - ads@.len())),
            decreases ads.len(),
        {
            let ghost c = a0.len() - ads@.len();
            let a = ads.remove(0);
            proof {
                assert(a0.subrange(0, c + 1).drop_last() =~= a0.subrange(0, c));
                assert(a0.subrange(0, c + 1).last() == a);
                assert(ads@ =~= a0.subrange(c + 1, a0.len() as int));
            }
            store.store_ad(a);
        }
        assert(t0.subrange(0, 0) =~= Seq::<Trade>::empty());
        assert(t0.subrange(0, t0.len() as int) =~= t0);
        while trades.len() > 0
            invariant
                store.wf(),
                store.ads() == ads_by_id(a0),
                trades@.len() <= t0.len(),
                trades@ == t0.subrange(t0.len() - trades@.len(), t0.len() as int),
                store.trades() == trades_by_id(t0.subrange(0, t0.len() - trades@.len())),
            decreases trades.len(),
        {
            let ghost c = t0.len() - trades@.len();
            let t = trades.remove(0);
            proof {
                assert(t0.subrange(0, c + 1).drop_last() =~= t0.subrange(0, c));
                assert(t0.subrange(0, c + 1).last() == t);
                assert(trades@ =~= t0.subrange(c + 1, t0.len() as int));
            }
            store.store_trade(t);
        }
        store
    }

    /// Saving the book and loading it back gives the same book: records with
    /// distinct ids that are exactly the book's ads and trades, in any order,
    /// build (by `from_parts`) the same ads and trades, preimages included.
    pub proof fn law_reload_keeps_book(&self, ads: Seq<Ad>, trades: Seq<Trade>)
        requires
            distinct_ad_ids(ads),
            distinct_trade_ids(trades),
            forall|i: int|
                0 <= i < ads.len() ==> self.ads().contains_key((#[trigger] ads[i]).id@)
                    && self.ads()[ads[i].id@] == ads[i].model(),
            forall|k: Seq<char>| #[trigger] self.ads().contains_key(k) ==> exists|i: int| 0 <= i < ads.len() && ads[i].id@ == k,
            forall|i: int|
                0 <= i < trades.len() ==> self.trades().contains_key((#[trigger] trades[i]).id@)
                    && self.trades()[trades[i].id@] == trades[i].model(),
            forall|k: Seq<char>| #[trigger] self.trades().contains_key(k) ==> exists|i: int| 0 <= i < trades.len() && trades[i].id@ == k,
        ensures
            ads_by_id(ads) == self.ads(),
            trades_by_id(trades) == self.trades(),
    {
        lemma_ads_by_id(ads);
        lemma_trades_by_id(trades);
        assert forall|k: Seq<char>| #[trigger] ads_by_id(ads).contains_key(k) implies ads_by_id(ads)[k] == self.ads()[k] by {
            let i = choose|i: int| 0 <= i < ads.len() && ads[i].id@ == k;
            assert(ads_by_id(ads)[ads[i].id@] == ads[i].model());
        }
        assert forall|k: Seq<char>| self.ads().contains_key(k) <==> #[trigger] ads_by_id(ads).contains_key(k) by {
            if self.ads().contains_key(k) {
                let i = choose|i: int| 0 <= i < ads.len() && ads[i].id@ == k;
                assert(ads[i].id@ == k);
            }
            if ads_by_id(ads).contains_key(k) {
                let i = choose|i: int| 0 <= i < ads.len() && ads[i].id@ == k;
                assert(self.ads().contains_key(ads[i].id@));
            }
        }
        assert(ads_by_id(ads) =~= self.ads());
        assert forall|k: Seq<char>| #[trigger] trades_by_id(trades).contains_key(k) implies trades_by_id(trades)[k] == self.trades()[k] by {
            let i = choose|i: int| 0 <= i < trades.len() && trades[i].id@ == k;
            assert(trades_by_id(trades)[trades[i].id@] == trades[i].model());
        }
        assert forall|k: Seq<char>| self.trades().contains_key(k) <==> #[trigger] trades_by_id(trades).contains_key(k) by {
            if self.trades().contains_key(k) {
                let i = choose|i: int| 0 <= i < trades.len() && trades[i].id@ == k;
                assert(trades[i].id@ == k);
            }
            if trades_by_id(trades).contains_key(k) {
                let i = choose|i: int| 0 <= i < trades.len() && trades[i].id@ == k;
                assert(self.trades().contains_key(trades[i].id@));
            }
        }
        assert(trades_by_id(trades) =~= self.trades());
    }

    /// Everything in the book, for persisting it.
    pub fn market(&self) -> (r: &Market)
        ensures
            ad_models(key_map(r.ads@)) == self.ads(),
            trade_models(key_map(r.trades@)) == self.trades(),
    {
        &self.market
    }

    /// Every ad and every trade is filed under its own id.
    pub proof fn law_filed_by_id(&self)
        ensures
            forall|k: Seq<char>| #[trigger] self.ads().contains_key(k) ==> self.ads()[k].id == k,
            forall|k: Seq<char>| #[trigger] self.trades().contains_key(k) ==> self.trades()[k].id == k,
    {
        assert forall|k: Seq<char>| #[trigger] self.ads().contains_key(k) implies self.ads()[k].id == k by {
            let i = crate::keyed::key_index(self.market.ads@, k);
            assert(self.market.ads@[i].key() == k);
        }
        assert forall|k: Seq<char>| #[trigger] self.trades().contains_key(k) implies self.trades()[k].id == k by {
            let i = crate::keyed::key_index(self.market.trades@, k);
            assert(self.market.trades@[i].key() == k);
        }
    }

    proof fn lemma_ads_insert(s: Seq<Ad>, k: Seq<char>, x: Ad)
        ensures
            ad_models(key_map(s).insert(k, x)) == ad_models(key_map(s)).insert(k, x.model()),
    {
        assert(ad_models(key_map(s).insert(k, x)) =~= ad_models(key_map(s)).insert(k, x.model()));
    }

    proof fn lemma_trades_insert(s: Seq<Trade>, k: Seq<char>, x: Trade)
        ensures
            trade_models(key_map(s).insert(k, x)) == trade_models(key_map(s)).insert(
                k,
                x.model(),
            ),
    {
        assert(trade_models(key_map(s).insert(k, x)) =~= trade_models(key_map(s)).insert(
            k,
            x.model(),
        ));
    }

    proof fn lemma_trades_remove(s: Seq<Trade>, k: Seq<char>)
        ensures
            trade_models(key_map(s).remove(k)) == trade_models(key_map(s)).remove(k),
    {
        assert(trade_models(key_map(s).remove(k)) =~= trade_models(key_map(s)).remove(k));
    }

    /// Stores `a` under its id.
    pub(crate) fn store_ad(&mut self, a: Ad)
        requires
            old(self).wf(),
        ensures
            final(self).wf(),
            final(self).ads() == old(self).ads().insert(a.id@, a.model()),
            final(self).trades() == old(self).trades(),
    {
        let ghost k = a.id@;
        let ghost am = a.model();
        proof {
            Self::lemma_ads_insert(self.market.ads@, a.key(), a);
        }
        insert_keyed(&mut self.market.ads, a);
    }

    /// Stores `t` under its id.
    pub(crate) fn store_trade(&mut self, t: Trade)
        requires
            old(self).wf(),
        ensures
            final(self).wf(),
            final(self).trades() == old(self).trades().insert(t.id@, t.model()),
            final(self).ads() == old(self).ads(),
    {
        proof {
            Self::lemma_trades_insert(self.market.trades@, t.key(), t);
        }
        insert_keyed(&mut self.market.trades, t);
    }

    /// Slot of the trade `id`.
    pub(crate) fn lookup_trade(&self, id: &str) -> (r: Option<usize>)
        requires
            self.wf(),
        ensures
            match r {
                Some(i) => i < self.trade_slots() && self.trade_slot(i as int) == id@
                    && self.trades().contains_key(id@),
                None => !self.trades().contains_key(id@),
            },
    {
        let k = chars_of(id);
        find_key(&self.market.trades, &k)
    }

    /// The trade in slot `i`.
    pub(crate) fn trade_in(&self, i: usize) -> (r: &Trade)
        requires
            self.wf(),
            i < self.trade_slots(),
        ensures
            r.id@ == self.trade_slot(i as int),
            self.trades().contains_key(r.id@),
            r.model() == self.trades()[r.id@],
    {
        proof {
            lemma_sorted_index(self.market.trades@, i as int);
        }
        &self.market.trades[i]
    }

    /// Replaces the trade in slot `i` by `t`, which has the same id.
    pub(crate) fn replace_trade(&mut self, i: usize, t: Trade)
        requires
            old(self).wf(),
            i < old(self).trade_slots(),
            t.id@ == old(self).trade_slot(i as int),
        ensures
            final(self).wf(),
            final(self).ads() == old(self).ads(),
            final(self).trades() == old(self).trades().insert(t.id@, t.model()),
            final(self).trade_slots() == old(self).trade_slots(),
            forall|j: int| 0 <= j < old(self).trade_slots() ==> #[trigger] final(self).trade_slot(j) == old(self).trade_slot(j),
    {
        proof {
            lemma_update_keyed(self.market.trades@, i as int, t);
            Self::lemma_trades_insert(self.market.trades@, t.key(), t);
        }
        self.market.trades.set(i, t);
    }

    /// Removes the trade in slot `i`.
    pub(crate) fn drop_trade(&mut self, i: usize)
        requires
            old(self).wf(),
            i < old(self).trade_slots(),
        ensures
            final(self).wf(),
            final(self).ads() == old(self).ads(),
            final(self).trades() == old(self).trades().remove(old(self).trade_slot(i as int)),
    {
        proof {
            lemma_remove_keyed(self.market.trades@, i as int);
            Self::lemma_trades_remove(self.market.trades@, self.market.trades@[i as int].key());
        }
        self.market.trades.remove(i);
    }

    /// Slot of the ad `id`.
    pub(crate) fn lookup_ad(&self, id: &str) -> (r: Option<usize>)
        requires
            self.wf(),
        ensures
            match r {
                Some(i) => i < self.ad_slots() && self.ad_slot(i as int) == id@
                    && self.ads().contains_key(id@),
                None => !self.ads().contains_key(id@),
            },
    {
        let k = chars_of(id);
        find_key(&self.market.ads, &k)
    }

    /// The ad in slot `i`.
    pub(crate) fn ad_in(&self, i: usize) -> (r: &Ad)
        requires
            self.wf(),
            i < self.ad_slots(),
        ensures
            r.id@ == self.ad_slot(i as int),
            self.ads().contains_key(r.id@),
            r.model() == self.ads()[r.id@],
    {
        proof {
            lemma_sorted_index(self.market.ads@, i as int);
        }
        &self.market.ads[i]
    }

    /// Replaces the ad in slot `i` by `a`, which has the same id.
    pub(crate) fn replace_ad(&mut self, i: usize, a: Ad)
        requires
            old(self).wf(),
            i < old(self).ad_slots(),
            a.id@ == old(self).ad_slot(i as int),
        ensures
            final(self).wf(),
            final(self).trades() == old(self).trades(),
            final(self).ads() == old(self).ads().insert(a.id@, a.model()),
    {
        proof {
            lemma_update_keyed(self.market.ads@, i as int, a);
            Self::lemma_ads_insert(self.market.ads@, a.key(), a);
        }
        self.market.ads.set(i, a);
    }

    /// Returns `amount` CKB to the ad `ad_id` and frees it from `trade_id`.
    pub fn return_ckb(&mut self, ad_id: &str, trade_id: &str, amount: &str) -> (r: Result<(), OrderError>)
        requires
            old(self).wf(),
        ensures
            final(self).wf(),
            final(self).trades() == old(self).trades(),
            match returned_ckb(old(self).ads(), ad_id@, trade_id@, amount@) {
                Ok(ads) => r is Ok && final(self).ads() == ads,
                Err(e) => r matches Err(x) && x.model() == e && final(self).ads() == old(self).ads(),
            },
    {
        let i = match self.lookup_ad(ad_id) {
            Some(i) => i,
            None => return Ok(()),
        };
        let mut ad = self.ad_in(i).duplicate();
        ad.available = match add_ckb(ad.available.as_str(), amount) {
            Ok(v) => v,
            Err(e) => return Err(OrderError::BadAmount(e)),
        };
        let frees = match &ad.open_trade_id {
            Some(t) => crate::text::text_is(t.as_str(), trade_id),
            None => false,
        };
        if frees {
            ad.open_trade_id = None;
        }
        proof {
            let old_ad = old(self).ads()[ad_id@];
            assert(ad.model() == (AdModel {
                available: ad.available@,
                open_trade_id: if old_ad.open_trade_id == Some(trade_id@) {
                    None
                } else {
                    old_ad.open_trade_id
                },
                ..old_ad
            }));
        }
        self.replace_ad(i, ad);
        Ok(())
    }
}

pub open spec fn opt_str(o: Option<&str>) -> Option<Seq<char>> {
    match o {
        Some(s) => Some(s@),
        None => None,
    }
}

/// The normalized public key that `list_trades` filters by, if any.
pub open spec fn wanted_key(pubkey: Option<Seq<char>>) -> Option<Seq<char>> {
    match pubkey {
        Some(p) => if pubkey_key(p).len() > 0 {
            Some(pubkey_key(p))
        } else {
            None
        },
        None => None,
    }
}

/// The trade involves the wanted key, as lister or as taker.
pub open spec fn involves(t: TradeModel, want: Option<Seq<char>>) -> bool {
    match want {
        Some(w) => pubkey_key(t.pubkey) == w || pubkey_key(t.taker) == w,
        None => true,
    }
}

/// The ad `id` once cancelled.
pub open spec fn cancelled_ad(ad: AdModel) -> AdModel {
    AdModel { cancelled: true, open_trade_id: None, ..ad }
}

impl MarketStore {
    /// The ads on the book, in increasing id order.
    pub fn list_ads(&self) -> (r: Vec<AdView>)
        requires
            self.wf(),
        ensures
            forall|i: int|
                0 <= i < r@.len() ==> {
                    &&& self.ads().contains_key(#[trigger] r@[i].id@)
                    &&& shoppable(self.trades(), self.ads()[r@[i].id@])
                    &&& r@[i].model() == ad_public(self.ads()[r@[i].id@])
                },
            forall|k: Seq<char>|
                #[trigger] self.ads().contains_key(k) && shoppable(self.trades(), self.ads()[k])
                    ==> exists|i: int| 0 <= i < r@.len() && r@[i].id@ == k,
            forall|i: int, j: int| 0 <= i < j < r@.len() ==> seq_lt(#[trigger] r@[i].id@, #[trigger] r@[j].id@),
    {
        let mut r: Vec<AdView> = Vec::new();
        let ghost mut pos: Seq<int> = Seq::empty();
        let n = self.market.ads.len();
        for idx in 0..n
            invariant
                n == self.market.ads@.len(),
                self.wf(),
                pos.len() == r@.len(),
                forall|i: int| 0 <= i < pos.len() ==> 0 <= #[trigger] pos[i] < idx,
                forall|i: int, j: int| 0 <= i < j < pos.len() ==> #[trigger] pos[i] < #[trigger] pos[j],
                forall|i: int|
                    0 <= i < pos.len() ==> {
                        &&& (#[trigger] r@[i]).id@ == self.market.ads@[pos[i]].id@
                        &&& shoppable(self.trades(), self.market.ads@[pos[i]].model())
                        &&& r@[i].model() == ad_public(self.market.ads@[pos[i]].model())
                    },
                forall|j: int|
                    0 <= j < idx && shoppable(self.trades(), (#[trigger] self.market.ads@[j]).model())
                        ==> exists|i: int| 0 <= i < pos.len() && pos[i] == j,
        {
            let ad = &self.market.ads[idx];
            let ghost pos0 = pos;
            if ad_is_shoppable(&self.market, ad) {
                r.push(ad.view());
                proof {
                    pos = pos.push(idx as int);
                }
            }
            proof {
                assert forall|j: int|
                    0 <= j < idx + 1 && shoppable(self.trades(), (#[trigger] self.market.ads@[j]).model())
                        implies exists|i: int| 0 <= i < pos.len() && pos[i] == j by {
                    if j == idx {
                        assert(pos[pos.len() - 1] == j);
                    } else {
                        let i0 = choose|i: int| 0 <= i < pos0.len() && pos0[i] == j;
                        assert(pos[i0] == j);
                    }
                }
            }
        }
        proof {
            assert forall|i: int| 0 <= i < r@.len() implies {
                &&& self.ads().contains_key(#[trigger] r@[i].id@)
                &&& shoppable(self.trades(), self.ads()[r@[i].id@])
                &&& r@[i].model() == ad_public(self.ads()[r@[i].id@])
            } by {
                lemma_sorted_index(self.market.ads@, pos[i]);
            }
            assert forall|k: Seq<char>|
                #[trigger] self.ads().contains_key(k) && shoppable(self.trades(), self.ads()[k])
                    implies exists|i: int| 0 <= i < r@.len() && r@[i].id@ == k by {
                let j = crate::keyed::key_index(self.market.ads@, k);
                lemma_sorted_index(self.market.ads@, j);
                let i = choose|i: int| 0 <= i < pos.len() && pos[i] == j;
                assert(r@[i].id@ == k);
            }
            assert forall|i: int, j: int| 0 <= i < j < r@.len() implies seq_lt(
                #[trigger] r@[i].id@,
                #[trigger] r@[j].id@,
            ) by {
                assert(pos[i] < pos[j]);
                assert(seq_lt(self.market.ads@[pos[i]].key(), self.market.ads@[pos[j]].key()));
            }
        }
        r
    }

    /// Creates the ad that `body` describes under the id `id`.
    pub fn create_ad_with_id(&mut self, body: &CreateAdBody, id: String) -> (r: Result<AdView, OrderError>)
        requires
            old(self).wf(),
        ensures
            final(self).wf(),
            final(self).trades() == old(self).trades(),
            match ad_terms(body) {
                Err(e) => r matches Err(x) && x.model() == e && final(self).ads() == old(self).ads(),
                Ok(t) => r matches Ok(v) && v.model() == ad_public(new_ad(id@, t)) && final(self).ads()
                    == old(self).ads().insert(id@, new_ad(id@, t)),
            },
    {
        let pubkey = require_text(body.pubkey.as_str(), "pubkey")?;
        let available = amount_or_bad(body.available.as_str())?;
        let price = amount_or_bad(body.price.as_str())?;
        let min = amount_or_bad(body.min.as_str())?;
        let max = amount_or_bad(body.max.as_str())?;
        let payment_method = require_text(body.payment_method.as_str(), "payment_method")?;
        let currency = match &body.currency {
            Some(c) => {
                let t = trim_chars(&chars_of(c.as_str()));
                if t.len() > 0 {
                    string_of(&t)
                } else {
                    owned("NGN")
                }
            },
            None => owned("NGN"),
        };
        if exceeds_exec(min.as_str(), max.as_str())? {
            return Err(OrderError::BadAmount(owned("min cannot exceed max")));
        }
        let min_ckb = match ckb_from_fiat(min.as_str(), price.as_str()) {
            Ok(v) => v,
            Err(e) => return Err(OrderError::BadAmount(e)),
        };
        let max_ckb = match ckb_from_fiat(max.as_str(), price.as_str()) {
            Ok(v) => v,
            Err(e) => return Err(OrderError::BadAmount(e)),
        };
        if exceeds_exec(min_ckb.as_str(), available.as_str())? {
            return Err(OrderError::BadAmount(owned("available is too small for the minimum take")));
        }
        if exceeds_exec(max_ckb.as_str(), available.as_str())? {
            return Err(OrderError::BadAmount(owned("max take is larger than available")));
        }
        let ad = Ad {
            id,
            pubkey,
            available,
            currency,
            price,
            min,
            max,
            payment_method,
            cancelled: false,
            open_trade_id: None,
        };
        let view = ad.view();
        self.store_ad(ad);
        Ok(view)
    }

    /// Creates the ad that `body` describes under a fresh random id.
    pub fn create_ad(&mut self, body: &CreateAdBody) -> (r: Result<AdView, OrderError>)
        requires
            old(self).wf(),
        ensures
            final(self).wf(),
            final(self).trades() == old(self).trades(),
            match ad_terms(body) {
                Err(e) => r matches Err(x) && x.model() == e && final(self).ads() == old(self).ads(),
                Ok(t) => r matches Ok(v) && v.model() == ad_public(new_ad(v.id@, t)) && final(self).ads()
                    == old(self).ads().insert(v.id@, new_ad(v.id@, t)) && exists|b: Seq<u8>|
                    b.len() == 8 && v.id@ == hex_bytes(b),
            },
    {
        let id = new_id();
        self.create_ad_with_id(body, id)
    }

    /// Withdraws the ad `id`, unless a live trade holds it.
    pub fn cancel_ad(&mut self, id: &str) -> (r: Result<AdView, OrderError>)
        requires
            old(self).wf(),
        ensures
            final(self).wf(),
            final(self).trades() == old(self).trades(),
            !old(self).ads().contains_key(id@) ==> (r matches Err(e) && e.model() == not_found(
                "ad "@,
                id@,
            ) && final(self).ads() == old(self).ads()),
            old(self).ads().contains_key(id@) && has_open_trade(old(self).trades(), old(self).ads()[id@])
                ==> (r matches Err(e) && e.model() == ErrorModel::AlreadyOpen && final(self).ads()
                == old(self).ads()),
            old(self).ads().contains_key(id@) && !has_open_trade(old(self).trades(), old(self).ads()[id@])
                ==> (r matches Ok(v) && final(self).ads() == old(self).ads().insert(
                id@,
                cancelled_ad(old(self).ads()[id@]),
            ) && v.model() == ad_public(cancelled_ad(old(self).ads()[id@]))),
    {
        let i = match self.lookup_ad(id) {
            Some(i) => i,
            None => return Err(ad_not_found(id)),
        };
        if ad_has_open_trade(&self.market, self.ad_in(i)) {
            return Err(OrderError::AlreadyOpen);
        }
        let mut ad = self.ad_in(i).duplicate();
        ad.cancelled = true;
        ad.open_trade_id = None;
        let view = ad.view();
        self.replace_ad(i, ad);
        Ok(view)
    }

    /// The trades that involve `pubkey` (all trades when it is absent or
    /// empty), in increasing id order.
    pub fn list_trades(&self, pubkey: Option<&str>) -> (r: Vec<TradeView>)
        requires
            self.wf(),
        ensures
            forall|i: int|
                0 <= i < r@.len() ==> {
                    &&& self.trades().contains_key(#[trigger] r@[i].id@)
                    &&& involves(self.trades()[r@[i].id@], wanted_key(opt_str(pubkey)))
                    &&& r@[i].model() == public_view(self.trades()[r@[i].id@])
                },
            forall|k: Seq<char>|
                #[trigger] self.trades().contains_key(k) && involves(
                    self.trades()[k],
                    wanted_key(opt_str(pubkey)),
                ) ==> exists|i: int| 0 <= i < r@.len() && r@[i].id@ == k,
            forall|i: int, j: int| 0 <= i < j < r@.len() ==> seq_lt(#[trigger] r@[i].id@, #[trigger] r@[j].id@),
    {
        let want: Option<String> = match pubkey {
            Some(p) => {
                let w = normalize_pubkey(p);
                if w.as_str().is_empty() {
                    None
                } else {
                    Some(w)
                }
            },
            None => None,
        };
        let ghost wk = wanted_key(opt_str(pubkey));
        assert(crate::order::opt_text(want) == wk);
        let mut r: Vec<TradeView> = Vec::new();
        let ghost mut pos: Seq<int> = Seq::empty();
        let n = self.market.trades.len();
        for idx in 0..n
            invariant
                n == self.market.trades@.len(),
                self.wf(),
                crate::order::opt_text(want) == wk,
                pos.len() == r@.len(),
                forall|i: int| 0 <= i < pos.len() ==> 0 <= #[trigger] pos[i] < idx,
                forall|i: int, j: int| 0 <= i < j < pos.len() ==> #[trigger] pos[i] < #[trigger] pos[j],
                forall|i: int|
                    0 <= i < pos.len() ==> {
                        &&& (#[trigger] r@[i]).id@ == self.market.trades@[pos[i]].id@
                        &&& involves(self.market.trades@[pos[i]].model(), wk)
                        &&& r@[i].model() == public_view(self.market.trades@[pos[i]].model())
                    },
                forall|j: int|
                    0 <= j < idx && involves((#[trigger] self.market.trades@[j]).model(), wk)
                        ==> exists|i: int| 0 <= i < pos.len() && pos[i] == j,
        {
            let t = &self.market.trades[idx];
            let keep = match &want {
                Some(w) => normalize_pubkey(t.pubkey.as_str()) == *w || normalize_pubkey(
                    t.taker.as_str(),
                ) == *w,
                None => true,
            };
            let ghost pos0 = pos;
            if keep {
                r.push(t.view());
                proof {
                    pos = pos.push(idx as int);
                }
            }
            proof {
                assert forall|j: int|
                    0 <= j < idx + 1 && involves((#[trigger] self.market.trades@[j]).model(), wk)
                        implies exists|i: int| 0 <= i < pos.len() && pos[i] == j by {
                    if j == idx {
                        assert(pos[pos.len() - 1] == j);
                    } else {
                        let i0 = choose|i: int| 0 <= i < pos0.len() && pos0[i] == j;
                        assert(pos[i0] == j);
                    }
                }
            }
        }
        proof {
            assert forall|i: int| 0 <= i < r@.len() implies {
                &&& self.trades().contains_key(#[trigger] r@[i].id@)
                &&& involves(self.trades()[r@[i].id@], wk)
                &&& r@[i].model() == public_view(self.trades()[r@[i].id@])
            } by {
                lemma_sorted_index(self.market.trades@, pos[i]);
            }
            assert forall|k: Seq<char>|
                #[trigger] self.trades().contains_key(k) && involves(self.trades()[k], wk)
                    implies exists|i: int| 0 <= i < r@.len() && r@[i].id@ == k by {
                let j = crate::keyed::key_index(self.market.trades@, k);
                lemma_sorted_index(self.market.trades@, j);
                let i = choose|i: int| 0 <= i < pos.len() && pos[i] == j;
                assert(r@[i].id@ == k);
            }
            assert forall|i: int, j: int| 0 <= i < j < r@.len() implies seq_lt(
                #[trigger] r@[i].id@,
                #[trigger] r@[j].id@,
            ) by {
                assert(pos[i] < pos[j]);
                assert(seq_lt(
                    self.market.trades@[pos[i]].key(),
                    self.market.trades@[pos[j]].key(),
                ));
            }
        }
        r
    }

    /// The public view of the trade `id`.
    pub fn get_trade(&self, id: &str) -> (r: Result<TradeView, OrderError>)
        requires
            self.wf(),
        ensures
            match r {
                Ok(v) => self.trades().contains_key(id@) && v.model() == public_view(
                    self.trades()[id@],
                ),
                Err(e) => !self.trades().contains_key(id@) && e.model() == not_found(
                    "trade "@,
                    id@,
                ),
            },
    {
        match self.lookup_trade(id) {
            Some(i) => Ok(self.trade_in(i).view()),
            None => Err(trade_not_found(id)),
        }
    }

    /// The preimage sealed for the trade `trade_id`, if any.
    pub fn persisted_preimage(&self, trade_id: &str) -> (r: Option<String>)
        requires
            self.wf(),
        ensures
            crate::order::opt_text(r) == if self.trades().contains_key(trade_id@) {
                self.trades()[trade_id@].payment_preimage
            } else {
                None
            },
    {
        match self.lookup_trade(trade_id) {
            Some(i) => crate::order::copy_opt(&self.trade_in(i).payment_preimage),
            None => None,
        }
    }
}

/// What a take of an ad settles on.
pub struct TakeTerms {
    pub taker: Seq<char>,
    pub pay_amount: Seq<char>,
    pub ad: AdModel,
    pub amount: Seq<char>,
    pub remaining: Seq<char>,
}

/// The take that `body` asks for, or why it is refused.
pub open spec fn take_terms(
    ads: Map<Seq<char>, AdModel>,
    trades: Map<Seq<char>, TradeModel>,
    body: &CreateTradeBody,
) -> Result<TakeTerms, ErrorModel> {
    match required_text(body.taker@, "taker"@) {
        Err(e) => Err(e),
        Ok(taker) => match amount_field(body.pay_amount@) {
            Err(e) => Err(e),
            Ok(pay) => if !ads.contains_key(body.ad_id@) {
                Err(not_found("ad "@, body.ad_id@))
            } else {
                let ad = ads[body.ad_id@];
                if ad.cancelled {
                    Err(ErrorModel::BadState("ad is cancelled"@))
                } else if has_open_trade(trades, ad) {
                    Err(ErrorModel::AlreadyOpen)
                } else if pubkey_key(ad.pubkey) == pubkey_key(taker) {
                    Err(ErrorModel::BadState("taker must be a different user"@))
                } else {
                    take_limits(ad, taker, pay)
                }
            },
        },
    }
}

/// The take of `pay` from `ad` respects the ad's limits and what it holds.
pub open spec fn take_limits(ad: AdModel, taker: Seq<char>, pay: Seq<char>) -> Result<TakeTerms, ErrorModel> {
    let below_min = if ad.min.len() > 0 {
        falls_short(pay, ad.min)
    } else {
        Ok(false)
    };
    let above_max = if ad.max.len() > 0 {
        exceeds(pay, ad.max)
    } else {
        Ok(false)
    };
    match below_min {
        Err(e) => Err(ErrorModel::BadAmount(e)),
        Ok(true) => Err(ErrorModel::BadAmount("take must be at least "@ + ad.min + " "@ + ad.currency)),
        Ok(false) => match above_max {
            Err(e) => Err(ErrorModel::BadAmount(e)),
            Ok(true) => Err(
                ErrorModel::BadAmount("take must be at most "@ + ad.max + " "@ + ad.currency),
            ),
            Ok(false) => match fiat_for_ckb(ad.available, ad.price) {
                Err(e) => Err(ErrorModel::BadAmount(e)),
                Ok(available_pay) => match exceeds(pay, available_pay) {
                    Err(e) => Err(ErrorModel::BadAmount(e)),
                    Ok(true) => Err(ErrorModel::BadAmount("not enough CKB available on this ad"@)),
                    Ok(false) => match ckb_for_fiat(pay, ad.price) {
                        Err(e) => Err(ErrorModel::BadAmount(e)),
                        Ok(amount) => match exceeds(amount, ad.available) {
                            Err(e) => Err(ErrorModel::BadAmount(e)),
                            Ok(true) => Err(
                                ErrorModel::BadAmount("not enough CKB available on this ad"@),
                            ),
                            Ok(false) => match difference_of(ad.available, amount) {
                                Err(e) => Err(ErrorModel::BadAmount(e)),
                                Ok(remaining) => Ok(
                                    TakeTerms { taker, pay_amount: pay, ad, amount, remaining },
                                ),
                            },
                        },
                    },
                },
            },
        },
    }
}

/// The trade that the take `t` opens under `id`.
pub open spec fn new_trade(id: Seq<char>, t: TakeTerms) -> TradeModel {
    TradeModel {
        id,
        ad_id: t.ad.id,
        pubkey: t.ad.pubkey,
        taker: t.taker,
        currency: t.ad.currency,
        price: t.ad.price,
        pay_amount: t.pay_amount,
        amount: t.amount,
        payment_method: t.ad.payment_method,
        state: OrderState::Pending,
        payment_hash: None,
        payment_preimage: None,
        invoice_address: None,
        invoice_status: None,
        accept_by: None,
        pay_by: None,
        buyer_invoice: None,
        proof: None,
        dispute_from: None,
        dispute_reason: None,
        log: Seq::empty(),
        chat: Seq::empty(),
    }
}

/// The ad once the take `t` reserves its slice for the trade `trade_id`.
pub open spec fn reserved_ad(t: TakeTerms, trade_id: Seq<char>) -> AdModel {
    AdModel { available: t.remaining, open_trade_id: Some(trade_id), ..t.ad }
}

/// What a new trade reserved, for creating its hold invoice.
pub struct Reservation {
    pub trade_id: String,
    pub ad_id: String,
    pub amount: String,
    pub listed_by: String,
    pub currency: String,
    pub price: String,
    pub payment_method: String,
}

impl MarketStore {
    /// Opens the trade `trade_id` that `body` asks for and reserves its slice of the ad.
    pub fn reserve_trade_with_id(&mut self, body: &CreateTradeBody, trade_id: String) -> (r: Result<
        Reservation,
        OrderError,
    >)
        requires
            old(self).wf(),
        ensures
            final(self).wf(),
            match take_terms(old(self).ads(), old(self).trades(), body) {
                Err(e) => r matches Err(x) && x.model() == e && final(self).ads() == old(self).ads()
                    && final(self).trades() == old(self).trades(),
                Ok(t) => r matches Ok(v) && v.trade_id@ == trade_id@ && v.ad_id@ == body.ad_id@
                    && v.amount@ == t.amount && v.listed_by@ == t.ad.pubkey && v.currency@
                    == t.ad.currency && v.price@ == t.ad.price && v.payment_method@
                    == t.ad.payment_method && final(self).ads() == old(self).ads().insert(
                    body.ad_id@,
                    reserved_ad(t, trade_id@),
                ) && final(self).trades() == old(self).trades().insert(
                    trade_id@,
                    new_trade(trade_id@, t),
                ),
            },
    {
        let taker = require_text(body.taker.as_str(), "taker")?;
        let pay_amount = amount_or_bad(body.pay_amount.as_str())?;
        let i = match self.lookup_ad(body.ad_id.as_str()) {
            Some(i) => i,
            None => return Err(ad_not_found(body.ad_id.as_str())),
        };
        let ad = self.ad_in(i).duplicate();
        if ad.cancelled {
            return Err(OrderError::BadState(owned("ad is cancelled")));
        }
        if ad_has_open_trade(&self.market, &ad) {
            return Err(OrderError::AlreadyOpen);
        }
        if normalize_pubkey(ad.pubkey.as_str()) == normalize_pubkey(taker.as_str()) {
            return Err(OrderError::BadState(owned("taker must be a different user")));
        }
        if !ad.min.as_str().is_empty() && falls_short_exec(pay_amount.as_str(), ad.min.as_str())? {
            let mut m = owned("take must be at least ");
            m.append(ad.min.as_str());
            m.append(" ");
            m.append(ad.currency.as_str());
            return Err(OrderError::BadAmount(m));
        }
        if !ad.max.as_str().is_empty() && exceeds_exec(pay_amount.as_str(), ad.max.as_str())? {
            let mut m = owned("take must be at most ");
            m.append(ad.max.as_str());
            m.append(" ");
            m.append(ad.currency.as_str());
            return Err(OrderError::BadAmount(m));
        }
        let available_pay = match fiat_from_ckb(ad.available.as_str(), ad.price.as_str()) {
            Ok(v) => v,
            Err(e) => return Err(OrderError::BadAmount(e)),
        };
        if exceeds_exec(pay_amount.as_str(), available_pay.as_str())? {
            return Err(OrderError::BadAmount(owned("not enough CKB available on this ad")));
        }
        let amount = match ckb_from_fiat(pay_amount.as_str(), ad.price.as_str()) {
            Ok(v) => v,
            Err(e) => return Err(OrderError::BadAmount(e)),
        };
        if exceeds_exec(amount.as_str(), ad.available.as_str())? {
            return Err(OrderError::BadAmount(owned("not enough CKB available on this ad")));
        }
        let remaining = match subtract_ckb(ad.available.as_str(), amount.as_str()) {
            Ok(v) => v,
            Err(e) => return Err(OrderError::BadAmount(e)),
        };
        let trade = Trade {
            id: trade_id.clone(),
            ad_id: ad.id.clone(),
            pubkey: ad.pubkey.clone(),
            taker,
            currency: ad.currency.clone(),
            price: ad.price.clone(),
            pay_amount,
            amount: amount.clone(),
            payment_method: ad.payment_method.clone(),
            state: OrderState::Pending,
            payment_hash: None,
            payment_preimage: None,
            invoice_address: None,
            invoice_status: None,
            accept_by: None,
            pay_by: None,
            buyer_invoice: None,
            proof: None,
            dispute_from: None,
            dispute_reason: None,
            log: Vec::new(),
            chat: Vec::new(),
        };
        proof {
            assert(crate::order::log_model(trade.log@) =~= Seq::<crate::order::LineModel>::empty());
            assert(crate::order::chat_model(trade.chat@) =~= Seq::<crate::order::ChatModel>::empty());
        }
        let mut listed = ad.duplicate();
        listed.available = remaining;
        listed.open_trade_id = Some(trade_id.clone());
        self.replace_ad(i, listed);
        self.store_trade(trade);
        Ok(
            Reservation {
                trade_id,
                ad_id: body.ad_id.clone(),
                amount,
                listed_by: ad.pubkey,
                currency: ad.currency,
                price: ad.price,
                payment_method: ad.payment_method,
            },
        )
    }

    /// Opens the trade that `body` asks for under a fresh random id.
    pub fn reserve_trade(&mut self, body: &CreateTradeBody) -> (r: Result<Reservation, OrderError>)
        requires
            old(self).wf(),
        ensures
            final(self).wf(),
            match take_terms(old(self).ads(), old(self).trades(), body) {
                Err(e) => r matches Err(x) && x.model() == e && final(self).ads() == old(self).ads()
                    && final(self).trades() == old(self).trades(),
                Ok(t) => r matches Ok(v) && v.ad_id@ == body.ad_id@ && v.amount@ == t.amount
                    && final(self).ads() == old(self).ads().insert(
                    body.ad_id@,
                    reserved_ad(t, v.trade_id@),
                ) && final(self).trades() == old(self).trades().insert(
                    v.trade_id@,
                    new_trade(v.trade_id@, t),
                ) && exists|b: Seq<u8>| b.len() == 8 && v.trade_id@ == hex_bytes(b),
            },
    {
        let id = new_id();
        self.reserve_trade_with_id(body, id)
    }

    /// Removes the trade `trade_id` whose hold could not be created and
    /// returns its CKB to the ad.
    pub fn rollback_trade(&mut self, trade_id: &str, ad_id: &str, amount: &str) -> (r: Result<(), OrderError>)
        requires
            old(self).wf(),
        ensures
            final(self).wf(),
            final(self).trades() == old(self).trades().remove(trade_id@),
            match returned_ckb(old(self).ads(), ad_id@, trade_id@, amount@) {
                Ok(ads) => r is Ok && final(self).ads() == ads,
                Err(e) => r matches Err(x) && x.model() == e && final(self).ads() == old(self).ads(),
            },
    {
        match self.lookup_trade(trade_id) {
            Some(i) => self.drop_trade(i),
            None => {
                assert(old(self).trades().remove(trade_id@) =~= old(self).trades());
            },
        }
        self.return_ckb(ad_id, trade_id, amount)
    }
}

/// The ids of the trades of `trades` whose hold may still expire.
pub open spec fn watched_ids(trades: Map<Seq<char>, TradeModel>) -> Set<Seq<char>> {
    Set::new(|k: Seq<char>| trades.contains_key(k) && crate::order::watches_hold(trades[k].state))
}

impl MarketStore {
    /// Ids of the trades whose hold may still expire, in increasing order.
    pub fn watched_trade_ids(&self) -> (r: Vec<String>)
        requires
            self.wf(),
        ensures
            forall|i: int|
                0 <= i < r@.len() ==> self.trades().contains_key(#[trigger] r@[i]@)
                    && crate::order::watches_hold(self.trades()[r@[i]@].state),
            forall|k: Seq<char>|
                #[trigger] self.trades().contains_key(k) && crate::order::watches_hold(
                    self.trades()[k].state,
                ) ==> exists|i: int| 0 <= i < r@.len() && r@[i]@ == k,
            forall|i: int, j: int| 0 <= i < j < r@.len() ==> seq_lt(#[trigger] r@[i]@, #[trigger] r@[j]@),
            forall|k: Seq<char>|
                #[trigger] watched_ids(self.trades()).contains(k) <==> exists|i: int|
                    0 <= i < r@.len() && r@[i]@ == k,
    {
        let mut r: Vec<String> = Vec::new();
        let ghost mut pos: Seq<int> = Seq::empty();
        let n = self.market.trades.len();
        for idx in 0..n
            invariant
                n == self.market.trades@.len(),
                self.wf(),
                pos.len() == r@.len(),
                forall|i: int| 0 <= i < pos.len() ==> 0 <= #[trigger] pos[i] < idx,
                forall|i: int, j: int| 0 <= i < j < pos.len() ==> #[trigger] pos[i] < #[trigger] pos[j],
                forall|i: int| 0 <= i < pos.len() ==> r@[i]@ == self.market.trades@[#[trigger] pos[i]].id@,
                forall|i: int| 0 <= i < pos.len() ==> crate::order::watches_hold(self.market.trades@[#[trigger] pos[i]].state),
                forall|j: int|
                    0 <= j < idx && crate::order::watches_hold((#[trigger] self.market.trades@[j]).state)
                        ==> exists|i: int| 0 <= i < pos.len() && pos[i] == j,
        {
            let t = &self.market.trades[idx];
            let ghost pos0 = pos;
            let ghost r0 = r@;
            if Trade::watches_hold_invoice(t.state) {
                let id = t.id.clone();
                r.push(id);
                proof {
                    pos = pos.push(idx as int);
                    assert forall|i: int| 0 <= i < pos.len() implies r@[i]@ == self.market.trades@[#[trigger] pos[i]].id@ by {
                        if i < pos0.len() {
                            assert(r@[i] == r0[i]);
                            assert(pos[i] == pos0[i]);
                        }
                    }
                }
            }
            proof {
                assert forall|j: int|
                    0 <= j < idx + 1 && crate::order::watches_hold((#[trigger] self.market.trades@[j]).state)
                        implies exists|i: int| 0 <= i < pos.len() && pos[i] == j by {
                    if j == idx {
                        assert(pos[pos.len() - 1] == j);
                    } else {
                        let i0 = choose|i: int| 0 <= i < pos0.len() && pos0[i] == j;
                        assert(pos[i0] == j);
                    }
                }
            }
        }
        proof {
            assert forall|i: int| 0 <= i < r@.len() implies self.trades().contains_key(
                #[trigger] r@[i]@,
            ) && crate::order::watches_hold(self.trades()[r@[i]@].state) by {
                lemma_sorted_index(self.market.trades@, pos[i]);
            }
            assert forall|k: Seq<char>|
                #[trigger] self.trades().contains_key(k) && crate::order::watches_hold(
                    self.trades()[k].state,
                ) implies exists|i: int| 0 <= i < r@.len() && r@[i]@ == k by {
                let j = crate::keyed::key_index(self.market.trades@, k);
                lemma_sorted_index(self.market.trades@, j);
                let i = choose|i: int| 0 <= i < pos.len() && pos[i] == j;
                assert(r@[i]@ == k);
            }
            assert forall|i: int, j: int| 0 <= i < j < r@.len() implies seq_lt(
                #[trigger] r@[i]@,
                #[trigger] r@[j]@,
            ) by {
                assert(pos[i] < pos[j]);
                assert(seq_lt(
                    self.market.trades@[pos[i]].key(),
                    self.market.trades@[pos[j]].key(),
                ));
            }
            assert forall|k: Seq<char>|
                #[trigger] watched_ids(self.trades()).contains(k) <==> exists|i: int|
                    0 <= i < r@.len() && r@[i]@ == k by {
                if exists|i: int| 0 <= i < r@.len() && r@[i]@ == k {
                    let i = choose|i: int| 0 <= i < r@.len() && r@[i]@ == k;
                    assert(self.trades().contains_key(r@[i]@));
                }
                if watched_ids(self.trades()).contains(k) {
                    assert(self.trades().contains_key(k));
                }
            }
        }
        r
    }
}

} // verus!
