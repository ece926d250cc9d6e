use vstd::prelude::*;
use vstd::string::StringExecFns;

use crate::codec::{bits256_from_hex, contract_id_error, contract_id_from_str, decode_b256, push_char};
use crate::config::Settings;
use crate::error::Error;
use crate::spread::{is_highest_buy, is_lowest_sell, lemma_spread_refusal, spread_rejected};
use crate::types::{MatcherOrderUpdate, OrderStatus, OrderType, SpotOrder};

verus! {

/// How many wallets a worker rotates through.
pub const WALLET_COUNT: u32 = 10;

/// The update reporting that an order could not be matched: everything as
/// the order had it, status `Failed`.
pub open spec fn failed_update(o: SpotOrder) -> MatcherOrderUpdate {
    MatcherOrderUpdate {
        order_id: o.id,
        price: o.price,
        timestamp: o.timestamp,
        new_amount: o.amount,
        status: Some(OrderStatus::Failed),
        order_type: o.order_type,
    }
}

/// The update reporting that an order was matched in full: nothing of it is
/// left, status `Matched`.
pub open spec fn matched_update(o: SpotOrder) -> MatcherOrderUpdate {
    MatcherOrderUpdate {
        order_id: o.id,
        price: o.price,
        timestamp: o.timestamp,
        new_amount: 0,
        status: Some(OrderStatus::Matched),
        order_type: o.order_type,
    }
}

pub open spec fn failed_updates_of(orders: Seq<SpotOrder>) -> Seq<MatcherOrderUpdate> {
    orders.map_values(|o: SpotOrder| failed_update(o))
}

pub open spec fn matched_updates_of(orders: Seq<SpotOrder>) -> Seq<MatcherOrderUpdate> {
    orders.map_values(|o: SpotOrder| matched_update(o))
}

/// Decimal digits of a number, most significant first.
pub open spec fn decimal(n: nat) -> Seq<char>
    decreases n,
{
    if n < 10 {
        seq![(48 + n) as char]
    } else {
        decimal(n / 10).push((48 + n % 10) as char)
    }
}

/// The derivation path of the wallet with the given number.
pub open spec fn wallet_path(n: nat) -> Seq<char> {
    "m/44'/1179993420'/"@ + decimal(n) + "'/0/0"@
}

/// Every order id is 32 bytes in hexadecimal.
pub open spec fn ids_decodable(orders: Seq<SpotOrder>) -> bool {
    forall|i: int| 0 <= i < orders.len() ==> #[trigger] decode_b256(orders[i].id@) is Some
}

/// The order ids as 32-byte values.
pub open spec fn decoded_ids(orders: Seq<SpotOrder>) -> Seq<Seq<u8>> {
    orders.map_values(|o: SpotOrder| decode_b256(o.id@)->0)
}

/// The text a derivation path starts with.
pub open spec fn path_prefix() -> Seq<char> {
    seq!['m', '/', '4', '4', '\'', '/', '1', '1', '7', '9', '9', '9', '3', '4', '2', '0', '\'', '/']
}

/// The text a derivation path ends with.
pub open spec fn path_suffix() -> Seq<char> {
    seq!['\'', '/', '0', '/', '0']
}

pub open spec fn all_decimal_digits(s: Seq<char>) -> bool {
    &&& s.len() > 0
    &&& forall|i: int| 0 <= i < s.len() ==> 48 <= (#[trigger] s[i] as int) <= 57
}

/// The number that decimal digits stand for, read most significant first.
pub open spec fn decimal_value(s: Seq<char>) -> nat
    decreases s.len(),
{
    if s.len() == 0 {
        0
    } else {
        decimal_value(s.drop_last()) * 10 + ((s.last() as int - 48) as nat)
    }
}

/// Decimal text reads back as the number it was written for.
pub proof fn lemma_decimal_reads_back(n: nat)
    ensures
        all_decimal_digits(decimal(n)),
        decimal_value(decimal(n)) == n,
    decreases n,
{
    let d = decimal(n);
    if n >= 10 {
        lemma_decimal_reads_back(n / 10);
        assert(d.drop_last() =~= decimal(n / 10));
        assert(d.last() == (48 + n % 10) as char);
        assert(((48 + n % 10) as char) as int == 48 + n % 10);
        assert(decimal_value(d) == decimal_value(decimal(n / 10)) * 10 + n % 10);
        vstd::arithmetic::div_mod::lemma_fundamental_div_mod(n as int, 10);
        assert(n == (n / 10) * 10 + n % 10);
    } else {
        assert(d.drop_last() =~= Seq::<char>::empty());
        assert(decimal_value(Seq::<char>::empty()) == 0);
        assert(d.last() == (48 + n) as char);
        assert(((48 + n) as char) as int == 48 + n);
        assert(decimal_value(d) == decimal_value(d.drop_last()) * 10 + ((d.last() as int - 48) as nat));
    }
}

/// A wallet's derivation path is the fixed prefix, the wallet number in
/// decimal, and the fixed suffix; so different wallets have different
/// paths.
pub proof fn lemma_wallet_path_names_wallet(n: nat)
    ensures
        wallet_path(n) == path_prefix() + wallet_path(n).subrange(
            path_prefix().len() as int,
            wallet_path(n).len() - path_suffix().len(),
        ) + path_suffix(),
        all_decimal_digits(wallet_path(n).subrange(path_prefix().len() as int, wallet_path(n).len() - path_suffix().len())),
        decimal_value(wallet_path(n).subrange(path_prefix().len() as int, wallet_path(n).len() - path_suffix().len()))
            == n,
        forall|m: nat| #[trigger] wallet_path(m) == wallet_path(n) ==> m == n,
{
    reveal_strlit("m/44'/1179993420'/");
    reveal_strlit("'/0/0");
    assert("m/44'/1179993420'/"@ =~= path_prefix());
    assert("'/0/0"@ =~= path_suffix());
    lemma_decimal_reads_back(n);
    let w = wallet_path(n);
    let mid = w.subrange(path_prefix().len() as int, w.len() - path_suffix().len());
    assert(mid =~= decimal(n));
    assert(w =~= path_prefix() + mid + path_suffix());
    assert forall|m: nat| #[trigger] wallet_path(m) == wallet_path(n) implies m == n by {
        lemma_decimal_reads_back(m);
        let wm = wallet_path(m);
        assert(wm.subrange(path_prefix().len() as int, wm.len() - path_suffix().len()) =~= decimal(m));
    }
}

/// A batch whose match failed is reported order by order, in order: each
/// update is the order's own id, price, timestamp and side, its whole amount
/// still open, and the status `Failed` whatever status the order came with.
pub proof fn lemma_failed_updates(orders: Seq<SpotOrder>)
    ensures
        failed_updates_of(orders).len() == orders.len(),
        forall|i: int|
            0 <= i < orders.len() ==> {
                &&& #[trigger] failed_updates_of(orders)[i].status == Some(OrderStatus::Failed)
                &&& failed_updates_of(orders)[i].new_amount == orders[i].amount
                &&& failed_updates_of(orders)[i].order_id == orders[i].id
                &&& failed_updates_of(orders)[i].price == orders[i].price
                &&& failed_updates_of(orders)[i].timestamp == orders[i].timestamp
                &&& failed_updates_of(orders)[i].order_type == orders[i].order_type
            },
{
}

/// A matched batch is reported order by order, in order: each update is
/// the order's own id, price, timestamp and side, nothing of it left, and
/// the status `Matched` whatever status the order came with.
pub proof fn lemma_matched_updates(orders: Seq<SpotOrder>)
    ensures
        matched_updates_of(orders).len() == orders.len(),
        forall|i: int|
            0 <= i < orders.len() ==> {
                &&& #[trigger] matched_updates_of(orders)[i].status == Some(OrderStatus::Matched)
                &&& matched_updates_of(orders)[i].new_amount == 0
                &&& matched_updates_of(orders)[i].order_id == orders[i].id
                &&& matched_updates_of(orders)[i].price == orders[i].price
                &&& matched_updates_of(orders)[i].timestamp == orders[i].timestamp
                &&& matched_updates_of(orders)[i].order_type == orders[i].order_type
            },
{
}

/// Decoded order ids come one per order, in order, each the 32-byte value
/// that order's id is written for.
pub proof fn lemma_decoded_ids(orders: Seq<SpotOrder>)
    requires
        ids_decodable(orders),
    ensures
        decoded_ids(orders).len() == orders.len(),
        forall|i: int| 0 <= i < orders.len() ==> decode_b256(orders[i].id@) == Some(#[trigger] decoded_ids(orders)[i]),
        forall|i: int| 0 <= i < orders.len() ==> (#[trigger] decoded_ids(orders)[i]).len() == 32,
{
    assert forall|i: int| 0 <= i < orders.len() implies decode_b256(orders[i].id@) == Some(#[trigger] decoded_ids(orders)[i]) by {
        assert(decode_b256(orders[i].id@) is Some);
    }
    assert forall|i: int| 0 <= i < orders.len() implies (#[trigger] decoded_ids(orders)[i]).len() == 32 by {
        assert(decode_b256(orders[i].id@) is Some);
    }
}

/// The updates reporting every order of a batch as not matched.
pub fn failed_updates(orders: &Vec<SpotOrder>) -> (res: Vec<MatcherOrderUpdate>)
    ensures
        res@ == failed_updates_of(orders@),
        res@.len() == orders@.len(),
        forall|i: int|
            0 <= i < orders@.len() ==> {
                &&& #[trigger] res@[i].status == Some(OrderStatus::Failed)
                &&& res@[i].new_amount == orders@[i].amount
                &&& res@[i].order_id == orders@[i].id
                &&& res@[i].price == orders@[i].price
                &&& res@[i].timestamp == orders@[i].timestamp
                &&& res@[i].order_type == orders@[i].order_type
            },
{
    proof {
        lemma_failed_updates(orders@);
    }
    let mut res: Vec<MatcherOrderUpdate> = Vec::new();
    let mut k: usize = 0;
    while k < orders.len()
        invariant
            k <= orders.len(),
            res@ == failed_updates_of(orders@.take(k as int)),
        decreases orders.len() - k,
    {
        let o = &orders[k];
        res.push(
            MatcherOrderUpdate {
                order_id: o.id.clone(),
                price: o.price,
                timestamp: o.timestamp,
                new_amount: o.amount,
                status: Some(OrderStatus::Failed),
                order_type: o.order_type,
            },
        );
        assert(orders@.take(k + 1) =~= orders@.take(k as int).push(orders@[k as int]));
        k = k + 1;
    }
    assert(orders@.take(orders.len() as int) =~= orders@);
    res
}

/// The updates reporting every order of a batch as matched.
pub fn matched_updates(orders: &Vec<SpotOrder>) -> (res: Vec<MatcherOrderUpdate>)
    ensures
        res@ == matched_updates_of(orders@),
        res@.len() == orders@.len(),
        forall|i: int|
            0 <= i < orders@.len() ==> {
                &&& #[trigger] res@[i].status == Some(OrderStatus::Matched)
                &&& res@[i].new_amount == 0
                &&& res@[i].order_id == orders@[i].id
                &&& res@[i].price == orders@[i].price
                &&& res@[i].timestamp == orders@[i].timestamp
                &&& res@[i].order_type == orders@[i].order_type
            },
{
    proof {
        lemma_matched_updates(orders@);
    }
    let mut res: Vec<MatcherOrderUpdate> = Vec::new();
    let mut k: usize = 0;
    while k < orders.len()
        invariant
            k <= orders.len(),
            res@ == matched_updates_of(orders@.take(k as int)),
        decreases orders.len() - k,
    {
        let o = &orders[k];
        res.push(
            MatcherOrderUpdate {
                order_id: o.id.clone(),
                price: o.price,
                timestamp: o.timestamp,
                new_amount: 0,
                status: Some(OrderStatus::Matched),
                order_type: o.order_type,
            },
        );
        assert(orders@.take(k + 1) =~= orders@.take(k as int).push(orders@[k as int]));
        k = k + 1;
    }
    assert(orders@.take(orders.len() as int) =~= orders@);
    res
}

fn digit_char(d: u32) -> (c: char)
    requires
        d < 10,
    ensures
        c == (48 + d) as char,
{
    (48u8 + d as u8) as char
}

/// A number in decimal.
pub fn decimal_string(n: u32) -> (s: String)
    ensures
        s@ == decimal(n as nat),
    decreases n,
{
    if n < 10 {
        let mut s = String::new();
        push_char(&mut s, digit_char(n));
        s
    } else {
        let mut s = decimal_string(n / 10);
        push_char(&mut s, digit_char(n % 10));
        s
    }
}

/// The derivation path of the wallet with the given number.
pub fn derivation_path(n: u32) -> (path: String)
    ensures
        path@ == wallet_path(n as nat),
        path@ == path_prefix() + path@.subrange(path_prefix().len() as int, path@.len() - path_suffix().len())
            + path_suffix(),
        all_decimal_digits(path@.subrange(path_prefix().len() as int, path@.len() - path_suffix().len())),
        decimal_value(path@.subrange(path_prefix().len() as int, path@.len() - path_suffix().len()))
            == n,
{
    proof {
        lemma_wallet_path_names_wallet(n as nat);
    }
    let mut path = "m/44'/1179993420'/".to_owned();
    let digits = decimal_string(n);
    path.append(digits.as_str());
    path.append("'/0/0");
    path
}

/// The order ids of a batch as 32-byte values; an id that is not 64
/// hexadecimal digits (with an optional `0x`) is a fuels error.
pub fn decode_order_ids(orders: &Vec<SpotOrder>) -> (res: Result<Vec<Vec<u8>>, Error>)
    ensures
        res is Ok <==> ids_decodable(orders@),
        res matches Ok(ids) ==> ids.deep_view() == decoded_ids(orders@),
        res matches Ok(ids) ==> ids@.len() == orders@.len(),
        res matches Ok(ids) ==> forall|i: int|
            0 <= i < orders@.len() ==> decode_b256(orders@[i].id@) == Some(#[trigger] ids@[i]@),
        res matches Err(e) ==> e is Fuel,
{
    let mut ids: Vec<Vec<u8>> = Vec::new();
    let mut k: usize = 0;
    while k < orders.len()
        invariant
            k <= orders.len(),
            ids_decodable(orders@.take(k as int)),
            ids@.len() == k,
            ids.deep_view() == decoded_ids(orders@.take(k as int)),
        decreases orders.len() - k,
    {
        let ghost prev = orders@.take(k as int);
        let ghost prev_ids = ids.deep_view();
        match bits256_from_hex(orders[k].id.as_str()) {
            Ok(b) => {
                ids.push(b);
            },
            Err(m) => {
                assert(!ids_decodable(orders@)) by {
                    assert(decode_b256(orders@[k as int].id@) is None);
                }
                return Err(Error::Fuel(m));
            },
        }
        proof {
            let next = orders@.take(k + 1);
            assert(next =~= prev.push(orders@[k as int]));
            assert(decode_b256(orders@[k as int].id@) == Some(ids@[k as int]@));
            assert forall|i: int| 0 <= i < next.len() implies #[trigger] ids.deep_view()[i]
                == decoded_ids(next)[i] by {
                if i < k {
                    assert(ids.deep_view()[i] == prev_ids[i]);
                    assert(next[i] == prev[i]);
                }
            }
            assert(ids.deep_view() =~= decoded_ids(next));
        }
        k = k + 1;
    }
    assert(orders@.take(orders.len() as int) =~= orders@);
    proof {
        lemma_decoded_ids(orders@);
        assert forall|i: int| 0 <= i < orders@.len() implies decode_b256(orders@[i].id@) == Some(#[trigger] ids@[i]@) by {
            assert(ids.deep_view()[i] == ids@[i]@);
        }
    }
    Ok(ids)
}

/// The id of the market contract as 32 bytes; an unreadable id is a
/// string-parsing error with the contract-id parser's message.
pub fn parse_contract_id(s: &str) -> (res: Result<Vec<u8>, Error>)
    ensures
        res is Err <==> decode_b256(s@) is None,
        res matches Ok(b) ==> decode_b256(s@) == Some(b@),
        res matches Err(e) ==> (e matches Error::StringParsing(m) && m@ == contract_id_error()),
{
    match contract_id_from_str(s) {
        Ok(b) => Ok(b),
        Err(m) => Err(Error::string_parsing(m.as_str())),
    }
}

/// What a match attempt comes to: every order matched when the contract
/// call went through, the call's error message otherwise.
pub fn match_outcome(orders: &Vec<SpotOrder>, call: Result<(), String>) -> (res: Result<Vec<MatcherOrderUpdate>, Error>)
    ensures
        call is Ok ==> (res matches Ok(u) && u@ == matched_updates_of(orders@)),
        call is Ok ==> (res matches Ok(u) && u@.len() == orders@.len() && forall|i: int|
            0 <= i < orders@.len() ==> (#[trigger] u@[i].status == Some(OrderStatus::Matched)
                && u@[i].new_amount == 0 && u@[i].order_id == orders@[i].id)),
        call matches Err(m) ==> (res matches Err(Error::MatchOrders(e)) && e == m),
{
    match call {
        Ok(()) => Ok(matched_updates(orders)),
        Err(m) => Err(Error::MatchOrders(m)),
    }
}

/// Where a batch goes in the market: the contract, and the orders' ids.
pub struct MatchTargets {
    pub contract_id: Vec<u8>,
    pub order_ids: Vec<Vec<u8>>,
}

/// What a worker needs to submit a batch to the market: its wallet's number
/// and derivation path, and the contract and order ids when they read.
pub struct MatchPlan {
    pub wallet_number: u32,
    pub derivation_path: String,
    pub targets: Result<MatchTargets, Error>,
}

/// What `prepare_match` gives for a batch, from the processor as it was
/// before: the wallet it found and that wallet's path; then, in this order,
/// an unreadable contract id as a string-parsing error, an unreadable order
/// id as a fuels error, or both as 32-byte values.
pub open spec fn plan_fits(p: OrderProcessor, orders: Seq<SpotOrder>, plan: MatchPlan) -> bool {
    let contract = decode_b256(p.settings_of().contract_id@);
    &&& plan.wallet_number == p.wallet()
    &&& plan.wallet_number < WALLET_COUNT
    &&& plan.derivation_path@ == wallet_path(p.wallet() as nat)
    &&& contract is None ==> (plan.targets matches Err(e) && e matches Error::StringParsing(m)
        && m@ == contract_id_error())
    &&& contract is Some && !ids_decodable(orders) ==> (plan.targets matches Err(e) && e is Fuel)
    &&& plan.targets is Ok <==> (contract is Some && ids_decodable(orders))
    &&& plan.targets matches Ok(t) ==> {
        &&& contract == Some(t.contract_id@)
        &&& t.order_ids.deep_view() == decoded_ids(orders)
        &&& t.order_ids@.len() == orders.len()
        &&& forall|i: int| 0 <= i < orders.len() ==> decode_b256(orders[i].id@) == Some(#[trigger] t.order_ids@[i]@)
    }
}

/// Validates batches of orders and prepares them for matching, each batch
/// with the next of its wallets in turn.
pub struct OrderProcessor {
    settings: Settings,
    hd_wallet_number: u32,
}

impl OrderProcessor {
    #[verifier::type_invariant]
    spec fn wallet_in_range(self) -> bool {
        self.hd_wallet_number < WALLET_COUNT
    }

    /// The number of the wallet that the next batch uses.
    pub closed spec fn wallet(self) -> u32 {
        self.hd_wallet_number
    }

    pub closed spec fn settings_of(self) -> Settings {
        self.settings
    }

    pub fn new(settings: Settings) -> (p: OrderProcessor)
        ensures
            p.wallet() == 0,
            p.settings_of() == settings,
    {
        OrderProcessor { settings, hd_wallet_number: 0 }
    }

    pub fn settings(&self) -> (s: &Settings)
        ensures
            *s == self.settings_of(),
    {
        &self.settings
    }

    /// The number of the wallet that the next batch uses, always below
    /// the wallet count.
    pub fn current_wallet(&self) -> (n: u32)
        ensures
            n == self.wallet(),
            n < WALLET_COUNT,
    {
        proof {
            use_type_invariant(self);
        }
        self.hd_wallet_number
    }

    /// Hands out the current wallet number and moves on to the next one,
    /// back to the first after the last.
    pub fn get_hd_wallet_number(&mut self) -> (n: u32)
        ensures
            n == old(self).wallet(),
            n < WALLET_COUNT,
            final(self).wallet() == (old(self).wallet() + 1) % (WALLET_COUNT as int),
            is_wallet_turn(old(self).wallet(), final(self).wallet(), n),
            final(self).settings_of() == old(self).settings_of(),
    {
        proof {
            use_type_invariant(&*self);
        }
        let current = self.hd_wallet_number;
        self.hd_wallet_number = (current + 1) % WALLET_COUNT;
        current
    }

    /// The highest buy price and the lowest sell price of a batch.
    pub fn calculate_spread(&self, orders: &Vec<SpotOrder>) -> (res: (Option<u128>, Option<u128>))
        ensures
            is_highest_buy(orders@, res.0),
            is_lowest_sell(orders@, res.1),
    {
        let mut min_sell: Option<u128> = None;
        let mut max_buy: Option<u128> = None;
        let mut k: usize = 0;
        while k < orders.len()
            invariant
                k <= orders.len(),
                is_highest_buy(orders@.take(k as int), max_buy),
                is_lowest_sell(orders@.take(k as int), min_sell),
            decreases orders.len() - k,
        {
            let ghost prev = orders@.take(k as int);
            let order = &orders[k];
            match order.order_type {
                OrderType::Buy => {
                    match max_buy {
                        Some(max) => {
                            if order.price > max {
                                max_buy = Some(order.price);
                            }
                        },
                        None => {
                            max_buy = Some(order.price);
                        },
                    }
                },
                OrderType::Sell => {
                    match min_sell {
                        Some(min) => {
                            if order.price < min {
                                min_sell = Some(order.price);
                            }
                        },
                        None => {
                            min_sell = Some(order.price);
                        },
                    }
                },
            }
            proof {
                let next = orders@.take(k + 1);
                assert(next =~= prev.push(orders@[k as int]));
                assert(next[k as int] == orders@[k as int]);
                assert forall|i: int| 0 <= i < k implies #[trigger] next[i] == prev[i] by {}
            }
            k = k + 1;
        }
        assert(orders@.take(orders.len() as int) =~= orders@);
        (max_buy, min_sell)
    }

    /// Refuses a batch in which every buy is priced below every sell.
    pub fn check_batch(&self, orders: &Vec<SpotOrder>) -> (res: Result<(), Error>)
        ensures
            res is Err <==> spread_rejected(orders@),
            res matches Err(e) ==> e is InvalidBatch,
    {
        let (max_buy, min_sell) = self.calculate_spread(orders);
        proof {
            lemma_spread_refusal(orders@, max_buy, min_sell);
        }
        match (max_buy, min_sell) {
            (Some(max_buy), Some(min_sell)) => {
                if max_buy < min_sell {
                    return Err(Error::InvalidBatch);
                }
            },
            _ => {},
        }
        Ok(())
    }

    /// The updates for a batch: refused when its spread leaves nothing to
    /// match; otherwise those of the match attempt, or, when the attempt
    /// failed, every order reported as failed.
    pub fn process_orders(&self, orders: Vec<SpotOrder>, matched: Result<Vec<MatcherOrderUpdate>, Error>) -> (res: Result<Vec<MatcherOrderUpdate>, Error>)
        ensures
            res is Err <==> spread_rejected(orders@),
            res matches Err(e) ==> e is InvalidBatch,
            !spread_rejected(orders@) ==> (res matches Ok(u) && u@ == match matched {
                Ok(m) => m@,
                Err(_) => failed_updates_of(orders@),
            }),
            !spread_rejected(orders@) && matched is Err ==> (res matches Ok(u) && u@.len()
                == orders@.len() && forall|i: int|
                0 <= i < orders@.len() ==> (#[trigger] u@[i].status == Some(OrderStatus::Failed)
                    && u@[i].new_amount == orders@[i].amount && u@[i].order_id == orders@[i].id)),
    {
        proof {
            lemma_failed_updates(orders@);
        }
        self.check_batch(&orders)?;
        match matched {
            Ok(updates) => Ok(updates),
            Err(_) => Ok(failed_updates(&orders)),
        }
    }

    /// Takes the next wallet for a batch and gathers what its submission
    /// needs. The wallet moves on in every case; the contract id is read
    /// before the order ids, so an unreadable contract id is the error
    /// whatever the ids are.
    pub fn prepare_match(&mut self, orders: &Vec<SpotOrder>) -> (plan: MatchPlan)
        ensures
            final(self).wallet() == (old(self).wallet() + 1) % (WALLET_COUNT as int),
            final(self).settings_of() == old(self).settings_of(),
            plan_fits(*old(self), orders@, plan),
    {
        let wallet_number = self.get_hd_wallet_number();
        let derivation_path = derivation_path(wallet_number);
        let targets = match parse_contract_id(self.settings.contract_id.as_str()) {
            Err(e) => Err(e),
            Ok(contract_id) => match decode_order_ids(orders) {
                Err(e) => Err(e),
                Ok(order_ids) => Ok(MatchTargets { contract_id, order_ids }),
            },
        };
        MatchPlan { wallet_number, derivation_path, targets }
    }

    /// A batch on its way to the market: a refused batch goes no further
    /// and leaves the processor as it was; any other takes the next wallet
    /// and is prepared as `prepare_match` does.
    pub fn prepare_batch(&mut self, orders: &Vec<SpotOrder>) -> (res: Result<MatchPlan, Error>)
        ensures
            res is Err <==> spread_rejected(orders@),
            res matches Err(e) ==> {
                &&& e is InvalidBatch
                &&& final(self).wallet() == old(self).wallet()
                &&& final(self).settings_of() == old(self).settings_of()
            },
            res matches Ok(plan) ==> {
                &&& final(self).wallet() == (old(self).wallet() + 1) % (WALLET_COUNT as int)
                &&& final(self).settings_of() == old(self).settings_of()
                &&& plan_fits(*old(self), orders@, plan)
            },
    {
        self.check_batch(orders)?;
        Ok(self.prepare_match(orders))
    }
}


/// The wallet number after `k` turns starting at `start`, one turn being
/// what `get_hd_wallet_number` does to it.
pub open spec fn wallet_after(start: nat, k: nat) -> nat
    decreases k,
{
    if k == 0 {
        start
    } else {
        (wallet_after(start, (k - 1) as nat) + 1) % (WALLET_COUNT as nat)
    }
}

/// One call of `get_hd_wallet_number`: it hands out `n`, the wallet it found,
/// and leaves the next one.
pub open spec fn is_wallet_turn(before: u32, after: u32, n: u32) -> bool {
    n == before && after == (before + 1) % (WALLET_COUNT as int)
}

/// Successive calls of `get_hd_wallet_number`, each on the processor the
/// one before left (`states[j]` before the `j`-th call, `returned[j]` its
/// result): the `j`-th call returns `wallet_after(start, j)`, which is
/// `start + j` modulo the wallet count, so no two calls among any
/// `WALLET_COUNT` in a row return the same wallet.
pub proof fn lemma_successive_wallet_numbers(states: Seq<u32>, returned: Seq<u32>)
    requires
        states.len() == returned.len() + 1,
        states[0] < WALLET_COUNT,
        forall|j: int|
            0 <= j < returned.len() ==> #[trigger] is_wallet_turn(states[j], states[j + 1], returned[j]),
    ensures
        forall|j: int|
            0 <= j < returned.len() ==> #[trigger] returned[j] == wallet_after(states[0] as nat, j as nat),
        forall|j: int| 0 <= j < returned.len() ==> #[trigger] returned[j] == (states[0] + j) % (WALLET_COUNT as int),
        forall|i: int, j: int|
            0 <= i < j < returned.len() && j - i < WALLET_COUNT ==> #[trigger] returned[i] != #[trigger] returned[j],
{
    let start = states[0] as nat;
    assert forall|j: int| 0 <= j < returned.len() implies #[trigger] returned[j] == wallet_after(start, j as nat) by {
        lemma_states_follow_turns(states, returned, j as nat);
    }
    assert forall|j: int| 0 <= j < returned.len() implies #[trigger] returned[j] == (states[0] + j) % (WALLET_COUNT as int) by {
        lemma_states_follow_turns(states, returned, j as nat);
        lemma_wallet_closed_form(start, j as nat);
    }
    assert forall|i: int, j: int| 0 <= i < j < returned.len() && j - i < WALLET_COUNT implies #[trigger] returned[i]
        != #[trigger] returned[j] by {
        lemma_states_follow_turns(states, returned, i as nat);
        lemma_states_follow_turns(states, returned, j as nat);
        lemma_rotation_distinct(start, i as nat);
        assert(wallet_after(start, (i + 0) as nat) != wallet_after(start, (i + (j - i)) as nat));
    }
}

proof fn lemma_states_follow_turns(states: Seq<u32>, returned: Seq<u32>, j: nat)
    requires
        states.len() == returned.len() + 1,
        forall|j: int|
            0 <= j < returned.len() ==> #[trigger] is_wallet_turn(states[j], states[j + 1], returned[j]),
        j <= returned.len(),
    ensures
        states[j as int] == wallet_after(states[0] as nat, j),
        j < returned.len() ==> returned[j as int] == wallet_after(states[0] as nat, j),
    decreases j,
{
    if j > 0 {
        let p = j - 1;
        lemma_states_follow_turns(states, returned, p as nat);
        assert(is_wallet_turn(states[p], states[p + 1], returned[p]));
    }
    if j < returned.len() {
        let q = j as int;
        assert(is_wallet_turn(states[q], states[q + 1], returned[q]));
    }
}

/// Wallets are handed out round robin: from any wallet, the `k`-th turn
/// uses wallet `start + k` modulo the wallet count, so any run of
/// `WALLET_COUNT` turns uses every wallet exactly once.
pub proof fn lemma_wallet_rotation(start: nat, k: nat)
    requires
        start < WALLET_COUNT,
    ensures
        wallet_after(start, k) == (start + k) % (WALLET_COUNT as nat),
        Set::new(|w: nat| exists|j: nat| j < WALLET_COUNT && #[trigger] wallet_after(start, k + j) == w)
            == Set::new(|w: nat| w < WALLET_COUNT),
        forall|j1: nat, j2: nat|
            j1 < j2 < WALLET_COUNT ==> #[trigger] wallet_after(start, k + j1) != #[trigger] wallet_after(start, k + j2),
{
    lemma_wallet_closed_form(start, k);
    lemma_rotation_covers(start, k);
    lemma_rotation_distinct(start, k);
}

#[verifier::spinoff_prover]
proof fn lemma_rotation_covers(start: nat, k: nat)
    requires
        start < WALLET_COUNT,
    ensures
        Set::new(|w: nat| exists|j: nat| j < WALLET_COUNT && #[trigger] wallet_after(start, k + j) == w)
            == Set::new(|w: nat| w < WALLET_COUNT),
{
    let used = Set::new(|w: nat| exists|j: nat| j < WALLET_COUNT && #[trigger] wallet_after(start, k + j) == w);
    let all = Set::new(|w: nat| w < WALLET_COUNT);
    assert forall|w: nat| #[trigger] used.contains(w) implies all.contains(w) by {
        let j = choose|j: nat| j < WALLET_COUNT && #[trigger] wallet_after(start, k + j) == w;
        lemma_wallet_closed_form(start, k + j);
    }
    assert forall|w: nat| #[trigger] all.contains(w) implies used.contains(w) by {
        let j = lemma_rotation_reaches(start, k, w);
        assert(wallet_after(start, k + j) == w);
    }
    assert(used =~= all);
}

proof fn lemma_rotation_reaches(start: nat, k: nat, w: nat) -> (j: nat)
    requires
        start < WALLET_COUNT,
        w < WALLET_COUNT,
    ensures
        j < WALLET_COUNT,
        wallet_after(start, k + j) == w,
{
    let c = start + k;
    let r = c % 10;
    let j: nat = if w >= r { (w - r) as nat } else { (w + 10 - r) as nat };
    lemma_wallet_closed_form(start, k + j);
    lemma_mod_shift(c, j);
    lemma_mod_small((r + j) as int);
    j
}

#[verifier::spinoff_prover]
proof fn lemma_rotation_distinct(start: nat, k: nat)
    requires
        start < WALLET_COUNT,
    ensures
        forall|j1: nat, j2: nat|
            j1 < j2 < WALLET_COUNT ==> #[trigger] wallet_after(start, k + j1) != #[trigger] wallet_after(start, k + j2),
{
    let c = start + k;
    assert forall|j1: nat, j2: nat| j1 < j2 < WALLET_COUNT implies #[trigger] wallet_after(start, k + j1)
        != #[trigger] wallet_after(start, k + j2) by {
        lemma_wallet_closed_form(start, k + j1);
        lemma_wallet_closed_form(start, k + j2);
        lemma_mod_shift(c, j1);
        lemma_mod_shift(c, j2);
        lemma_mod_small((c % 10 + j1) as int);
        lemma_mod_small((c % 10 + j2) as int);
    }
}

proof fn lemma_mod_small(x: int)
    requires
        0 <= x < 20,
    ensures
        x % 10 == if x < 10 { x } else { x - 10 },
{
}

proof fn lemma_mod_shift(c: nat, j: nat)
    ensures
        (c + j) % 10 == ((c % 10) + j) % 10,
{
    let q = c / 10;
    let r = c % 10;
    assert(c == 10 * q + r);
    vstd::arithmetic::div_mod::lemma_fundamental_div_mod(c as int, 10);
    vstd::arithmetic::div_mod::lemma_mod_multiples_vanish(q as int, (r + j) as int, 10);
    assert((c + j) as int == 10 * (q as int) + (r + j) as int);
}

proof fn lemma_wallet_closed_form(start: nat, k: nat)
    requires
        start < WALLET_COUNT,
    ensures
        wallet_after(start, k) == (start + k) % (WALLET_COUNT as nat),
    decreases k,
{
    if k > 0 {
        lemma_wallet_closed_form(start, (k - 1) as nat);
        lemma_mod_shift((start + k - 1) as nat, 1);
    }
}

} // verus!
