use vstd::prelude::*;

use crate::types::{OrderType, SpotOrder};

verus! {

/// `r` is the highest price among the buy orders, `None` exactly when
/// there is no buy order.
pub open spec fn is_highest_buy(orders: Seq<SpotOrder>, r: Option<u128>) -> bool {
    match r {
        None => forall|i: int| 0 <= i < orders.len() ==> #[trigger] orders[i].order_type != OrderType::Buy,
        Some(m) => {
            &&& exists|i: int|
                0 <= i < orders.len() && #[trigger] orders[i].order_type == OrderType::Buy
                    && orders[i].price == m
            &&& forall|i: int|
                0 <= i < orders.len() && #[trigger] orders[i].order_type == OrderType::Buy
                    ==> orders[i].price <= m
        },
    }
}

/// `r` is the lowest price among the sell orders, `None` exactly when
/// there is no sell order.
pub open spec fn is_lowest_sell(orders: Seq<SpotOrder>, r: Option<u128>) -> bool {
    match r {
        None => forall|i: int| 0 <= i < orders.len() ==> #[trigger] orders[i].order_type != OrderType::Sell,
        Some(m) => {
            &&& exists|i: int|
                0 <= i < orders.len() && #[trigger] orders[i].order_type == OrderType::Sell
                    && orders[i].price == m
            &&& forall|i: int|
                0 <= i < orders.len() && #[trigger] orders[i].order_type == OrderType::Sell
                    ==> m <= orders[i].price
        },
    }
}

/// A batch is refused when it holds both sides and every buy is priced
/// below every sell: nothing in it can cross.
pub open spec fn spread_rejected(orders: Seq<SpotOrder>) -> bool {
    &&& exists|i: int| 0 <= i < orders.len() && #[trigger] orders[i].order_type == OrderType::Buy
    &&& exists|j: int| 0 <= j < orders.len() && #[trigger] orders[j].order_type == OrderType::Sell
    &&& forall|i: int, j: int|
        0 <= i < orders.len() && 0 <= j < orders.len() && #[trigger] orders[i].order_type
            == OrderType::Buy && #[trigger] orders[j].order_type == OrderType::Sell
            ==> orders[i].price < orders[j].price
}

/// The spread refuses a batch exactly when its highest buy is below its
/// lowest sell.
pub proof fn lemma_spread_refusal(orders: Seq<SpotOrder>, max_buy: Option<u128>, min_sell: Option<u128>)
    requires
        is_highest_buy(orders, max_buy),
        is_lowest_sell(orders, min_sell),
    ensures
        spread_rejected(orders) <==> (max_buy is Some && min_sell is Some && max_buy->0
            < min_sell->0),
{
    if max_buy is Some && min_sell is Some && max_buy->0 < min_sell->0 {
        assert forall|i: int, j: int|
            0 <= i < orders.len() && 0 <= j < orders.len() && #[trigger] orders[i].order_type
                == OrderType::Buy && #[trigger] orders[j].order_type == OrderType::Sell
            implies orders[i].price < orders[j].price by {}
    }
    if spread_rejected(orders) {
        let i = choose|i: int| 0 <= i < orders.len() && #[trigger] orders[i].order_type == OrderType::Buy;
        let j = choose|j: int| 0 <= j < orders.len() && #[trigger] orders[j].order_type == OrderType::Sell;
        assert(orders[i].order_type == OrderType::Buy);
        assert(orders[j].order_type == OrderType::Sell);
        let bi = choose|i: int|
            0 <= i < orders.len() && #[trigger] orders[i].order_type == OrderType::Buy
                && orders[i].price == max_buy->0;
        let sj = choose|j: int|
            0 <= j < orders.len() && #[trigger] orders[j].order_type == OrderType::Sell
                && orders[j].price == min_sell->0;
        assert(orders[bi].price < orders[sj].price);
    }
}

} // verus!
