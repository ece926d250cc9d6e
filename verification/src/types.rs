use vstd::prelude::*;

verus! {

/// Side of a spot order.
#[derive(Debug, Clone, Copy, PartialEq, Eq, Structural)]
pub enum OrderType {
    Buy,
    Sell,
}

/// Lifecycle status of a spot order.
#[derive(Debug, Clone, Copy, PartialEq, Eq, Structural)]
pub enum OrderStatus {
    New,
    InProgress,
    PartiallyFilled,
    Filled,
    Cancelled,
    Failed,
    Matched,
}

/// An order as the matching server hands it out in a batch.
#[derive(Debug, Clone)]
pub struct SpotOrder {
    pub id: String,
    pub user: String,
    pub asset: String,
    pub amount: u128,
    pub price: u128,
    pub timestamp: u64,
    pub order_type: OrderType,
    pub status: Option<OrderStatus>,
}

/// What the worker reports back about one order.
#[derive(Debug, Clone)]
pub struct MatcherOrderUpdate {
    pub order_id: String,
    pub price: u128,
    pub timestamp: u64,
    pub new_amount: u128,
    pub status: Option<OrderStatus>,
    pub order_type: OrderType,
}

/// Identification of a worker when it connects.
#[derive(Debug)]
pub struct MatcherConnectRequest {
    pub uuid: String,
}

/// Replies of the matching server.
#[derive(Debug)]
pub enum MatcherResponse {
    Batch(Vec<SpotOrder>),
    Ack,
    NoOrders,
}

/// A worker asking for the next batch of orders.
#[derive(Debug)]
pub struct MatcherBatchRequest {
    pub uuid: String,
}

/// Messages the worker sends to the matching server.
#[derive(Debug)]
pub enum MatcherRequest {
    BatchRequest(MatcherBatchRequest),
    OrderUpdates(Vec<MatcherOrderUpdate>),
    Connect(MatcherConnectRequest),
}

} // verus!
