use spark_matcher_worker::config::Settings;
use spark_matcher_worker::error::Error;
use spark_matcher_worker::matcher_client::{
    IncomingMessage, MatcherClient, Reaction, EMPTY_BATCH_DELAY_SECS, IDLE_REPLY_DELAY_SECS,
};
use spark_matcher_worker::types::{
    MatcherOrderUpdate, MatcherRequest, MatcherResponse, OrderStatus, OrderType, SpotOrder,
};

fn settings(uuid: &str) -> Settings {
    Settings {
        uuid: uuid.to_string(),
        mnemonic: "test test test".to_string(),
        contract_id: "0x0101010101010101010101010101010101010101010101010101010101010101".to_string(),
        websocket_url: "ws://localhost:3000".to_string(),
        chain: "testnet".to_string(),
    }
}

const CANONICAL: &str = "67e55044-10b1-426f-9247-bb680e5fe0c8";

fn client() -> MatcherClient {
    MatcherClient::new(settings(CANONICAL))
}

fn spot(price: u128) -> SpotOrder {
    SpotOrder {
        id: "0x01".to_string(),
        user: "u".to_string(),
        asset: "a".to_string(),
        amount: 3,
        price,
        timestamp: 9,
        order_type: OrderType::Sell,
        status: None,
    }
}

#[test]
fn uuid_is_sent_in_canonical_form() {
    for text in [
        CANONICAL,
        "67E55044-10B1-426F-9247-BB680E5FE0C8",
        "67e5504410b1426f9247bb680e5fe0c8",
        "{67e55044-10b1-426f-9247-bb680e5fe0c8}",
        "URN:uuid:67e55044-10b1-426f-9247-bb680e5fe0c8",
    ] {
        let c = MatcherClient::try_new(settings(text)).unwrap();
        assert_eq!(c.uuid(), CANONICAL);
    }
}

#[test]
fn unreadable_uuid_gives_no_client() {
    assert!(MatcherClient::try_new(settings("not-a-uuid")).is_none());
    assert!(MatcherClient::try_new(settings("67e55044_10b1_426f_9247_bb680e5fe0c8")).is_none());
    assert!(MatcherClient::try_new(settings("")).is_none());
}

#[test]
fn new_client_starts_at_first_wallet() {
    let c = client();
    assert_eq!(c.order_processor().current_wallet(), 0);
    assert_eq!(c.settings().uuid, CANONICAL);
}

#[test]
fn identification_and_batch_requests_carry_the_uuid() {
    let c = MatcherClient::new(settings("67E5504410B1426F9247BB680E5FE0C8"));
    match c.identification_message() {
        MatcherRequest::Connect(r) => assert_eq!(r.uuid, CANONICAL),
        other => panic!("unexpected {:?}", other),
    }
    match c.request_batch() {
        MatcherRequest::BatchRequest(r) => assert_eq!(r.uuid, CANONICAL),
        other => panic!("unexpected {:?}", other),
    }
}

#[test]
fn processed_batch_is_reported() {
    let update = MatcherOrderUpdate {
        order_id: "x".to_string(),
        price: 1,
        timestamp: 2,
        new_amount: 0,
        status: Some(OrderStatus::Matched),
        order_type: OrderType::Buy,
    };
    match client().process_orders(Ok(vec![update])) {
        MatcherRequest::OrderUpdates(u) => {
            assert_eq!(u.len(), 1);
            assert_eq!(u[0].order_id, "x");
        },
        other => panic!("unexpected {:?}", other),
    }
    match client().process_orders(Err(Error::InvalidBatch)) {
        MatcherRequest::OrderUpdates(u) => assert!(u.is_empty()),
        other => panic!("unexpected {:?}", other),
    }
}

#[test]
fn reactions_to_replies() {
    let c = client();
    match c.process_message(IncomingMessage::Response(MatcherResponse::Batch(vec![spot(5), spot(6)]))) {
        Reaction::ProcessOrders(o) => assert_eq!(o.len(), 2),
        other => panic!("unexpected {:?}", other),
    }
    assert!(matches!(
        c.process_message(IncomingMessage::Response(MatcherResponse::Batch(vec![]))),
        Reaction::Wait(s) if s == EMPTY_BATCH_DELAY_SECS
    ));
    assert_eq!(EMPTY_BATCH_DELAY_SECS, 10);
    assert!(matches!(
        c.process_message(IncomingMessage::Response(MatcherResponse::NoOrders)),
        Reaction::Wait(s) if s == IDLE_REPLY_DELAY_SECS
    ));
    assert!(matches!(
        c.process_message(IncomingMessage::Response(MatcherResponse::Ack)),
        Reaction::Wait(1)
    ));
}

#[test]
fn reactions_to_other_frames() {
    let c = client();
    assert!(matches!(
        c.process_message(IncomingMessage::Unreadable("{".to_string())),
        Reaction::ReportUnreadable(t) if t == "{"
    ));
    assert!(matches!(c.process_message(IncomingMessage::Close), Reaction::Closed));
    assert!(matches!(
        c.process_message(IncomingMessage::Failure("reset".to_string())),
        Reaction::Failed(e) if e == "reset"
    ));
    assert!(matches!(c.process_message(IncomingMessage::Other), Reaction::ReportUnexpected));
}

#[test]
fn batches_through_client_turn_wallets() {
    let mut c = client();
    let crossing = vec![spot_side(OrderType::Buy, 10), spot_side(OrderType::Sell, 9)];
    assert_eq!(c.prepare_batch(&crossing).unwrap().wallet_number, 0);
    assert_eq!(c.prepare_batch(&crossing).unwrap().wallet_number, 1);
    assert_eq!(c.order_processor().current_wallet(), 2);
    let refused = vec![spot_side(OrderType::Buy, 8), spot_side(OrderType::Sell, 9)];
    assert!(matches!(c.prepare_batch(&refused), Err(Error::InvalidBatch)));
    assert_eq!(c.order_processor().current_wallet(), 2);
}

fn spot_side(order_type: OrderType, price: u128) -> SpotOrder {
    SpotOrder { order_type, ..spot(price) }
}
