use spark_matcher_worker::config::Settings;
use spark_matcher_worker::error::Error;
use spark_matcher_worker::order_processor::{
    decimal_string, decode_order_ids, derivation_path, failed_updates, match_outcome,
    matched_updates, parse_contract_id, OrderProcessor, WALLET_COUNT,
};
use spark_matcher_worker::types::{MatcherOrderUpdate, OrderStatus, OrderType, SpotOrder};

const ID_A: &str = "0x0101010101010101010101010101010101010101010101010101010101010101";
const ID_B: &str = "ABCDEFabcdef0123456789abcdef0123456789ABCDEF0123456789abcdef0123";

fn settings(contract_id: &str) -> Settings {
    Settings {
        uuid: "67e55044-10b1-426f-9247-bb680e5fe0c8".to_string(),
        mnemonic: "test test test".to_string(),
        contract_id: contract_id.to_string(),
        websocket_url: "ws://localhost:3000".to_string(),
        chain: "testnet".to_string(),
    }
}

fn order(id: &str, order_type: OrderType, price: u128, amount: u128) -> SpotOrder {
    SpotOrder {
        id: id.to_string(),
        user: "user".to_string(),
        asset: "BTC".to_string(),
        amount,
        price,
        timestamp: 1_700_000_000,
        order_type,
        status: Some(OrderStatus::New),
    }
}

fn processor() -> OrderProcessor {
    OrderProcessor::new(settings(ID_A))
}

#[test]
fn spread_of_empty_batch_is_empty() {
    assert_eq!(processor().calculate_spread(&vec![]), (None, None));
}

#[test]
fn spread_takes_highest_buy_and_lowest_sell() {
    let orders = vec![
        order(ID_A, OrderType::Buy, 100, 1),
        order(ID_A, OrderType::Sell, 120, 1),
        order(ID_A, OrderType::Buy, 110, 1),
        order(ID_A, OrderType::Sell, 90, 1),
        order(ID_A, OrderType::Buy, 105, 1),
    ];
    assert_eq!(processor().calculate_spread(&orders), (Some(110), Some(90)));
}

#[test]
fn spread_of_one_sided_batch() {
    let buys = vec![order(ID_A, OrderType::Buy, 7, 1), order(ID_A, OrderType::Buy, 3, 1)];
    assert_eq!(processor().calculate_spread(&buys), (Some(7), None));
    let sells = vec![order(ID_A, OrderType::Sell, 7, 1), order(ID_A, OrderType::Sell, 3, 1)];
    assert_eq!(processor().calculate_spread(&sells), (None, Some(3)));
}

#[test]
fn batch_with_all_buys_below_all_sells_is_refused() {
    let orders = vec![order(ID_A, OrderType::Buy, 100, 1), order(ID_A, OrderType::Sell, 101, 1)];
    assert!(matches!(processor().check_batch(&orders), Err(Error::InvalidBatch)));
}

#[test]
fn crossing_batch_is_accepted() {
    let orders = vec![order(ID_A, OrderType::Buy, 101, 1), order(ID_A, OrderType::Sell, 100, 1)];
    assert!(processor().check_batch(&orders).is_ok());
    let touching = vec![order(ID_A, OrderType::Buy, 100, 1), order(ID_A, OrderType::Sell, 100, 1)];
    assert!(processor().check_batch(&touching).is_ok());
}

#[test]
fn one_sided_batch_is_accepted() {
    let orders = vec![order(ID_A, OrderType::Buy, 1, 1)];
    assert!(processor().check_batch(&orders).is_ok());
    assert!(processor().check_batch(&vec![]).is_ok());
}

fn check_update(u: &MatcherOrderUpdate, o: &SpotOrder, amount: u128, status: OrderStatus) {
    assert_eq!(u.order_id, o.id);
    assert_eq!(u.price, o.price);
    assert_eq!(u.timestamp, o.timestamp);
    assert_eq!(u.new_amount, amount);
    assert_eq!(u.status, Some(status));
    assert_eq!(u.order_type, o.order_type);
}

#[test]
fn failed_updates_keep_amount_and_mark_failed() {
    let orders = vec![order(ID_A, OrderType::Buy, 5, 42), order(ID_B, OrderType::Sell, 4, 7)];
    let updates = failed_updates(&orders);
    assert_eq!(updates.len(), 2);
    check_update(&updates[0], &orders[0], 42, OrderStatus::Failed);
    check_update(&updates[1], &orders[1], 7, OrderStatus::Failed);
}

#[test]
fn matched_updates_empty_the_orders() {
    let orders = vec![order(ID_A, OrderType::Buy, 5, 42), order(ID_B, OrderType::Sell, 4, 7)];
    let updates = matched_updates(&orders);
    assert_eq!(updates.len(), 2);
    check_update(&updates[0], &orders[0], 0, OrderStatus::Matched);
    check_update(&updates[1], &orders[1], 0, OrderStatus::Matched);
}

#[test]
fn process_orders_reports_failed_orders_when_matching_failed() {
    let orders = vec![order(ID_A, OrderType::Buy, 5, 42), order(ID_B, OrderType::Sell, 4, 7)];
    let res = processor().process_orders(orders.clone(), Err(Error::MatchOrders("down".to_string())));
    let updates = res.unwrap();
    assert_eq!(updates.len(), 2);
    check_update(&updates[0], &orders[0], 42, OrderStatus::Failed);
    check_update(&updates[1], &orders[1], 7, OrderStatus::Failed);
}

#[test]
fn process_orders_passes_match_updates_on() {
    let orders = vec![order(ID_A, OrderType::Buy, 5, 42), order(ID_B, OrderType::Sell, 4, 7)];
    let matched = matched_updates(&orders);
    let updates = processor().process_orders(orders.clone(), Ok(matched)).unwrap();
    check_update(&updates[0], &orders[0], 0, OrderStatus::Matched);
    check_update(&updates[1], &orders[1], 0, OrderStatus::Matched);
}

#[test]
fn process_orders_refuses_invalid_batch() {
    let orders = vec![order(ID_A, OrderType::Buy, 4, 42), order(ID_B, OrderType::Sell, 5, 7)];
    let matched = matched_updates(&orders);
    assert!(matches!(processor().process_orders(orders, Ok(matched)), Err(Error::InvalidBatch)));
}

#[test]
fn wallet_numbers_go_round() {
    let mut p = processor();
    let mut seen = Vec::new();
    for _ in 0..(2 * WALLET_COUNT) {
        seen.push(p.get_hd_wallet_number());
    }
    let expected: Vec<u32> = (0..2 * WALLET_COUNT).map(|k| k % WALLET_COUNT).collect();
    assert_eq!(seen, expected);
    assert_eq!(p.current_wallet(), 0);
}

#[test]
fn decimal_strings() {
    assert_eq!(decimal_string(0), "0");
    assert_eq!(decimal_string(9), "9");
    assert_eq!(decimal_string(10), "10");
    assert_eq!(decimal_string(1234567890), "1234567890");
    assert_eq!(decimal_string(u32::MAX), "4294967295");
}

#[test]
fn derivation_paths() {
    assert_eq!(derivation_path(0), "m/44'/1179993420'/0'/0/0");
    assert_eq!(derivation_path(7), "m/44'/1179993420'/7'/0/0");
    assert_eq!(derivation_path(42), "m/44'/1179993420'/42'/0/0");
}

#[test]
fn order_ids_decode_with_or_without_prefix() {
    let orders = vec![order(ID_A, OrderType::Buy, 1, 1), order(ID_B, OrderType::Sell, 1, 1)];
    let ids = decode_order_ids(&orders).unwrap();
    assert_eq!(ids[0], vec![1u8; 32]);
    assert_eq!(ids[1][0], 0xab);
    assert_eq!(ids[1][2], 0xef);
    assert_eq!(ids[1][31], 0x23);
}

#[test]
fn bad_order_ids_are_refused() {
    let short = vec![order("0x0101", OrderType::Buy, 1, 1)];
    assert!(matches!(decode_order_ids(&short), Err(Error::Fuel(_))));
    let bad_char = format!("{}g", &ID_B[..63]);
    let orders = vec![order(ID_A, OrderType::Buy, 1, 1), order(&bad_char, OrderType::Sell, 1, 1)];
    assert!(matches!(decode_order_ids(&orders), Err(Error::Fuel(_))));
    let upper_prefix = format!("0X{}", &ID_A[2..]);
    assert!(decode_order_ids(&vec![order(&upper_prefix, OrderType::Buy, 1, 1)]).is_err());
}

#[test]
fn contract_ids() {
    assert_eq!(parse_contract_id(ID_A).unwrap(), vec![1u8; 32]);
    match parse_contract_id("0xnothex") {
        Err(Error::StringParsing(m)) => assert_eq!(m, "Invalid encoded byte in ContractId"),
        other => panic!("unexpected {:?}", other),
    }
}

#[test]
fn match_outcomes() {
    let orders = vec![order(ID_A, OrderType::Buy, 5, 42)];
    let ok = match_outcome(&orders, Ok(())).unwrap();
    check_update(&ok[0], &orders[0], 0, OrderStatus::Matched);
    match match_outcome(&orders, Err("reverted".to_string())) {
        Err(Error::MatchOrders(m)) => assert_eq!(m, "reverted"),
        other => panic!("unexpected {:?}", other),
    }
}

#[test]
fn prepare_match_uses_next_wallet() {
    let mut p = processor();
    let orders = vec![order(ID_A, OrderType::Buy, 5, 42), order(ID_B, OrderType::Sell, 4, 7)];
    let plan = p.prepare_match(&orders);
    assert_eq!(plan.wallet_number, 0);
    assert_eq!(plan.derivation_path, "m/44'/1179993420'/0'/0/0");
    let targets = plan.targets.unwrap();
    assert_eq!(targets.contract_id, vec![1u8; 32]);
    assert_eq!(targets.order_ids.len(), 2);
    assert_eq!(targets.order_ids[0], vec![1u8; 32]);
    let plan = p.prepare_match(&orders);
    assert_eq!(plan.wallet_number, 1);
    assert_eq!(plan.derivation_path, "m/44'/1179993420'/1'/0/0");
}

#[test]
fn prepare_match_with_bad_contract_still_turns_wallet() {
    let mut p = OrderProcessor::new(settings("not a contract"));
    let orders = vec![order(ID_A, OrderType::Buy, 5, 42)];
    let plan = p.prepare_match(&orders);
    assert_eq!(plan.wallet_number, 0);
    assert!(matches!(plan.targets, Err(Error::StringParsing(_))));
    assert_eq!(p.current_wallet(), 1);
}

#[test]
fn bad_contract_is_reported_before_bad_order_ids() {
    let mut p = OrderProcessor::new(settings("0xzz"));
    let orders = vec![order("not hex", OrderType::Buy, 5, 42)];
    match p.prepare_match(&orders).targets {
        Err(Error::StringParsing(m)) => assert_eq!(m, "Invalid encoded byte in ContractId"),
        Err(other) => panic!("unexpected {:?}", other),
        Ok(_) => panic!("unexpected success"),
    }
    assert_eq!(p.current_wallet(), 1);
}

#[test]
fn bad_order_id_is_a_fuel_error() {
    let mut p = processor();
    let orders = vec![order(ID_A, OrderType::Buy, 5, 42), order("0x12", OrderType::Sell, 4, 7)];
    let plan = p.prepare_match(&orders);
    assert_eq!(plan.wallet_number, 0);
    assert!(matches!(plan.targets, Err(Error::Fuel(_))));
    assert_eq!(p.current_wallet(), 1);
}

#[test]
fn refused_batch_is_not_prepared() {
    let mut p = processor();
    let orders = vec![order(ID_A, OrderType::Buy, 4, 42), order(ID_B, OrderType::Sell, 5, 7)];
    assert!(matches!(p.prepare_batch(&orders), Err(Error::InvalidBatch)));
    assert_eq!(p.current_wallet(), 0);
}

#[test]
fn accepted_batch_is_prepared() {
    let mut p = processor();
    let orders = vec![order(ID_A, OrderType::Buy, 6, 42), order(ID_B, OrderType::Sell, 5, 7)];
    let plan = p.prepare_batch(&orders).unwrap();
    assert_eq!(plan.wallet_number, 0);
    assert_eq!(plan.targets.unwrap().order_ids.len(), 2);
    assert_eq!(p.current_wallet(), 1);
}

#[test]
fn successive_wallet_numbers_wrap() {
    let mut p = processor();
    for _ in 0..7 {
        p.get_hd_wallet_number();
    }
    let seen: Vec<u32> = (0..WALLET_COUNT).map(|_| p.get_hd_wallet_number()).collect();
    assert_eq!(seen, vec![7, 8, 9, 0, 1, 2, 3, 4, 5, 6]);
}

#[test]
fn string_parsing_error_keeps_message() {
    match Error::string_parsing("oops") {
        Error::StringParsing(m) => assert_eq!(m, "oops"),
        other => panic!("unexpected {:?}", other),
    }
}
