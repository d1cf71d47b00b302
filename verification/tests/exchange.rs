//! Messages of the exchange, its REST and socket replies, signing inputs and texts.
use lighter_mm::json::{json_text, parse_json, Json};
use lighter_mm::lighter::messages::{
    normalize_timestamp_ms, AccountAllMsg, OrderBookDetail, OrderBookMsg, OrderBookPayload,
    PositionPayload, PriceLevel, RemoteOrder, TickerMsg, TradePayload, TxResponse,
};
use lighter_mm::lighter::rest::{
    account_position, find_market, is_success_code, normalize_base, rest_result, tx_response,
    Reading,
};
use lighter_mm::lighter::signer::{
    chain_id_for_url, decode, nonempty, signer_filename, strip_key_prefix,
};
use lighter_mm::lighter::tx_ws::{
    batch_frame, code_message, failure_result, infos_text, read_reply, types_text, ReplyStep,
    SendFailure,
};
use lighter_mm::lighter::ws::{find_token, route_frame, subscribe_frame, SubscribeOptions, WsStep};
use lighter_mm::num::Num;
use lighter_mm::text::{
    contains_text, decimal_text, equals_ignoring_case, parse_i32, parse_i64, same_text,
    signed_text, trim,
};
use lighter_mm::types::TxSendStatus;
use serde_json::Value;

fn n(x: f64) -> Num {
    Num::new(x.to_bits())
}

fn f(x: Num) -> f64 {
    f64::from_bits(x.bits)
}

fn num_text(v: &Value) -> Option<Num> {
    v.as_str().and_then(|s| s.parse::<f64>().ok()).map(n)
}

fn side(v: &Value) -> Vec<PriceLevel> {
    v.as_array()
        .map(|a| {
            a.iter()
                .map(|l| PriceLevel {
                    price: num_text(&l["price"]).unwrap_or(n(0.0)),
                    size: num_text(&l["size"]).unwrap_or(n(0.0)),
                })
                .collect()
        })
        .unwrap_or_default()
}

fn book_msg(raw: &str) -> OrderBookMsg {
    let v: Value = serde_json::from_str(raw).unwrap();
    let b = &v["order_book"];
    OrderBookMsg {
        msg_type: v["type"].as_str().unwrap_or("").to_string(),
        offset: v["offset"].as_u64(),
        nonce: v["nonce"].as_i64(),
        begin_nonce: v["begin_nonce"].as_i64(),
        order_book: OrderBookPayload {
            bids: side(&b["bids"]),
            asks: side(&b["asks"]),
            offset: b["offset"].as_u64(),
            nonce: b["nonce"].as_i64(),
            begin_nonce: b["begin_nonce"].as_i64(),
        },
    }
}

fn trade(t: &Value) -> TradePayload {
    TradePayload {
        trade_id: t["trade_id"].as_i64(),
        price: num_text(&t["price"]),
        size: num_text(&t["size"]),
        usd_amount: num_text(&t["usd_amount"]),
        is_maker_ask: t["is_maker_ask"].as_bool(),
        ask_id: t["ask_id"].as_i64(),
        bid_id: t["bid_id"].as_i64(),
        ask_client_id: t["ask_client_id"].as_i64(),
        bid_client_id: t["bid_client_id"].as_i64(),
        ask_account_id: t["ask_account_id"].as_i64(),
        bid_account_id: t["bid_account_id"].as_i64(),
        ask_account_pnl: num_text(&t["ask_account_pnl"]),
        bid_account_pnl: num_text(&t["bid_account_pnl"]),
        timestamp: t["timestamp"].as_i64(),
        transaction_time: t["transaction_time"].as_i64(),
    }
}

#[test]
fn parse_orderbook_snapshot() {
    let raw = r#"{"type":"subscribed/order_book","offset":405053,
        "order_book":{"bids":[{"price":"64820.2","size":"0.00051"}],
        "asks":[{"price":"64820.3","size":"0.19283"}],"offset":405053}}"#;
    let m = book_msg(raw);
    assert!(m.is_snapshot());
    assert_eq!(m.effective_offset(), Some(405053));
    assert_eq!((f(m.order_book.bids[0].price), f(m.order_book.bids[0].size)), (64820.2, 0.00051));
}

#[test]
fn envelope_numbers_come_first() {
    let m = book_msg(
        r#"{"type":"update/order_book","nonce":7,"order_book":{"offset":3,"nonce":9,"begin_nonce":6}}"#,
    );
    assert!(!m.is_snapshot());
    assert_eq!(m.effective_offset(), Some(3));
    assert_eq!(m.effective_nonce(), Some(7));
    assert_eq!(m.effective_begin_nonce(), Some(6));
}

fn detail(symbol: &str, market_id: u32) -> OrderBookDetail {
    let raw = format!(
        r#"{{"symbol":"{symbol}","market_id":{market_id},"min_base_amount":"0.00020","min_quote_amount":"10.000000","supported_size_decimals":5,"supported_price_decimals":1,"maker_fee":"0.0000","status":"active"}}"#
    );
    let v: Value = serde_json::from_str(&raw).unwrap();
    OrderBookDetail {
        symbol: v["symbol"].as_str().unwrap().to_string(),
        market_id: v["market_id"].as_u64().unwrap() as u32,
        min_base_amount: v["min_base_amount"].as_str().unwrap().to_string(),
        min_quote_amount: v["min_quote_amount"].as_str().unwrap().to_string(),
        supported_size_decimals: v["supported_size_decimals"].as_u64().unwrap() as u32,
        supported_price_decimals: v["supported_price_decimals"].as_u64().unwrap() as u32,
        maker_fee: v["maker_fee"].as_str().unwrap().to_string(),
        status: v["status"].as_str().unwrap().to_string(),
    }
}

#[test]
fn parse_orderbooks_rest() {
    let books = vec![detail("BTC", 1)];
    let btc = &books[find_market(&books, "BTC").expect("listed")];
    assert_eq!(btc.market_id, 1);
    assert_eq!(btc.supported_price_decimals, 1);
    assert_eq!(btc.min_base_amount.parse::<f64>().unwrap(), 0.0002);
}

#[test]
fn markets_are_found_in_any_case() {
    let books = vec![detail("ETH", 0), detail("BTC", 1), detail("btc", 2)];
    assert_eq!(find_market(&books, "btc"), Some(1));
    assert_eq!(find_market(&books, "SOL"), None);
}

#[test]
fn position_sign() {
    let p = PositionPayload { position: Some(n(0.0050)), sign: Some(-1), avg_entry_price: None };
    assert!((f(p.signed()) + 0.005).abs() < 1e-12);
}

#[test]
fn parse_account_all_trade_fields_for_pnl() {
    let raw = r#"{
        "type":"update/account_all",
        "trades":{"1":[{
            "type":"trade",
            "trade_id":123,
            "timestamp":1781764389313,
            "transaction_time":1781764389314,
            "price":"64152.1",
            "size":"0.00043",
            "usd_amount":"27.585403",
            "ask_id":11,
            "bid_id":22,
            "ask_client_id":111,
            "bid_client_id":222,
            "ask_account_id":9,
            "bid_account_id":7,
            "ask_account_pnl":"-0.01",
            "bid_account_pnl":"0.02",
            "is_maker_ask":false,
            "maker_fee":40
        }]}
    }"#;
    let v: Value = serde_json::from_str(raw).unwrap();
    let msg = AccountAllMsg {
        msg_type: v["type"].as_str().unwrap().to_string(),
        positions: Vec::new(),
        trades: vec![("1".to_string(), vec![trade(&v["trades"]["1"][0])])],
    };
    let t = &msg.trades[0].1[0];
    assert_eq!(v["trades"]["1"][0]["type"].as_str(), Some("trade"));
    assert_eq!(t.trade_id, Some(123));
    assert_eq!(t.ask_client_id, Some(111));
    assert_eq!(t.bid_client_id, Some(222));
    assert_eq!(t.ask_id, Some(11));
    assert_eq!(t.bid_id, Some(22));
    assert_eq!(t.event_time_ms(), Some(1_781_764_389_314));
    assert!((f(t.price.unwrap()) - 64152.1).abs() < 1e-12);
    assert!((f(t.size.unwrap()) - 0.00043).abs() < 1e-12);
    assert!((f(t.usd_amount.unwrap()) - 27.585403).abs() < 1e-12);
    assert!((f(t.ask_account_pnl.unwrap()) + 0.01).abs() < 1e-12);
    assert!((f(t.bid_account_pnl.unwrap()) - 0.02).abs() < 1e-12);
}

#[test]
fn timestamps_are_brought_to_milliseconds() {
    assert_eq!(normalize_timestamp_ms(1_700_000_000), 1_700_000_000_000);
    assert_eq!(normalize_timestamp_ms(1_700_000_000_123), 1_700_000_000_123);
    assert_eq!(normalize_timestamp_ms(1_700_000_000_123_456), 1_700_000_000_123);
    assert_eq!(normalize_timestamp_ms(1_700_000_000_123_456_789), 1_700_000_000_123);
    assert_eq!(normalize_timestamp_ms(-1_700_000_000_123_456), -1_700_000_000_123);
}

#[test]
fn orders_without_a_status_are_live() {
    let mut o = RemoteOrder {
        client_order_index: Some(1),
        order_index: Some(2),
        is_ask: None,
        price: None,
        remaining_base_amount: None,
        filled_base_amount: None,
        status: None,
    };
    assert!(o.is_live());
    o.status = Some("open".to_string());
    assert!(o.is_live());
    for resting in ["partial_filled", "pending", "in-progress", "triggered", ""] {
        o.status = Some(resting.to_string());
        assert!(o.is_live());
    }
    for gone in ["filled", "cancelled", "expired"] {
        o.status = Some(gone.to_string());
        assert!(!o.is_live());
    }
}

#[test]
fn tickers_under_either_name() {
    let t = TickerMsg { best_bid: None, bid: Some(n(1.0)), best_ask: Some(n(2.0)), ask: Some(n(3.0)) };
    assert_eq!((t.best_bid(), t.best_ask()), (Some(n(1.0)), Some(n(2.0))));
}

// --- rest ---

#[test]
fn base_addresses_lose_their_slashes() {
    assert_eq!(normalize_base("https://host//"), "https://host");
    assert_eq!(normalize_base("https://host"), "https://host");
}

#[test]
fn positions_are_read_from_the_account() {
    let reply = parse_json(
        r#"{"accounts":[{"positions":[{"market_id":2,"position":"9"},{"market_id":1,"position":"0.5","sign":-1}]}]}"#,
    )
    .unwrap();
    match account_position(&reply, 1) {
        Some((Reading::Digits(t), short)) => assert_eq!((t.as_str(), short), ("0.5", true)),
        other => panic!("{other:?}"),
    }
    assert!(account_position(&parse_json("{}").unwrap(), 1).is_none());
}

#[test]
fn replies_become_results() {
    assert!(is_success_code(0) && is_success_code(200) && !is_success_code(400));
    let ok = TxResponse { code: 200, message: String::new(), volume_quota_remaining: Some(5) };
    assert_eq!(rest_result(Ok(ok)).status, TxSendStatus::Accepted);
    let bad = TxResponse { code: 400, message: "no".to_string(), volume_quota_remaining: None };
    let r = rest_result(Ok(bad));
    assert_eq!((r.status, r.code, r.message.as_str()), (TxSendStatus::Rejected, 400, "no"));
    let lost = rest_result(Err("timeout".to_string()));
    assert_eq!((lost.status, lost.message.as_str()), (TxSendStatus::Unknown, "rest_err:timeout"));
    assert_eq!(tx_response(None, true).map(|t| t.code), Some(0));
    assert!(tx_response(None, false).is_none());
}

// --- signer ---

#[test]
fn signer_inputs() {
    assert_eq!(chain_id_for_url("https://mainnet.zklighter.elliot.ai"), 304);
    assert_eq!(strip_key_prefix("0xabc"), "abc");
    assert_eq!(strip_key_prefix("abc"), "abc");
    assert_eq!(signer_filename("linux", "x86_64"), Some("lighter-signer-linux-amd64.so"));
    assert_eq!(signer_filename("plan9", "x86_64"), None);
    assert_eq!(nonempty(Some(String::new())), None);
    assert_eq!(nonempty(Some("x".to_string())), Some("x".to_string()));
}

#[test]
fn signer_outcomes() {
    let tx = decode(14, Some("{}".to_string()), None, Some(String::new())).expect("signed");
    assert_eq!((tx.tx_type, tx.tx_info.as_str(), tx.tx_hash.as_str()), (14, "{}", ""));
    assert_eq!(
        decode(14, None, None, Some("bad nonce".to_string())).unwrap_err(),
        "sign error: bad nonce"
    );
}

// --- the transaction socket ---

#[test]
fn replies_over_the_socket() {
    assert!(matches!(read_reply("{\"type\":\"ping\"}"), ReplyStep::Pong));
    assert!(matches!(read_reply("{\"type\":\"connected\"}"), ReplyStep::Wait));
    assert!(matches!(read_reply("nonsense"), ReplyStep::Wait));
    match read_reply("{\"code\":200,\"message\":\"\",\"volume_quota_remaining\":12}") {
        ReplyStep::Done(r) => {
            assert_eq!(r.status, TxSendStatus::Accepted);
            assert_eq!(r.quota_remaining, Some(12));
        }
        other => panic!("{other:?}"),
    }
    match read_reply("{\"error\":{\"code\":21104,\"message\":\"invalid nonce\"}}") {
        ReplyStep::Done(r) => {
            assert_eq!((r.status, r.code), (TxSendStatus::Rejected, 21104));
            assert_eq!(r.message, "invalid nonce");
        }
        other => panic!("{other:?}"),
    }
}

#[test]
fn error_objects_without_a_code() {
    let v = parse_json("{\"error\":{\"message\":\"x\"}}").unwrap();
    assert_eq!(code_message(&v), (-1, "x".to_string()));
}

#[test]
fn failures_are_unknown_once_something_was_written() {
    for (failure, status, text) in [
        (SendFailure::Connect, TxSendStatus::NotSent, "connect_failed"),
        (SendFailure::Write("e".to_string()), TxSendStatus::Unknown, "send_failed:e"),
        (SendFailure::Disconnected, TxSendStatus::Unknown, "disconnected_after_send"),
        (SendFailure::Timeout, TxSendStatus::Unknown, "response_timeout"),
    ] {
        let r = failure_result(failure);
        assert_eq!((r.status, r.message.as_str()), (status, text));
    }
}

#[test]
fn batches_are_framed_as_texts_in_json() {
    assert_eq!(types_text(&vec![14, 15]), "[14,15]");
    assert_eq!(infos_text(&vec!["{\"a\":1}".to_string()]), "[\"{\\\"a\\\":1}\"]");
    let frame: Value =
        serde_json::from_str(&batch_frame(&vec![14], &vec!["{}".to_string()])).unwrap();
    assert_eq!(frame["type"], "jsonapi/sendtxbatch");
    assert_eq!(frame["data"]["tx_types"], "[14]");
    assert_eq!(frame["data"]["tx_infos"], "[\"{}\"]");
}

// --- subscriptions ---

#[test]
fn subscriptions_carry_their_token() {
    let plain: Value = serde_json::from_str(&subscribe_frame("order_book/1", None)).unwrap();
    assert_eq!(plain["type"], "subscribe");
    assert_eq!(plain["channel"], "order_book/1");
    assert!(plain.get("auth").is_none());
    let authed: Value = serde_json::from_str(&subscribe_frame("account_all/7", Some("t"))).unwrap();
    assert_eq!(authed["auth"], "t");
    let auths = vec![("a".to_string(), "1".to_string()), ("a".to_string(), "2".to_string())];
    assert_eq!(find_token(&auths, "a"), Some("2"));
    assert_eq!(find_token(&auths, "b"), None);
}

#[test]
fn frames_are_routed_by_type() {
    assert!(matches!(route_frame("{\"type\":\"ping\"}"), WsStep::Pong));
    assert!(matches!(route_frame("{\"type\":\"subscribed\"}"), WsStep::Ignore));
    assert!(matches!(route_frame("oops"), WsStep::Ignore));
    match route_frame("{\"type\":\"update/order_book\"}") {
        WsStep::Deliver(t) => assert_eq!(t, "update/order_book"),
        other => panic!("{other:?}"),
    }
    match route_frame("{}") {
        WsStep::Deliver(t) => assert_eq!(t, ""),
        other => panic!("{other:?}"),
    }
}

#[test]
fn options_start_with_the_default_times() {
    let o = SubscribeOptions::new("x", vec!["c".to_string()]);
    assert_eq!(
        (f(o.recv_timeout), f(o.reconnect_base), f(o.reconnect_max), f(o.ping_interval)),
        (30.0, 5.0, 60.0, 20.0)
    );
    assert_eq!(o.label, "x");
}

// --- texts and documents ---

#[test]
fn integers_in_text() {
    assert_eq!(decimal_text(0), "0");
    assert_eq!(decimal_text(u64::MAX), "18446744073709551615");
    assert_eq!(signed_text(i64::MIN), "-9223372036854775808");
    assert_eq!(parse_i64("-9223372036854775808"), Some(i64::MIN));
    assert_eq!(parse_i64("9223372036854775808"), None);
    assert_eq!(parse_i64("+5"), Some(5));
    assert_eq!(parse_i64(""), None);
    assert_eq!(parse_i64("-"), None);
    assert_eq!(parse_i64("5x"), None);
    assert_eq!(parse_i32("2147483648"), None);
    assert_eq!(parse_i32("-2147483648"), Some(i32::MIN));
}

#[test]
fn texts_compare() {
    assert!(same_text("abc", "abc") && !same_text("abc", "abd"));
    assert!(equals_ignoring_case("BtC", "bTc") && !equals_ignoring_case("btc", "btcx"));
    assert!(contains_text("subscribed/order_book", "order_book"));
    assert!(contains_text("x", "") && !contains_text("", "x"));
    assert_eq!(trim("  a b\t\n"), "a b");
    assert_eq!(trim("\u{2003}a\u{a0}"), "a");
}

#[test]
fn documents_are_read_and_printed() {
    let v = parse_json("{\"b\":[1,-2,2.5,\"x\",null,true],\"a\":{}}").unwrap();
    let list = v.get("b").unwrap().as_list().unwrap();
    assert!(matches!(list[0], Json::Unsigned(1)));
    assert!(matches!(list[1], Json::Signed(-2)));
    assert!(matches!(&list[2], Json::Fraction(t) if t == "2.5"));
    assert_eq!(list[3].as_str(), Some("x"));
    assert!(list[4].is_null());
    assert!(v.get("a").unwrap().is_record());
    assert!(v.get("c").is_none());
    assert_eq!(list[0].as_i64(), Some(1));
    let again: Value = serde_json::from_str(&json_text(&v)).unwrap();
    let first: Value =
        serde_json::from_str("{\"b\":[1,-2,2.5,\"x\",null,true],\"a\":{}}").unwrap();
    assert_eq!(again, first);
    assert!(parse_json("{").is_none());
}
