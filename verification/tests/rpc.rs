//! Answers of nodes.

use fortress_wallet::rpc::{CrossCheckError, Endpoint, Untrusted};
use fortress_wallet::rpc_evm::{
    FeeSuggestion, JsonRpcClient, RpcError, RpcParam, RpcResponse, RpcValue, TransactionReceipt,
};

fn endpoint(name: &str) -> Endpoint {
    Endpoint(name.to_string())
}

#[test]
fn trust_returns_inner_value_unconditionally() {
    let balance = Untrusted::new(100u64, endpoint("node-a"));
    assert_eq!(balance.trust(), 100);
}

#[test]
fn cross_check_succeeds_when_all_endpoints_agree() {
    let balance = Untrusted::new(100u64, endpoint("node-a"));
    let others = [endpoint("node-b"), endpoint("node-c")];

    let result = balance.cross_check(&others, |_| 100u64);
    assert_eq!(result.unwrap(), 100);
}

#[test]
fn try_cross_check_succeeds_when_all_endpoints_agree() {
    let balance = Untrusted::new(100u64, endpoint("node-a"));
    let others = [endpoint("node-b"), endpoint("node-c")];

    let result = balance.try_cross_check::<()>(&others, |_| Ok(100u64));
    assert_eq!(result.unwrap(), 100);
}

#[test]
fn try_cross_check_reports_disagreement_distinct_from_query_failure() {
    let balance = Untrusted::new(100u64, endpoint("node-a"));
    let others = [endpoint("node-b")];

    let result = balance.try_cross_check::<()>(&others, |_| Ok(999u64));
    assert!(matches!(result, Err(CrossCheckError::Disagreement(_))));
}

#[test]
fn try_cross_check_reports_query_failure_distinct_from_disagreement() {
    let balance = Untrusted::new(100u64, endpoint("node-a"));
    let others = [endpoint("node-b")];

    let result = balance.try_cross_check(&others, |_| Err::<u64, &str>("connection refused"));
    assert!(matches!(result, Err(CrossCheckError::Query(_, "connection refused"))));
}

#[test]
fn cross_check_fails_on_first_disagreement() {
    let balance = Untrusted::new(100u64, endpoint("node-a"));
    let others = [endpoint("node-b"), endpoint("node-c")];

    let result = balance.cross_check(&others, |e| if e.0 == "node-b" { 999 } else { 100 });

    let err = result.unwrap_err();
    assert_eq!(err.primary, endpoint("node-a"));
    assert_eq!(err.disagreeing, endpoint("node-b"));
}

#[test]
fn cross_check_with_no_other_endpoints_trusts_the_lone_value() {
    let balance = Untrusted::new(100u64, endpoint("node-a"));
    let result = balance.cross_check(&[], |_| unreachable!("no other endpoints to query"));
    assert_eq!(result.unwrap(), 100);
}

#[test]
fn source_names_the_node() {
    let balance = Untrusted::new(100u64, endpoint("node-a"));
    assert_eq!(balance.source(), &endpoint("node-a"));
}

fn client() -> JsonRpcClient {
    JsonRpcClient::new(endpoint("node-a"))
}

fn text(s: &str) -> Result<RpcResponse, RpcError> {
    Ok(RpcResponse { result: Some(RpcValue::Text(s.to_string())), error: None })
}

fn object(members: &[(&str, &str)]) -> Result<RpcResponse, RpcError> {
    let members = members.iter().map(|(k, v)| (k.to_string(), v.to_string())).collect();
    Ok(RpcResponse { result: Some(RpcValue::Object(members)), error: None })
}

#[test]
fn questions_are_exact() {
    let c = client();
    let address = [0x12u8; 20];
    let hex = format!("0x{}", "12".repeat(20));
    let q = c.chain_id_request();
    assert_eq!(q.method, "eth_chainId");
    assert!(q.params.is_empty());
    let q = c.balance_request(&address);
    assert_eq!(q.method, "eth_getBalance");
    assert!(matches!(&q.params[0], RpcParam::Text(t) if *t == hex));
    assert!(matches!(&q.params[1], RpcParam::Text(t) if t == "latest"));
    let q = c.transaction_count_request(&address);
    assert_eq!(q.method, "eth_getTransactionCount");
    let q = c.call_contract_request(&address, &[0xab, 0x01]);
    assert_eq!(q.method, "eth_call");
    assert!(matches!(&q.params[0], RpcParam::Call { to, data } if *to == hex && data == "0xab01"));
    let q = c.fee_suggestion_request();
    assert_eq!(q.method, "eth_getBlockByNumber");
    assert!(matches!(q.params[1], RpcParam::Flag(false)));
    let q = c.estimate_gas_request(&address, 255);
    assert!(matches!(&q.params[0], RpcParam::Transfer { to, value } if *to == hex && value == "0xff"));
    let q = c.send_raw_transaction_request(&[0x02, 0xc0]);
    assert_eq!(q.method, "eth_sendRawTransaction");
    assert!(matches!(&q.params[0], RpcParam::Text(t) if t == "0x02c0"));
    let q = c.transaction_receipt_request(&[0xaa; 32]);
    assert_eq!(q.method, "eth_getTransactionReceipt");
    assert_eq!(c.block_number_request().method, "eth_blockNumber");
}

#[test]
fn quantities_from_nodes() {
    let c = client();
    assert_eq!(c.chain_id(text("0xaa36a7")).unwrap().trust(), 11_155_111);
    assert_eq!(c.balance(text("0xde0b6b3a7640000")).unwrap().trust(), 1_000_000_000_000_000_000);
    assert_eq!(c.transaction_count(text("0x9")).unwrap().trust(), 9);
    assert_eq!(c.block_number(text("0x10")).unwrap().trust(), 16);
    assert_eq!(c.estimate_gas(text("0x5208")).unwrap().trust(), 21_000);
    let e = c.chain_id(text("zz")).unwrap_err();
    assert_eq!(e.text(), "malformed response: eth_chainId: expected 0x-prefixed hex, got zz");
    let e = c.chain_id(object(&[])).unwrap_err();
    assert_eq!(e.text(), "malformed response: eth_chainId: expected a hex string result");
}

#[test]
fn failures_of_nodes() {
    let c = client();
    let e = c.balance(Err(RpcError::Transport("timeout".to_string()))).unwrap_err();
    assert_eq!(e.text(), "transport error: timeout");
    let node_error = RpcResponse {
        result: None,
        error: Some((-32000, "insufficient funds".to_string())),
    };
    let e = c.send_raw_transaction(Ok(node_error)).unwrap_err();
    assert_eq!(e.text(), "node returned error -32000: insufficient funds");
    let e = c.balance(Ok(RpcResponse { result: None, error: None })).unwrap_err();
    assert_eq!(e.text(), "malformed response: response had neither result nor error");
    let null = RpcResponse { result: Some(RpcValue::Null), error: None };
    let e = c.balance(Ok(null)).unwrap_err();
    assert_eq!(e.text(), "malformed response: response had neither result nor error");
}

#[test]
fn fees_leave_headroom() {
    let c = client();
    let fees = c.fee_suggestion(object(&[("number", "0x1"), ("baseFeePerGas", "0x3b9aca00")]));
    assert_eq!(
        fees.unwrap().trust(),
        FeeSuggestion {
            max_priority_fee_per_gas: 1_500_000_000,
            max_fee_per_gas: 3_500_000_000,
        }
    );
    let huge = c.fee_suggestion(object(&[("baseFeePerGas", "0xffffffffffffffffffffffffffffffff")]));
    assert_eq!(huge.unwrap().trust().max_fee_per_gas, u128::MAX);
    let e = c.fee_suggestion(object(&[("number", "0x1")])).unwrap_err();
    assert_eq!(
        e.text(),
        "malformed response: eth_getBlockByNumber: missing baseFeePerGas (pre-EIP-1559 chain?)"
    );
}

#[test]
fn receipts_of_transactions() {
    let c = client();
    let pending = RpcResponse { result: Some(RpcValue::Null), error: None };
    assert_eq!(c.transaction_receipt(Ok(pending)).unwrap().trust(), None);
    let mined = c.transaction_receipt(object(&[("status", "0x1"), ("blockNumber", "0x64")]));
    assert_eq!(
        mined.unwrap().trust(),
        Some(TransactionReceipt { success: true, block_number: 100 })
    );
    let failed = c.transaction_receipt(object(&[("status", "0x0"), ("blockNumber", "0x64")]));
    let receipt = failed.unwrap().trust().unwrap();
    assert!(!receipt.success);
    assert_eq!(receipt.confirmations(100), 1);
    assert_eq!(receipt.confirmations(111), 12);
    assert_eq!(receipt.confirmations(99), 1);
    let e = c.transaction_receipt(object(&[("blockNumber", "0x64")])).unwrap_err();
    assert_eq!(e.text(), "malformed response: receipt missing status");
    let e = c.transaction_receipt(object(&[("status", "0x1")])).unwrap_err();
    assert_eq!(e.text(), "malformed response: receipt missing blockNumber");
}

#[test]
fn contract_results_and_hashes() {
    let c = client();
    assert_eq!(c.call_contract(text("0x0102")).unwrap().trust(), vec![1, 2]);
    assert!(c.call_contract(text("0x012")).is_err());
    let hash = format!("0x{}", "cd".repeat(32));
    assert_eq!(c.send_raw_transaction(text(&hash)).unwrap().trust(), [0xcd; 32]);
    assert!(c.send_raw_transaction(text("0xcd")).is_err());
}
