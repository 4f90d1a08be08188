//! The `eth_*` questions that are put to a node, and what its answers amount to.
//!
//! Sending a question and receiving the answer is the caller's part. An answer here is what
//! a JSON-RPC response held, taken apart; nothing in it is believed beyond its form.

use vstd::prelude::*;

use crate::hex::{
    bytes32_reading, data_reading, hex_text, parse_hex_bytes, parse_hex_bytes32, parse_hex_u128,
    parse_hex_u64, quantity_reading, to_hex, to_hex_address, to_hex_u128,
};
use crate::rpc::{Endpoint, Untrusted};
use crate::text::{number_text, push_signed_decimal, signed_decimal, text2, text3, text_equal};

verus! {

/// Why a question got no usable answer.
#[derive(Debug)]
pub enum RpcError {
    /// The node could not be reached.
    Transport(String),
    /// The answer does not have the expected form.
    Malformed(String),
    /// The node answered with an error.
    Node {
        /// The error code.
        code: i64,
        /// The error message.
        message: String,
    },
}

/// What an error says.
#[verifier::ext_equal]
pub ghost enum RpcErrorView {
    Transport(Seq<char>),
    Malformed(Seq<char>),
    Node(int, Seq<char>),
}

impl RpcError {
    pub open spec fn view(&self) -> RpcErrorView {
        match self {
            RpcError::Transport(e) => RpcErrorView::Transport(e@),
            RpcError::Malformed(e) => RpcErrorView::Malformed(e@),
            RpcError::Node { code, message } => RpcErrorView::Node(*code as int, message@),
        }
    }

    /// The error in words.
    pub fn text(&self) -> (r: String)
        ensures
            r@ == rpc_error_text(self@),
    {
        match self {
            RpcError::Transport(e) => text2("transport error: ", e.as_str()),
            RpcError::Malformed(e) => text2("malformed response: ", e.as_str()),
            RpcError::Node { code, message } => {
                let mut out = "node returned error ".to_owned();
                push_signed_decimal(&mut out, *code);
                out.append(": ");
                out.append(message.as_str());
                out
            },
        }
    }
}

/// An error in words.
pub open spec fn rpc_error_text(e: RpcErrorView) -> Seq<char> {
    match e {
        RpcErrorView::Transport(e) => "transport error: "@ + e,
        RpcErrorView::Malformed(e) => "malformed response: "@ + e,
        RpcErrorView::Node(code, message) => "node returned error "@ + signed_decimal(code)
            + ": "@ + message,
    }
}

/// A parameter of a question.
#[derive(Debug)]
pub enum RpcParam {
    /// A text.
    Text(String),
    /// A truth value.
    Flag(bool),
    /// A call of a contract.
    Call {
        to: String,
        data: String,
    },
    /// A transfer of native currency.
    Transfer {
        to: String,
        value: String,
    },
}

/// What a parameter says.
#[verifier::ext_equal]
pub ghost enum ParamView {
    Text(Seq<char>),
    Flag(bool),
    Call(Seq<char>, Seq<char>),
    Transfer(Seq<char>, Seq<char>),
}

impl RpcParam {
    pub open spec fn view(&self) -> ParamView {
        match self {
            RpcParam::Text(s) => ParamView::Text(s@),
            RpcParam::Flag(b) => ParamView::Flag(*b),
            RpcParam::Call { to, data } => ParamView::Call(to@, data@),
            RpcParam::Transfer { to, value } => ParamView::Transfer(to@, value@),
        }
    }
}

/// A question for a node.
#[derive(Debug)]
pub struct RpcRequest {
    pub method: String,
    pub params: Vec<RpcParam>,
}

/// What a question says.
#[verifier::ext_equal]
pub ghost struct RequestView {
    pub method: Seq<char>,
    pub params: Seq<ParamView>,
}

impl RpcRequest {
    pub open spec fn view(&self) -> RequestView {
        RequestView {
            method: self.method@,
            params: Seq::new(self.params@.len(), |i: int| self.params@[i]@),
        }
    }
}

/// The result of a response, as far as it is looked at.
#[derive(Debug)]
pub enum RpcValue {
    /// JSON `null`.
    Null,
    /// A text.
    Text(String),
    /// An object: its members that are texts, by name.
    Object(Vec<(String, String)>),
    /// Anything else.
    Other,
}

/// What a result says.
#[verifier::ext_equal]
pub ghost enum ValueView {
    Null,
    Text(Seq<char>),
    Object(Seq<(Seq<char>, Seq<char>)>),
    Other,
}

impl RpcValue {
    pub open spec fn view(&self) -> ValueView {
        match self {
            RpcValue::Null => ValueView::Null,
            RpcValue::Text(s) => ValueView::Text(s@),
            RpcValue::Object(members) => ValueView::Object(
                Seq::new(members@.len(), |i: int| (members@[i].0@, members@[i].1@)),
            ),
            RpcValue::Other => ValueView::Other,
        }
    }
}

/// A response, taken apart.
#[derive(Debug)]
pub struct RpcResponse {
    /// The `result` member, if there is one.
    pub result: Option<RpcValue>,
    /// Code and message of the `error` member, if there is one.
    pub error: Option<(i64, String)>,
}

/// What asking came to: a response, or why there is none.
#[verifier::ext_equal]
pub ghost enum OutcomeView {
    /// No response.
    Failed(RpcErrorView),
    /// An error of the node.
    NodeError(int, Seq<char>),
    /// A result, or a response with neither error nor result.
    Result(Option<ValueView>),
}

/// What asking came to.
pub open spec fn outcome_view(response: Result<RpcResponse, RpcError>) -> OutcomeView {
    match response {
        Err(e) => OutcomeView::Failed(e@),
        Ok(r) => match r.error {
            Some((code, message)) => OutcomeView::NodeError(code as int, message@),
            None => OutcomeView::Result(
                match r.result {
                    Some(v) => Some(v@),
                    None => None,
                },
            ),
        },
    }
}

/// The result of a response, or the error. A `null` is no result.
pub open spec fn result_of(outcome: OutcomeView) -> Result<ValueView, RpcErrorView> {
    match outcome {
        OutcomeView::Failed(e) => Err(e),
        OutcomeView::NodeError(code, message) => Err(RpcErrorView::Node(code, message)),
        OutcomeView::Result(Some(v)) => if v == ValueView::Null {
            Err(RpcErrorView::Malformed("response had neither result nor error"@))
        } else {
            Ok(v)
        },
        OutcomeView::Result(None) => Err(
            RpcErrorView::Malformed("response had neither result nor error"@),
        ),
    }
}

/// The text that is the result, or the error.
pub open spec fn text_result(outcome: OutcomeView, method: Seq<char>) -> Result<
    Seq<char>,
    RpcErrorView,
> {
    match result_of(outcome) {
        Err(e) => Err(e),
        Ok(ValueView::Text(s)) => Ok(s),
        Ok(_) => Err(RpcErrorView::Malformed(method + ": expected a hex string result"@)),
    }
}

/// The quantity of up to 64 bits that is the result, or the error.
pub open spec fn u64_result(outcome: OutcomeView, method: Seq<char>) -> Result<
    nat,
    RpcErrorView,
> {
    match text_result(outcome, method) {
        Err(e) => Err(e),
        Ok(s) => match quantity_reading(s, u64::MAX as nat, "invalid hex u64 "@) {
            Ok(v) => Ok(v),
            Err(e) => Err(RpcErrorView::Malformed(method + ": "@ + e)),
        },
    }
}

/// The quantity of up to 128 bits that is the result, or the error.
pub open spec fn u128_result(outcome: OutcomeView, method: Seq<char>) -> Result<
    nat,
    RpcErrorView,
> {
    match text_result(outcome, method) {
        Err(e) => Err(e),
        Ok(s) => match quantity_reading(s, u128::MAX as nat, "invalid hex u128 "@) {
            Ok(v) => Ok(v),
            Err(e) => Err(RpcErrorView::Malformed(method + ": "@ + e)),
        },
    }
}

/// The byte string that is the result of a contract call, or the error.
pub open spec fn call_result(outcome: OutcomeView) -> Result<Seq<u8>, RpcErrorView> {
    match text_result(outcome, "eth_call"@) {
        Err(e) => Err(e),
        Ok(s) => match data_reading(s) {
            Ok(v) => Ok(v),
            Err(e) => Err(RpcErrorView::Malformed("eth_call"@ + ": "@ + e)),
        },
    }
}

/// The transaction hash that is the result of a broadcast, or the error.
pub open spec fn broadcast_result(outcome: OutcomeView) -> Result<Seq<u8>, RpcErrorView> {
    match text_result(outcome, "eth_sendRawTransaction"@) {
        Err(e) => Err(e),
        Ok(s) => match bytes32_reading(s) {
            Ok(v) => Ok(v),
            Err(e) => Err(RpcErrorView::Malformed("eth_sendRawTransaction"@ + ": "@ + e)),
        },
    }
}

/// The first member of that name among the first `n`.
pub open spec fn find_member(members: Seq<(Seq<char>, Seq<char>)>, name: Seq<char>, n: nat) -> Option<
    Seq<char>,
>
    decreases n,
{
    if n == 0 {
        None
    } else {
        match find_member(members, name, (n - 1) as nat) {
            Some(v) => Some(v),
            None => if members[n - 1].0 == name {
                Some(members[n - 1].1)
            } else {
                None
            },
        }
    }
}

/// The text member of that name, where the value is an object with one.
pub open spec fn member(v: ValueView, name: Seq<char>) -> Option<Seq<char>> {
    match v {
        ValueView::Object(members) => find_member(members, name, members.len()),
        _ => None,
    }
}

/// The tip that is suggested, in wei per gas: 1.5 gwei.
pub const PRIORITY_FEE: u128 = 1_500_000_000;

/// The lesser of a number and the highest number of 128 bits.
pub open spec fn saturated(n: int) -> int {
    if n > u128::MAX {
        u128::MAX as int
    } else {
        n
    }
}

/// The fees that are suggested for a base fee: twice the base fee leaves headroom for the
/// next few blocks.
pub open spec fn suggested_fees(base_fee: nat) -> FeeSuggestion {
    FeeSuggestion {
        max_priority_fee_per_gas: PRIORITY_FEE,
        max_fee_per_gas: saturated(saturated(2 * base_fee as int) + PRIORITY_FEE) as u128,
    }
}

/// The fees that the latest block suggests, or the error.
pub open spec fn fee_result(outcome: OutcomeView) -> Result<FeeSuggestion, RpcErrorView> {
    match result_of(outcome) {
        Err(e) => Err(e),
        Ok(block) => match member(block, "baseFeePerGas"@) {
            None => Err(
                RpcErrorView::Malformed(
                    "eth_getBlockByNumber: missing baseFeePerGas (pre-EIP-1559 chain?)"@,
                ),
            ),
            Some(s) => match quantity_reading(s, u128::MAX as nat, "invalid hex u128 "@) {
                Err(e) => Err(RpcErrorView::Malformed("eth_getBlockByNumber: "@ + e)),
                Ok(base_fee) => Ok(suggested_fees(base_fee)),
            },
        },
    }
}

/// What a receipt amounts to, or the error.
pub open spec fn receipt_of(v: ValueView) -> Result<TransactionReceipt, RpcErrorView> {
    match member(v, "status"@) {
        None => Err(RpcErrorView::Malformed("receipt missing status"@)),
        Some(s) => match quantity_reading(s, u64::MAX as nat, "invalid hex u64 "@) {
            Err(e) => Err(RpcErrorView::Malformed("receipt status: "@ + e)),
            Ok(status) => match member(v, "blockNumber"@) {
                None => Err(RpcErrorView::Malformed("receipt missing blockNumber"@)),
                Some(b) => match quantity_reading(b, u64::MAX as nat, "invalid hex u64 "@) {
                    Err(e) => Err(RpcErrorView::Malformed("receipt blockNumber: "@ + e)),
                    Ok(block_number) => Ok(
                        TransactionReceipt {
                            success: status == 1,
                            block_number: block_number as u64,
                        },
                    ),
                },
            },
        },
    }
}

/// The receipt of a transaction, or the error. A `null` means that the transaction is not
/// mined yet, which is no error.
pub open spec fn receipt_result(outcome: OutcomeView) -> Result<
    Option<TransactionReceipt>,
    RpcErrorView,
> {
    if outcome == OutcomeView::Result(Some(ValueView::Null)) {
        Ok(None)
    } else {
        match result_of(outcome) {
            Err(e) => Err(e),
            Ok(v) => match receipt_of(v) {
                Ok(receipt) => Ok(Some(receipt)),
                Err(e) => Err(e),
            },
        }
    }
}

/// Fees for a transaction, in wei per gas.
#[derive(Debug, Clone, Copy, PartialEq, Eq, Structural)]
pub struct FeeSuggestion {
    /// The tip to the block proposer.
    pub max_priority_fee_per_gas: u128,
    /// The cap on base fee and tip together.
    pub max_fee_per_gas: u128,
}

/// What became of a mined transaction.
#[derive(Debug, Clone, Copy, PartialEq, Eq, Structural)]
pub struct TransactionReceipt {
    /// Whether it succeeded.
    pub success: bool,
    /// The block that it was mined in.
    pub block_number: u64,
}

impl TransactionReceipt {
    /// How many blocks confirm the transaction at the given height, its own block included.
    pub fn confirmations(&self, current_block: u64) -> (r: u64)
        ensures
            r == if current_block < self.block_number {
                1
            } else if current_block - self.block_number + 1 > u64::MAX {
                u64::MAX as int
            } else {
                current_block - self.block_number + 1
            },
    {
        let depth: u64 = if current_block < self.block_number {
            0
        } else {
            current_block - self.block_number
        };
        if depth == u64::MAX {
            u64::MAX
        } else {
            depth + 1
        }
    }
}

/// The question with a method and no parameters.
pub open spec fn plain_request(method: Seq<char>) -> RequestView {
    RequestView { method, params: Seq::empty() }
}

/// The question about an account at the latest block.
pub open spec fn account_request(method: Seq<char>, address: Seq<u8>) -> RequestView {
    RequestView {
        method,
        params: seq![ParamView::Text(hex_text(address)), ParamView::Text("latest"@)],
    }
}

/// The question for the result of a contract call at the latest block.
pub open spec fn call_request(to: Seq<u8>, data: Seq<u8>) -> RequestView {
    RequestView {
        method: "eth_call"@,
        params: seq![ParamView::Call(hex_text(to), hex_text(data)), ParamView::Text("latest"@)],
    }
}

/// The question for the latest block.
pub open spec fn latest_block_request() -> RequestView {
    RequestView {
        method: "eth_getBlockByNumber"@,
        params: seq![ParamView::Text("latest"@), ParamView::Flag(false)],
    }
}

/// The question for the gas that a transfer takes.
pub open spec fn estimate_request(to: Seq<u8>, value: nat) -> RequestView {
    RequestView {
        method: "eth_estimateGas"@,
        params: seq![
            ParamView::Transfer(hex_text(to), seq!['0', 'x'] + number_text(value, 16)),
        ],
    }
}

/// The question with a byte string as its only parameter.
pub open spec fn bytes_request(method: Seq<char>, bytes: Seq<u8>) -> RequestView {
    RequestView { method, params: seq![ParamView::Text(hex_text(bytes))] }
}

/// A node to put questions to.
pub struct JsonRpcClient {
    endpoint: Endpoint,
}

/// The result that is a text, or the error.
fn text_of(response: Result<RpcResponse, RpcError>, method: &str) -> (r: Result<String, RpcError>)
    ensures
        match r {
            Ok(s) => text_result(outcome_view(response), method@) == Ok::<_, RpcErrorView>(s@),
            Err(e) => text_result(outcome_view(response), method@) == Err::<Seq<char>, _>(e@),
        },
{
    match value_of(response) {
        Err(e) => Err(e),
        Ok(RpcValue::Text(s)) => Ok(s),
        Ok(_) => Err(RpcError::Malformed(text2(method, ": expected a hex string result"))),
    }
}

/// The result, or the error.
fn value_of(response: Result<RpcResponse, RpcError>) -> (r: Result<RpcValue, RpcError>)
    ensures
        match r {
            Ok(v) => result_of(outcome_view(response)) == Ok::<_, RpcErrorView>(v@),
            Err(e) => result_of(outcome_view(response)) == Err::<ValueView, _>(e@),
        },
{
    let response = match response {
        Ok(r) => r,
        Err(e) => return Err(e),
    };
    if let Some((code, message)) = response.error {
        return Err(RpcError::Node { code, message });
    }
    match response.result {
        None | Some(RpcValue::Null) => Err(
            RpcError::Malformed("response had neither result nor error".to_owned()),
        ),
        Some(v) => Ok(v),
    }
}

/// The text member of that name, where the value is an object with one.
fn member_of<'a>(v: &'a RpcValue, name: &str) -> (r: Option<&'a String>)
    ensures
        match r {
            Some(s) => member(v@, name@) == Some(s@),
            None => member(v@, name@) is None,
        },
{
    match v {
        RpcValue::Object(members) => {
            let ghost ms = Seq::new(members@.len(), |i: int| (members@[i].0@, members@[i].1@));
            assert(v@ == ValueView::Object(ms));
            let mut i: usize = 0;
            while i < members.len()
                invariant
                    i <= members@.len(),
                    ms == Seq::new(members@.len(), |i: int| (members@[i].0@, members@[i].1@)),
                    find_member(ms, name@, i as nat) is None,
                    v@ == ValueView::Object(ms),
                decreases members.len() - i,
            {
                let (key, value) = &members[i];
                proof {
                    lemma_found_member_stays(ms, name@, (i + 1) as nat, ms.len());
                }
                if text_equal(key.as_str(), name) {
                    return Some(value);
                }
                i = i + 1;
            }
            None
        },
        _ => None,
    }
}

proof fn lemma_found_member_stays(
    members: Seq<(Seq<char>, Seq<char>)>,
    name: Seq<char>,
    m: nat,
    n: nat,
)
    requires
        m <= n,
    ensures
        find_member(members, name, m) is Some ==> find_member(members, name, n) == find_member(
            members,
            name,
            m,
        ),
    decreases n,
{
    if m < n {
        lemma_found_member_stays(members, name, m, (n - 1) as nat);
    }
}

fn u64_of(response: Result<RpcResponse, RpcError>, method: &str) -> (r: Result<u64, RpcError>)
    ensures
        match r {
            Ok(v) => u64_result(outcome_view(response), method@) == Ok::<_, RpcErrorView>(v as nat),
            Err(e) => u64_result(outcome_view(response), method@) == Err::<nat, _>(e@),
        },
{
    let s = match text_of(response, method) {
        Ok(s) => s,
        Err(e) => return Err(e),
    };
    match parse_hex_u64(s.as_str()) {
        Ok(v) => Ok(v),
        Err(e) => Err(RpcError::Malformed(text3(method, ": ", e.as_str()))),
    }
}

fn u128_of(response: Result<RpcResponse, RpcError>, method: &str) -> (r: Result<u128, RpcError>)
    ensures
        match r {
            Ok(v) => u128_result(outcome_view(response), method@) == Ok::<_, RpcErrorView>(
                v as nat,
            ),
            Err(e) => u128_result(outcome_view(response), method@) == Err::<nat, _>(e@),
        },
{
    let s = match text_of(response, method) {
        Ok(s) => s,
        Err(e) => return Err(e),
    };
    match parse_hex_u128(s.as_str()) {
        Ok(v) => Ok(v),
        Err(e) => Err(RpcError::Malformed(text3(method, ": ", e.as_str()))),
    }
}

/// A question with a method and parameters.
fn request(method: &str, params: Vec<RpcParam>) -> (r: RpcRequest)
    ensures
        r@.method == method@,
        r@.params == Seq::new(params@.len(), |i: int| params@[i]@),
{
    RpcRequest { method: method.to_owned(), params }
}

/// The question with a method and no parameters.
fn plain(method: &str) -> (r: RpcRequest)
    ensures
        r@ == plain_request(method@),
{
    let r = request(method, Vec::new());
    assert(r@ =~= plain_request(method@));
    r
}

/// The question about an account at the latest block.
fn about_account(method: &str, address: &[u8; 20]) -> (r: RpcRequest)
    ensures
        r@ == account_request(method@, address@),
{
    let mut params: Vec<RpcParam> = Vec::new();
    params.push(RpcParam::Text(to_hex_address(address)));
    params.push(RpcParam::Text("latest".to_owned()));
    let r = request(method, params);
    assert(r@.params =~= account_request(method@, address@).params);
    r
}

impl JsonRpcClient {
    /// The node.
    pub closed spec fn view(&self) -> Endpoint {
        self.endpoint
    }

    pub fn new(endpoint: Endpoint) -> (r: Self)
        ensures
            r@ == endpoint,
    {
        JsonRpcClient { endpoint }
    }

    /// `eth_chainId`: the chain that the node claims to serve.
    pub fn chain_id_request(&self) -> (r: RpcRequest)
        ensures
            r@ == plain_request("eth_chainId"@),
    {
        plain("eth_chainId")
    }

    /// What the answer to `chain_id_request` amounts to. Compare it across nodes before
    /// anything is signed for that chain.
    pub fn chain_id(&self, response: Result<RpcResponse, RpcError>) -> (r: Result<
        Untrusted<u64>,
        RpcError,
    >)
        ensures
            match r {
                Ok(u) => u.node() == self@ && u64_result(
                    outcome_view(response),
                    "eth_chainId"@,
                ) == Ok::<_, RpcErrorView>(u.answer() as nat),
                Err(e) => u64_result(outcome_view(response), "eth_chainId"@) == Err::<nat, _>(e@),
            },
    {
        match u64_of(response, "eth_chainId") {
            Ok(v) => Ok(Untrusted::new(v, self.endpoint.clone())),
            Err(e) => Err(e),
        }
    }

    /// `eth_getBalance` at the latest block.
    pub fn balance_request(&self, address: &[u8; 20]) -> (r: RpcRequest)
        ensures
            r@ == account_request("eth_getBalance"@, address@),
    {
        about_account("eth_getBalance", address)
    }

    /// What the answer to `balance_request` amounts to, in wei.
    pub fn balance(&self, response: Result<RpcResponse, RpcError>) -> (r: Result<
        Untrusted<u128>,
        RpcError,
    >)
        ensures
            match r {
                Ok(u) => u.node() == self@ && u128_result(
                    outcome_view(response),
                    "eth_getBalance"@,
                ) == Ok::<_, RpcErrorView>(u.answer() as nat),
                Err(e) => u128_result(outcome_view(response), "eth_getBalance"@) == Err::<nat, _>(
                    e@,
                ),
            },
    {
        match u128_of(response, "eth_getBalance") {
            Ok(v) => Ok(Untrusted::new(v, self.endpoint.clone())),
            Err(e) => Err(e),
        }
    }

    /// `eth_call` at the latest block: the result of a contract call, without a transaction.
    pub fn call_contract_request(&self, to: &[u8; 20], data: &[u8]) -> (r: RpcRequest)
        ensures
            r@ == call_request(to@, data@),
    {
        let mut params: Vec<RpcParam> = Vec::new();
        params.push(RpcParam::Call { to: to_hex_address(to), data: to_hex(data) });
        params.push(RpcParam::Text("latest".to_owned()));
        let r = request("eth_call", params);
        assert(r@.params =~= call_request(to@, data@).params);
        r
    }

    /// What the answer to `call_contract_request` amounts to.
    pub fn call_contract(&self, response: Result<RpcResponse, RpcError>) -> (r: Result<
        Untrusted<Vec<u8>>,
        RpcError,
    >)
        ensures
            match r {
                Ok(u) => u.node() == self@ && call_result(outcome_view(response)) == Ok::<
                    _,
                    RpcErrorView,
                >(u.answer()@),
                Err(e) => call_result(outcome_view(response)) == Err::<Seq<u8>, _>(e@),
            },
    {
        let s = match text_of(response, "eth_call") {
            Ok(s) => s,
            Err(e) => return Err(e),
        };
        match parse_hex_bytes(s.as_str()) {
            Ok(v) => Ok(Untrusted::new(v, self.endpoint.clone())),
            Err(e) => Err(RpcError::Malformed(text3("eth_call", ": ", e.as_str()))),
        }
    }

    /// `eth_getTransactionCount` at the latest block: the nonce for the next transaction.
    pub fn transaction_count_request(&self, address: &[u8; 20]) -> (r: RpcRequest)
        ensures
            r@ == account_request("eth_getTransactionCount"@, address@),
    {
        about_account("eth_getTransactionCount", address)
    }

    /// What the answer to `transaction_count_request` amounts to.
    pub fn transaction_count(&self, response: Result<RpcResponse, RpcError>) -> (r: Result<
        Untrusted<u64>,
        RpcError,
    >)
        ensures
            match r {
                Ok(u) => u.node() == self@ && u64_result(
                    outcome_view(response),
                    "eth_getTransactionCount"@,
                ) == Ok::<_, RpcErrorView>(u.answer() as nat),
                Err(e) => u64_result(outcome_view(response), "eth_getTransactionCount"@) == Err::<
                    nat,
                    _,
                >(e@),
            },
    {
        match u64_of(response, "eth_getTransactionCount") {
            Ok(v) => Ok(Untrusted::new(v, self.endpoint.clone())),
            Err(e) => Err(e),
        }
    }

    /// `eth_blockNumber`: the height of the chain.
    pub fn block_number_request(&self) -> (r: RpcRequest)
        ensures
            r@ == plain_request("eth_blockNumber"@),
    {
        plain("eth_blockNumber")
    }

    /// What the answer to `block_number_request` amounts to.
    pub fn block_number(&self, response: Result<RpcResponse, RpcError>) -> (r: Result<
        Untrusted<u64>,
        RpcError,
    >)
        ensures
            match r {
                Ok(u) => u.node() == self@ && u64_result(
                    outcome_view(response),
                    "eth_blockNumber"@,
                ) == Ok::<_, RpcErrorView>(u.answer() as nat),
                Err(e) => u64_result(outcome_view(response), "eth_blockNumber"@) == Err::<nat, _>(
                    e@,
                ),
            },
    {
        match u64_of(response, "eth_blockNumber") {
            Ok(v) => Ok(Untrusted::new(v, self.endpoint.clone())),
            Err(e) => Err(e),
        }
    }

    /// `eth_getBlockByNumber` for the latest block, which holds the base fee.
    pub fn fee_suggestion_request(&self) -> (r: RpcRequest)
        ensures
            r@ == latest_block_request(),
    {
        let mut params: Vec<RpcParam> = Vec::new();
        params.push(RpcParam::Text("latest".to_owned()));
        params.push(RpcParam::Flag(false));
        let r = request("eth_getBlockByNumber", params);
        assert(r@.params =~= latest_block_request().params);
        r
    }

    /// What the answer to `fee_suggestion_request` suggests: a fixed tip, and twice the base
    /// fee on top of it.
    pub fn fee_suggestion(&self, response: Result<RpcResponse, RpcError>) -> (r: Result<
        Untrusted<FeeSuggestion>,
        RpcError,
    >)
        ensures
            match r {
                Ok(u) => u.node() == self@ && fee_result(outcome_view(response)) == Ok::<
                    _,
                    RpcErrorView,
                >(u.answer()),
                Err(e) => fee_result(outcome_view(response)) == Err::<FeeSuggestion, _>(e@),
            },
    {
        let block = match value_of(response) {
            Ok(v) => v,
            Err(e) => return Err(e),
        };
        let s = match member_of(&block, "baseFeePerGas") {
            Some(s) => s,
            None => return Err(
                RpcError::Malformed(
                    "eth_getBlockByNumber: missing baseFeePerGas (pre-EIP-1559 chain?)".to_owned(),
                ),
            ),
        };
        let base_fee: u128 = match parse_hex_u128(s.as_str()) {
            Ok(v) => v,
            Err(e) => return Err(
                RpcError::Malformed(text2("eth_getBlockByNumber: ", e.as_str())),
            ),
        };
        let doubled: u128 = match base_fee.checked_mul(2) {
            Some(v) => v,
            None => u128::MAX,
        };
        let max_fee_per_gas: u128 = match doubled.checked_add(PRIORITY_FEE) {
            Some(v) => v,
            None => u128::MAX,
        };
        let suggestion = FeeSuggestion { max_priority_fee_per_gas: PRIORITY_FEE, max_fee_per_gas };
        Ok(Untrusted::new(suggestion, self.endpoint.clone()))
    }

    /// `eth_estimateGas` for a transfer.
    pub fn estimate_gas_request(&self, to: &[u8; 20], value: u128) -> (r: RpcRequest)
        ensures
            r@ == estimate_request(to@, value as nat),
    {
        let mut params: Vec<RpcParam> = Vec::new();
        params.push(RpcParam::Transfer { to: to_hex_address(to), value: to_hex_u128(value) });
        let r = request("eth_estimateGas", params);
        assert(r@.params =~= estimate_request(to@, value as nat).params);
        r
    }

    /// What the answer to `estimate_gas_request` amounts to.
    pub fn estimate_gas(&self, response: Result<RpcResponse, RpcError>) -> (r: Result<
        Untrusted<u64>,
        RpcError,
    >)
        ensures
            match r {
                Ok(u) => u.node() == self@ && u64_result(
                    outcome_view(response),
                    "eth_estimateGas"@,
                ) == Ok::<_, RpcErrorView>(u.answer() as nat),
                Err(e) => u64_result(outcome_view(response), "eth_estimateGas"@) == Err::<nat, _>(
                    e@,
                ),
            },
    {
        match u64_of(response, "eth_estimateGas") {
            Ok(v) => Ok(Untrusted::new(v, self.endpoint.clone())),
            Err(e) => Err(e),
        }
    }

    /// `eth_sendRawTransaction`: broadcasts a signed transaction.
    pub fn send_raw_transaction_request(&self, raw: &[u8]) -> (r: RpcRequest)
        ensures
            r@ == bytes_request("eth_sendRawTransaction"@, raw@),
    {
        let mut params: Vec<RpcParam> = Vec::new();
        params.push(RpcParam::Text(to_hex(raw)));
        let r = request("eth_sendRawTransaction", params);
        assert(r@.params =~= bytes_request("eth_sendRawTransaction"@, raw@).params);
        r
    }

    /// What the answer to `send_raw_transaction_request` amounts to: the transaction hash.
    pub fn send_raw_transaction(&self, response: Result<RpcResponse, RpcError>) -> (r: Result<
        Untrusted<[u8; 32]>,
        RpcError,
    >)
        ensures
            match r {
                Ok(u) => u.node() == self@ && broadcast_result(outcome_view(response)) == Ok::<
                    _,
                    RpcErrorView,
                >(u.answer()@),
                Err(e) => broadcast_result(outcome_view(response)) == Err::<Seq<u8>, _>(e@),
            },
    {
        let s = match text_of(response, "eth_sendRawTransaction") {
            Ok(s) => s,
            Err(e) => return Err(e),
        };
        match parse_hex_bytes32(s.as_str()) {
            Ok(v) => Ok(Untrusted::new(v, self.endpoint.clone())),
            Err(e) => Err(RpcError::Malformed(text3("eth_sendRawTransaction", ": ", e.as_str()))),
        }
    }

    /// `eth_getTransactionReceipt`.
    pub fn transaction_receipt_request(&self, tx_hash: &[u8; 32]) -> (r: RpcRequest)
        ensures
            r@ == bytes_request("eth_getTransactionReceipt"@, tx_hash@),
    {
        let mut params: Vec<RpcParam> = Vec::new();
        params.push(RpcParam::Text(to_hex(tx_hash)));
        let r = request("eth_getTransactionReceipt", params);
        assert(r@.params =~= bytes_request("eth_getTransactionReceipt"@, tx_hash@).params);
        r
    }

    /// What the answer to `transaction_receipt_request` amounts to. `None` means that the
    /// transaction is not mined yet, or that the node has never seen it.
    pub fn transaction_receipt(&self, response: Result<RpcResponse, RpcError>) -> (r: Result<
        Untrusted<Option<TransactionReceipt>>,
        RpcError,
    >)
        ensures
            match r {
                Ok(u) => u.node() == self@ && receipt_result(outcome_view(response)) == Ok::<
                    _,
                    RpcErrorView,
                >(u.answer()),
                Err(e) => receipt_result(outcome_view(response)) == Err::<
                    Option<TransactionReceipt>,
                    _,
                >(e@),
            },
    {
        if let Ok(r) = &response {
            if let (None, Some(RpcValue::Null)) = (&r.error, &r.result) {
                return Ok(Untrusted::new(None, self.endpoint.clone()));
            }
        }
        let receipt = match value_of(response) {
            Ok(v) => v,
            Err(e) => return Err(e),
        };
        let status_text = match member_of(&receipt, "status") {
            Some(s) => s,
            None => return Err(RpcError::Malformed("receipt missing status".to_owned())),
        };
        let status: u64 = match parse_hex_u64(status_text.as_str()) {
            Ok(v) => v,
            Err(e) => return Err(RpcError::Malformed(text2("receipt status: ", e.as_str()))),
        };
        let block_text = match member_of(&receipt, "blockNumber") {
            Some(s) => s,
            None => return Err(RpcError::Malformed("receipt missing blockNumber".to_owned())),
        };
        let block_number: u64 = match parse_hex_u64(block_text.as_str()) {
            Ok(v) => v,
            Err(e) => return Err(RpcError::Malformed(text2("receipt blockNumber: ", e.as_str()))),
        };
        Ok(
            Untrusted::new(
                Some(TransactionReceipt { success: status == 1, block_number }),
                self.endpoint.clone(),
            ),
        )
    }
}

/// The questions, with their parameters: about an account its address and the latest block,
/// of a contract the call and the latest block, for a broadcast or a receipt the bytes.
pub proof fn law_question_forms(
    method: Seq<char>,
    address: Seq<u8>,
    data: Seq<u8>,
    value: nat,
)
    ensures
        plain_request(method) == (RequestView { method, params: Seq::empty() }),
        account_request(method, address) == (RequestView {
            method,
            params: seq![ParamView::Text(hex_text(address)), ParamView::Text("latest"@)],
        }),
        call_request(address, data) == (RequestView {
            method: "eth_call"@,
            params: seq![
                ParamView::Call(hex_text(address), hex_text(data)),
                ParamView::Text("latest"@),
            ],
        }),
        latest_block_request() == (RequestView {
            method: "eth_getBlockByNumber"@,
            params: seq![ParamView::Text("latest"@), ParamView::Flag(false)],
        }),
        estimate_request(address, value) == (RequestView {
            method: "eth_estimateGas"@,
            params: seq![
                ParamView::Transfer(hex_text(address), seq!['0', 'x'] + number_text(value, 16)),
            ],
        }),
        bytes_request(method, data) == (RequestView {
            method,
            params: seq![ParamView::Text(hex_text(data))],
        }),
{
}

/// A number that a node gives is read as that number: the result is a text with a quantity
/// that fits, and every such result is taken.
pub proof fn law_numbers_of_nodes_are_read(outcome: OutcomeView, method: Seq<char>, v: nat)
    ensures
        u64_result(outcome, method) == Ok::<_, RpcErrorView>(v) <==> (outcome is Result
            && outcome->Result_0 is Some && outcome->Result_0->0 is Text && quantity_reading(
            outcome->Result_0->0->Text_0,
            0xFFFF_FFFF_FFFF_FFFF,
            "invalid hex u64 "@,
        ) == Ok::<_, Seq<char>>(v)),
        u128_result(outcome, method) == Ok::<_, RpcErrorView>(v) <==> (outcome is Result
            && outcome->Result_0 is Some && outcome->Result_0->0 is Text && quantity_reading(
            outcome->Result_0->0->Text_0,
            0xFFFF_FFFF_FFFF_FFFF_FFFF_FFFF_FFFF_FFFF,
            "invalid hex u128 "@,
        ) == Ok::<_, Seq<char>>(v)),
{
}

/// What a node means by a number in hexadecimal is that number.
pub proof fn law_hex_answers_mean_their_number(v: nat, method: Seq<char>)
    requires
        v <= u128::MAX,
    ensures
        ({
            let answer = OutcomeView::Result(
                Some(ValueView::Text(seq!['0', 'x'] + number_text(v, 16))),
            );
            &&& u128_result(answer, method) == Ok::<_, RpcErrorView>(v)
            &&& v <= u64::MAX ==> u64_result(answer, method) == Ok::<_, RpcErrorView>(v)
        }),
{
    crate::hex::law_hex_number_reads_back(v);
    if v <= u64::MAX {
        let t = number_text(v, 16);
        let s = seq!['0', 'x'] + t;
        crate::text::law_number_text_reads_back(v, 16, u64::MAX as nat);
        assert forall|i: int| 0 <= i < s.len() implies '\0' <= #[trigger] s[i] <= '\u{7f}' by {
            if i >= 2 {
                assert(s[i] == t[i - 2]);
            }
        }
        crate::hex::lemma_ascii_encoding(s);
        assert(crate::text::ascii_bytes(s).skip(2) =~= crate::text::ascii_bytes(t));
    }
}

/// The bytes that a node gives in hexadecimal are those bytes: results of calls of any length,
/// transaction hashes of 32 bytes.
pub proof fn law_hex_answers_mean_their_bytes(bytes: Seq<u8>)
    ensures
        ({
            let answer = OutcomeView::Result(Some(ValueView::Text(hex_text(bytes))));
            &&& call_result(answer) == Ok::<_, RpcErrorView>(bytes)
            &&& bytes.len() == 32 ==> broadcast_result(answer) == Ok::<_, RpcErrorView>(bytes)
        }),
{
    crate::hex::law_hex_text_reads_back(bytes);
}

/// Results are read from texts only, by the one way of reading bytes.
pub proof fn law_bytes_of_nodes_are_read(outcome: OutcomeView, bytes: Seq<u8>)
    ensures
        call_result(outcome) == Ok::<_, RpcErrorView>(bytes) <==> (outcome is Result
            && outcome->Result_0 is Some && outcome->Result_0->0 is Text && data_reading(
            outcome->Result_0->0->Text_0,
        ) == Ok::<_, Seq<char>>(bytes)),
        broadcast_result(outcome) == Ok::<_, RpcErrorView>(bytes) <==> (outcome is Result
            && outcome->Result_0 is Some && outcome->Result_0->0 is Text && bytes32_reading(
            outcome->Result_0->0->Text_0,
        ) == Ok::<_, Seq<char>>(bytes)),
{
}

/// A node that cannot be reached, or that answers with an error, is told so, whatever was
/// asked.
pub proof fn law_failures_of_nodes_are_passed_on(
    e: RpcErrorView,
    code: int,
    message: Seq<char>,
    method: Seq<char>,
)
    ensures
        u64_result(OutcomeView::Failed(e), method) == Err::<nat, _>(e),
        u128_result(OutcomeView::Failed(e), method) == Err::<nat, _>(e),
        call_result(OutcomeView::Failed(e)) == Err::<Seq<u8>, _>(e),
        broadcast_result(OutcomeView::Failed(e)) == Err::<Seq<u8>, _>(e),
        fee_result(OutcomeView::Failed(e)) == Err::<FeeSuggestion, _>(e),
        receipt_result(OutcomeView::Failed(e)) == Err::<Option<TransactionReceipt>, _>(e),
        ({
            let told = RpcErrorView::Node(code, message);
            let answer = OutcomeView::NodeError(code, message);
            &&& u64_result(answer, method) == Err::<nat, _>(told)
            &&& u128_result(answer, method) == Err::<nat, _>(told)
            &&& call_result(answer) == Err::<Seq<u8>, _>(told)
            &&& broadcast_result(answer) == Err::<Seq<u8>, _>(told)
            &&& fee_result(answer) == Err::<FeeSuggestion, _>(told)
            &&& receipt_result(answer) == Err::<Option<TransactionReceipt>, _>(told)
        }),
{
}

/// A member of an object is the first one with that name.
pub proof fn law_members_are_found_by_name(
    members: Seq<(Seq<char>, Seq<char>)>,
    name: Seq<char>,
    k: int,
)
    requires
        0 <= k < members.len(),
        members[k].0 == name,
        forall|i: int| #![trigger members[i]] 0 <= i < k ==> members[i].0 != name,
    ensures
        member(ValueView::Object(members), name) == Some(members[k].1),
{
    lemma_no_member(members, name, k as nat);
    lemma_found_member_stays(members, name, (k + 1) as nat, members.len());
}

/// Where no member has the name, none is found.
pub proof fn law_absent_members_are_not_found(
    members: Seq<(Seq<char>, Seq<char>)>,
    name: Seq<char>,
)
    requires
        forall|i: int| #![trigger members[i]] 0 <= i < members.len() ==> members[i].0 != name,
    ensures
        member(ValueView::Object(members), name) is None,
{
    lemma_no_member(members, name, members.len());
}

proof fn lemma_no_member(members: Seq<(Seq<char>, Seq<char>)>, name: Seq<char>, n: nat)
    requires
        n <= members.len(),
        forall|i: int| #![trigger members[i]] 0 <= i < n ==> members[i].0 != name,
    ensures
        find_member(members, name, n) is None,
    decreases n,
{
    if n > 0 {
        lemma_no_member(members, name, (n - 1) as nat);
        assert(members[n - 1].0 != name);
    }
}

/// The suggested fees come from the base fee of the latest block: the tip is 1.5 gwei, and the
/// fee cap is twice the base fee and the tip, or the highest number where that is more.
pub proof fn law_fees_follow_the_base_fee(outcome: OutcomeView, fees: FeeSuggestion)
    requires
        fee_result(outcome) == Ok::<_, RpcErrorView>(fees),
    ensures
        outcome is Result && outcome->Result_0 is Some,
        ({
            let text = member(outcome->Result_0->0, "baseFeePerGas"@);
            let base_fee = quantity_reading(text->0, u128::MAX as nat, "invalid hex u128 "@);
            &&& text is Some
            &&& base_fee is Ok
            &&& fees.max_priority_fee_per_gas == 1_500_000_000
            &&& 2 * base_fee->Ok_0 + 1_500_000_000 <= u128::MAX ==> fees.max_fee_per_gas == 2
                * base_fee->Ok_0 + 1_500_000_000
            &&& 2 * base_fee->Ok_0 + 1_500_000_000 > u128::MAX ==> fees.max_fee_per_gas
                == u128::MAX
        }),
{
}

/// The base fee of a block gives a suggestion, for every base fee.
pub proof fn law_base_fees_give_a_suggestion(block: ValueView, text: Seq<char>, base_fee: nat)
    requires
        member(block, "baseFeePerGas"@) == Some(text),
        quantity_reading(text, u128::MAX as nat, "invalid hex u128 "@) == Ok::<_, Seq<char>>(
            base_fee,
        ),
    ensures
        fee_result(OutcomeView::Result(Some(block))) is Ok,
{
}

/// A receipt says that the transaction was mined in the block that its `blockNumber` reads as,
/// and that it succeeded exactly if its `status` reads as 1. Only a `null` means that it is not
/// mined.
pub proof fn law_receipts_say_what_became(outcome: OutcomeView, receipt: TransactionReceipt)
    ensures
        receipt_result(outcome) == Ok::<_, RpcErrorView>(None::<TransactionReceipt>) <==> outcome
            == OutcomeView::Result(Some(ValueView::Null)),
        receipt_result(outcome) == Ok::<_, RpcErrorView>(Some(receipt)) ==> outcome is Result
            && outcome->Result_0 is Some && ({
            let v = outcome->Result_0->0;
            let status = quantity_reading(
                member(v, "status"@)->0,
                u64::MAX as nat,
                "invalid hex u64 "@,
            );
            let block = quantity_reading(
                member(v, "blockNumber"@)->0,
                u64::MAX as nat,
                "invalid hex u64 "@,
            );
            &&& member(v, "status"@) is Some && status is Ok
            &&& receipt.success <==> status->Ok_0 == 1
            &&& member(v, "blockNumber"@) is Some && block is Ok
            &&& receipt.block_number as nat == block->Ok_0
        }),
{
    if receipt_result(outcome) == Ok::<_, RpcErrorView>(Some(receipt)) {
        let v = outcome->Result_0->0;
        let text = member(v, "blockNumber"@)->0;
        lemma_quantity_within(text, u64::MAX as nat, "invalid hex u64 "@);
    }
}

proof fn lemma_quantity_within(text: Seq<char>, max: nat, kind: Seq<char>)
    requires
        quantity_reading(text, max, kind) is Ok,
    ensures
        quantity_reading(text, max, kind)->Ok_0 <= max,
{
    let body = vstd::utf8::encode_utf8(text).skip(2);
    crate::text::law_numbers_are_digits(body, 16, max, 0);
}

/// A receipt with a status and a block is taken, whatever they are.
pub proof fn law_receipts_are_taken(v: ValueView, status: nat, block: nat)
    requires
        member(v, "status"@) is Some,
        member(v, "blockNumber"@) is Some,
        quantity_reading(member(v, "status"@)->0, u64::MAX as nat, "invalid hex u64 "@) == Ok::<
            _,
            Seq<char>,
        >(status),
        quantity_reading(member(v, "blockNumber"@)->0, u64::MAX as nat, "invalid hex u64 "@)
            == Ok::<_, Seq<char>>(block),
    ensures
        receipt_result(OutcomeView::Result(Some(v))) matches Ok(Some(receipt)) && (receipt.success
            <==> status == 1),
{
}

/// What is no result, or not of the kind that was asked for, is told so.
pub proof fn law_unusable_results(outcome: OutcomeView, method: Seq<char>)
    ensures
        outcome == OutcomeView::Result(None) || outcome == OutcomeView::Result(
            Some(ValueView::Null),
        ) ==> {
            let e = RpcErrorView::Malformed("response had neither result nor error"@);
            &&& u64_result(outcome, method) == Err::<nat, _>(e)
            &&& u128_result(outcome, method) == Err::<nat, _>(e)
            &&& call_result(outcome) == Err::<Seq<u8>, _>(e)
            &&& broadcast_result(outcome) == Err::<Seq<u8>, _>(e)
            &&& fee_result(outcome) == Err::<FeeSuggestion, _>(e)
        },
        outcome is Result && outcome->Result_0 is Some && outcome->Result_0->0 !is Text
            && outcome->Result_0->0 != ValueView::Null ==> {
            &&& u64_result(outcome, method) == Err::<nat, _>(
                RpcErrorView::Malformed(method + ": expected a hex string result"@),
            )
            &&& u128_result(outcome, method) == Err::<nat, _>(
                RpcErrorView::Malformed(method + ": expected a hex string result"@),
            )
            &&& call_result(outcome) == Err::<Seq<u8>, _>(
                RpcErrorView::Malformed("eth_call"@ + ": expected a hex string result"@),
            )
            &&& broadcast_result(outcome) == Err::<Seq<u8>, _>(
                RpcErrorView::Malformed(
                    "eth_sendRawTransaction"@ + ": expected a hex string result"@,
                ),
            )
        },
{
}

/// A block without a base fee, and a receipt without a status or without a block, are told so.
pub proof fn law_incomplete_answers(v: ValueView)
    requires
        v != ValueView::Null,
    ensures
        member(v, "baseFeePerGas"@) is None ==> fee_result(OutcomeView::Result(Some(v))) == Err::<
            FeeSuggestion,
            _,
        >(
            RpcErrorView::Malformed(
                "eth_getBlockByNumber: missing baseFeePerGas (pre-EIP-1559 chain?)"@,
            ),
        ),
        member(v, "status"@) is None ==> receipt_result(OutcomeView::Result(Some(v))) == Err::<
            Option<TransactionReceipt>,
            _,
        >(RpcErrorView::Malformed("receipt missing status"@)),
        member(v, "status"@) is Some && quantity_reading(
            member(v, "status"@)->0,
            u64::MAX as nat,
            "invalid hex u64 "@,
        ) is Ok && member(v, "blockNumber"@) is None ==> receipt_result(
            OutcomeView::Result(Some(v)),
        ) == Err::<Option<TransactionReceipt>, _>(
            RpcErrorView::Malformed("receipt missing blockNumber"@),
        ),
{
}

/// The errors of nodes in words.
pub proof fn law_rpc_errors_in_words(text: Seq<char>, code: int)
    ensures
        rpc_error_text(RpcErrorView::Transport(text)) == "transport error: "@ + text,
        rpc_error_text(RpcErrorView::Malformed(text)) == "malformed response: "@ + text,
        rpc_error_text(RpcErrorView::Node(code, text)) == "node returned error "@
            + crate::text::signed_decimal(code) + ": "@ + text,
{
}

} // verus!
