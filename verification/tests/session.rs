//! Requests of the frontend and of the command line, carried out against files and nodes that
//! are kept in memory.

use std::any::Any;
use std::collections::HashMap;

use base64::Engine;
use fortress_wallet::ceremony::generate_and_split_key;
use fortress_wallet::cli::{describe_response, open_pasted_share, passphrases_match, plan_shares};
use fortress_wallet::evm::{address_from_public_key, sign_evm_transfer, to_checksummed_hex};
use fortress_wallet::evm_codec::{decode_signed, EvmDecodeError, UnsignedEip1559Tx};
use fortress_wallet::flow::{Action, Event, Response};
use fortress_wallet::hex::{hex_encode, parse_hex, to_hex};
use fortress_wallet::job::{
    encode_shares, open_request, process_request, read_job, Job, Method, Network, Opening, Payment,
    Signers,
};
use fortress_wallet::json::Member;
use fortress_wallet::request::{
    check_request_len, describe_panic, method_of, params_of, receive, validate_dir, FieldError,
    Params, Refusal, MAX_REQUEST_LEN, MAX_SHARES,
};
use fortress_wallet::rpc::{CrossCheckError, Endpoint};
use fortress_wallet::rpc_evm::{RpcError, RpcParam, RpcRequest, RpcResponse, RpcValue};
use fortress_wallet::secret::SecretText;
use fortress_wallet::session::Session;
use fortress_wallet::shamir::Share;
use fortress_wallet::storage::{seal_share, StorageError};
use fortress_wallet::wallet::{load_public_key, WalletError};
use serde_json::Value;

const PASS: &str = "correct horse battery staple";

/// Files and nodes. What is asked and broadcast is kept.
#[derive(Default)]
struct World {
    pubkey: Option<Vec<u8>>,
    share: Option<Vec<u8>>,
    nodes: HashMap<String, HashMap<&'static str, RpcValue>>,
    brought: Vec<Share>,
    read_only: bool,
    asked: Vec<String>,
    broadcast: Option<Vec<u8>>,
}

fn again(v: &RpcValue) -> RpcValue {
    match v {
        RpcValue::Null => RpcValue::Null,
        RpcValue::Text(s) => RpcValue::Text(s.clone()),
        RpcValue::Object(m) => RpcValue::Object(m.clone()),
        RpcValue::Other => RpcValue::Other,
    }
}

fn text(s: &str) -> RpcValue {
    RpcValue::Text(s.to_string())
}

impl World {
    fn written(&self) -> Event {
        Event::Written(if self.read_only { Err("read-only".to_string()) } else { Ok(()) })
    }

    fn ask(&mut self, endpoint: &Endpoint, request: &RpcRequest) -> Result<RpcResponse, RpcError> {
        self.asked.push(format!("{} {}", endpoint.0, request.method));
        if request.method == "eth_sendRawTransaction" {
            if let RpcParam::Text(raw) = &request.params[0] {
                self.broadcast = Some(parse_hex(raw).unwrap());
            }
        }
        let node = match self.nodes.get(&endpoint.0) {
            Some(node) => node,
            None => return Err(RpcError::Transport("unreachable".to_string())),
        };
        match node.get(request.method.as_str()) {
            Some(v) => Ok(RpcResponse { result: Some(again(v)), error: None }),
            None => Ok(RpcResponse { result: None, error: Some((-32601, "no method".to_string())) }),
        }
    }

    fn run(&mut self, job: Job) -> Result<Response, Refusal> {
        let (mut session, mut action) = Session::start(job);
        loop {
            let event = match action {
                Action::CreateDir => self.written(),
                Action::WriteShare(bytes) => {
                    self.share = Some(bytes);
                    self.written()
                }
                Action::WritePublicKey(bytes) => {
                    self.pubkey = Some(bytes);
                    self.written()
                }
                Action::ReadPublicKey => {
                    Event::File(self.pubkey.clone().ok_or("no pubkey".to_string()))
                }
                Action::ReadShare => Event::File(self.share.clone().ok_or("no share".to_string())),
                Action::Ask { endpoint, request } => Event::Reply(self.ask(&endpoint, &request)),
                Action::GatherShares => Event::Shares(std::mem::take(&mut self.brought)),
                Action::Finish(result) => return result,
            };
            let (next, wanted) = session.step(event);
            session = next;
            action = wanted;
        }
    }

    /// A request with its directory in order, as it comes from the frontend.
    fn request(&mut self, method: &str, params: &Params) -> Result<Response, Refusal> {
        self.request_text(&request_text(method, params))
    }

    fn request_text(&mut self, text: &str) -> Result<Response, Refusal> {
        match process_request(text)? {
            (Opening::Enter { method, .. }, params) => {
                let base = vec![b"tmp".to_vec()];
                let dir = vec![b"tmp".to_vec(), b"wallet".to_vec()];
                validate_dir(Some((Ok(dir), Ok(base))))?;
                let job = read_job(method, &params).map_err(Refusal::Field)?;
                self.run(job)
            }
            _ => panic!("no wallet method"),
        }
    }

    fn node(&mut self, url: &str, answers: &[(&'static str, RpcValue)]) {
        let answers = answers.iter().map(|(m, v)| (*m, again(v))).collect();
        self.nodes.insert(url.to_string(), answers);
    }

    fn address(&self) -> String {
        let key = load_public_key(Ok(self.pubkey.clone().unwrap())).unwrap();
        to_checksummed_hex(&address_from_public_key(&key))
    }
}

/// The JSON text of a request.
fn request_text(method: &str, params: &Params) -> String {
    let mut fields: serde_json::Map<String, Value> = serde_json::Map::new();
    let mut put = |name: &str, value: Option<Value>| {
        if let Some(value) = value {
            fields.insert(name.to_string(), value);
        }
    };
    let text = |v: &Option<String>| v.clone().map(Value::from);
    let list = |v: &Option<Vec<Option<String>>>| {
        v.clone().map(|l| Value::Array(l.into_iter().map(|e| e.map_or(Value::Null, Value::from)).collect()))
    };
    put("dir", text(&params.dir));
    put("passphrase", text(&params.passphrase));
    put("threshold", params.threshold.map(Value::from));
    put("n", params.n.map(Value::from));
    put("rpc_urls", list(&params.rpc_urls));
    put("chain_id", params.chain_id.map(Value::from));
    put("token_address", text(&params.token_address));
    put("to", text(&params.to));
    put("value_wei", text(&params.value_wei));
    put("gas_limit", params.gas_limit.map(Value::from));
    put("shares", list(&params.shares));
    let mut request: serde_json::Map<String, Value> = serde_json::Map::new();
    request.insert("method".to_string(), Value::from(method));
    request.insert("params".to_string(), Value::Object(fields));
    Value::Object(request).to_string()
}

/// Why a request text is refused at once.
fn refused(text: &str) -> String {
    process_request(text).err().unwrap().text()
}

fn dir() -> Option<String> {
    Some("/tmp/whatever".to_string())
}

fn create_params() -> Params {
    Params {
        dir: dir(),
        passphrase: Some(PASS.to_string()),
        threshold: Some(2),
        n: Some(3),
        ..Params::default()
    }
}

fn create(world: &mut World) -> (String, Vec<Vec<u8>>) {
    match world.request("create_wallet", &create_params()) {
        Ok(Response::Created { address, shares }) => (address, shares),
        _ => panic!("not created"),
    }
}

fn texts(list: &[String]) -> Option<Vec<Option<String>>> {
    Some(list.iter().map(|s| Some(s.clone())).collect())
}

fn error_of(r: Result<Response, Refusal>) -> String {
    match r {
        Err(e) => e.text(),
        Ok(_) => panic!("not refused"),
    }
}

fn describe(panic: &Box<dyn Any + Send>) -> String {
    describe_panic(panic.downcast_ref::<&str>().copied(), panic.downcast_ref::<String>())
}

#[test]
fn describe_panic_extracts_str_and_string_payloads() {
    let str_panic: Box<dyn Any + Send> = Box::new("a static str panic");
    assert_eq!(describe(&str_panic), "a static str panic");

    let string_panic: Box<dyn Any + Send> = Box::new(String::from("an owned String panic"));
    assert_eq!(describe(&string_panic), "an owned String panic");

    let other_panic: Box<dyn Any + Send> = Box::new(42i32);
    assert_eq!(describe(&other_panic), "panicked with a non-string payload");
    assert_eq!(
        Refusal::Panicked(describe(&str_panic)).text(),
        "internal error: a static str panic"
    );
}

#[test]
fn ping_returns_expected_shape() {
    let opening = |text: &str| process_request(text).unwrap().0;
    assert!(matches!(opening(r#"{"method": "ping"}"#), Opening::Pong));
    assert!(matches!(opening(r#"{"method": "get_version"}"#), Opening::Version));
}

#[test]
fn unknown_method_is_an_error_not_a_panic() {
    assert_eq!(refused(r#"{"method": "does_not_exist"}"#), "Unknown method: does_not_exist");
    // A request without a method is one with an empty method.
    assert_eq!(refused("{}"), "Unknown method: ");
    assert_eq!(refused("[1, 2]"), "Unknown method: ");
    assert_eq!(refused(r#"{"method": 7}"#), "Unknown method: ");
    assert!(open_request("", &Params::default()).is_err());
}

#[test]
fn malformed_json_is_an_error_not_a_panic() {
    let e = receive("not json at all").err().unwrap();
    assert_eq!(e.text(), "Failed to parse JSON: expected ident at line 1 column 2");
    assert_eq!(refused("not json at all"), e.text());
    assert!(receive("").is_err());
    assert!(receive(r#"{"method": "ping"} trailing"#).is_err());
}

#[test]
fn request_texts_are_taken_apart() {
    let text = r#"{
        "params": {
            "dir": "/tmp/w\u0041", "passphrase": "pass", "threshold": 2, "n": 18446744073709551615,
            "rpc_urls": ["a", 1, null, "b"], "chain_id": 1, "token_address": "0x12",
            "to": "0x34", "value_wei": "5", "gas_limit": 30000, "shares": [], "extra": {}
        },
        "method": "send_transaction"
    }"#;
    let (method, params) = receive(text).ok().unwrap();
    assert_eq!(method, "send_transaction");
    let some = |s: &str| Some(s.to_string());
    assert_eq!(params.dir, some("/tmp/wA"));
    assert_eq!(params.passphrase, some("pass"));
    assert_eq!(params.threshold, Some(2));
    assert_eq!(params.n, Some(u64::MAX));
    assert_eq!(params.rpc_urls, Some(vec![some("a"), None, None, some("b")]));
    assert_eq!(params.chain_id, Some(1));
    assert_eq!(params.token_address, some("0x12"));
    assert_eq!(params.to, some("0x34"));
    assert_eq!(params.value_wei, some("5"));
    assert_eq!(params.gas_limit, Some(30_000));
    assert_eq!(params.shares, Some(vec![]));

    // What has another type than expected is not there.
    let text = r#"{"method": "m", "params": {
        "dir": 1, "passphrase": null, "threshold": -1, "n": 2.0, "rpc_urls": "a",
        "chain_id": "1", "to": ["0x34"], "value_wei": 5, "gas_limit": true, "shares": {}
    }}"#;
    let (_, params) = receive(text).ok().unwrap();
    assert_eq!(params.dir, None);
    assert_eq!(params.passphrase, None);
    assert_eq!(params.threshold, None);
    assert_eq!(params.n, None);
    assert_eq!(params.rpc_urls, None);
    assert_eq!(params.chain_id, None);
    assert_eq!(params.to, None);
    assert_eq!(params.value_wei, None);
    assert_eq!(params.gas_limit, None);
    assert_eq!(params.shares, None);
    for text in [r#"{"method": "m"}"#, r#"{"method": "m", "params": ["dir"]}"#] {
        assert_eq!(receive(text).ok().unwrap().1.dir, None);
    }
    // Of two members with one name the last one counts.
    let text = r#"{"method": "m", "params": {"dir": "a", "dir": "b"}}"#;
    assert_eq!(receive(text).ok().unwrap().1.dir, some("b"));
}

#[test]
fn members_give_method_and_fields() {
    let members = vec![
        ("method".to_string(), Member::Text("ping".to_string())),
        ("n".to_string(), Member::Number(Some(3))),
        ("n".to_string(), Member::Number(Some(4))),
        ("shares".to_string(), Member::List(vec![Some("s".to_string()), None])),
        ("dir".to_string(), Member::Other),
    ];
    assert_eq!(method_of(&members), "ping");
    let params = params_of(&members);
    assert_eq!(params.n, Some(3));
    assert_eq!(params.shares, Some(vec![Some("s".to_string()), None]));
    assert_eq!(params.dir, None);
    assert_eq!(method_of(&members[1..]), "");
}

#[test]
fn create_wallet_produces_a_checksummed_address_and_external_shares() {
    let mut world = World::default();
    let (address, shares) = create(&mut world);
    assert!(address.starts_with("0x"));
    assert_eq!(address.len(), 42);
    assert_eq!(address, world.address());

    assert_eq!(shares.len(), 2);
    let encoded = encode_shares(&shares);
    for (text, share) in encoded.iter().zip(&shares) {
        let decoded = base64::engine::general_purpose::STANDARD.decode(text).unwrap();
        assert_eq!(&decoded, share);
    }
}

#[test]
fn create_wallet_rejects_missing_fields() {
    let e = refused(r#"{"method": "create_wallet", "params": {}}"#);
    assert_eq!(e, "missing or empty required field: dir");
    let mut params = create_params();
    params.dir = Some(String::new());
    assert!(open_request("create_wallet", &params).is_err());
    let mut params = create_params();
    params.n = Some(256);
    params.threshold = None;
    params.passphrase = None;
    let read = |params: &Params| read_job(Method::CreateWallet, params).err().unwrap();
    assert_eq!(read(&params), FieldError::MissingPassphrase);
    params.passphrase = Some(PASS.to_string());
    assert_eq!(read(&params), FieldError::BadThreshold);
    params.threshold = Some(2);
    assert_eq!(read(&params), FieldError::BadShareCount);
}

#[test]
fn get_address_matches_the_address_from_create_wallet() {
    let mut world = World::default();
    let (created_address, _) = create(&mut world);
    let params = Params { dir: dir(), ..Params::default() };
    match world.request("get_address", &params) {
        Ok(Response::Address(address)) => assert_eq!(address, created_address),
        _ => panic!("no address"),
    }
}

#[test]
fn get_address_on_missing_wallet_is_an_error_not_a_panic() {
    let params = Params { dir: dir(), ..Params::default() };
    let e = error_of(World::default().request("get_address", &params));
    assert_eq!(e, "filesystem error: no pubkey");
}

#[test]
fn get_balance_rejects_empty_rpc_urls() {
    let text = r#"{"method": "get_balance", "params": {"dir": "/tmp/whatever", "rpc_urls": [], "chain_id": 1}}"#;
    let e = error_of(World::default().request_text(text));
    assert_eq!(e, "rpc_urls must contain at least one endpoint");
    let params = Params { dir: dir(), chain_id: Some(1), ..Params::default() };
    // Elements that are no texts do not count.
    let params = Params { rpc_urls: Some(vec![None]), ..params };
    assert_eq!(read_job(Method::GetBalance, &params).err(), Some(FieldError::NoRpcUrls));
}

#[test]
fn get_balance_rejects_missing_fields() {
    let e = refused(r#"{"method": "get_balance", "params": {}}"#);
    assert_eq!(e, "missing or empty required field: dir");
    let params = Params { dir: dir(), ..Params::default() };
    assert_eq!(read_job(Method::GetBalance, &params).err(), Some(FieldError::MissingRpcUrls));
    let params = Params { rpc_urls: texts(&["a".to_string()]), ..params };
    assert_eq!(read_job(Method::GetBalance, &params).err(), Some(FieldError::BadChainId));
}

#[test]
fn unlock_wallet_with_correct_passphrase_returns_the_address() {
    let mut world = World::default();
    let (created_address, _) = create(&mut world);
    let params =
        Params { dir: dir(), passphrase: Some(PASS.to_string()), ..Params::default() };
    match world.request("unlock_wallet", &params) {
        Ok(Response::Address(address)) => assert_eq!(address, created_address),
        _ => panic!("not unlocked"),
    }
}

#[test]
fn unlock_wallet_with_wrong_passphrase_is_an_error_not_a_panic() {
    let mut world = World::default();
    create(&mut world);
    let params = Params {
        dir: dir(),
        passphrase: Some("wrong but long enough".to_string()),
        ..Params::default()
    };
    let e = error_of(world.request("unlock_wallet", &params));
    assert!(e.starts_with("wrong passphrase"));
    assert!(!e.contains("wrong but long enough"));
}

#[test]
fn import_wallet_reconstructs_the_same_address_on_a_new_device() {
    let mut world = World::default();
    let (created_address, shares) = create(&mut world);
    let mut new_device = World::default();
    let params = Params {
        dir: dir(),
        passphrase: Some(PASS.to_string()),
        shares: texts(&encode_shares(&shares)),
        ..Params::default()
    };
    match new_device.request("import_wallet", &params) {
        Ok(Response::Address(address)) => assert_eq!(address, created_address),
        _ => panic!("not imported"),
    }
    assert_eq!(new_device.pubkey, world.pubkey);
    assert_eq!(new_device.share, None);
}

#[test]
fn import_wallet_rejects_fewer_than_two_shares() {
    let text = r#"{"method": "import_wallet", "params": {"dir": "/tmp/whatever", "passphrase": "x", "shares": ["aGVsbG8="]}}"#;
    let e = error_of(World::default().request_text(text));
    assert_eq!(e, "at least 2 shares are required to import a wallet");
}

#[test]
fn share_lists_are_checked() {
    let read = |shares: Option<Vec<Option<String>>>| {
        let params = Params {
            passphrase: Some(PASS.to_string()),
            shares,
            ..Params::default()
        };
        read_job(Method::ImportWallet, &params).err().unwrap()
    };
    let share = || Some("aGVsbG8=".to_string());
    assert_eq!(read(None), FieldError::MissingShares);
    assert_eq!(read(Some(vec![share(), None])), FieldError::ShareNotText);
    assert_eq!(
        read(Some(vec![share(), Some("A".repeat(1025))])),
        FieldError::ShareTooLarge(1025)
    );
    assert_eq!(read(Some(vec![share(), Some("!".to_string())])), FieldError::ShareNotBase64);
    // The first one that is wrong is the one that is named.
    assert_eq!(
        read(Some(vec![Some("!".to_string()), None])),
        FieldError::ShareNotBase64
    );
    let many: Vec<Option<String>> = (0..MAX_SHARES + 1).map(|_| share()).collect();
    let e = read(Some(many));
    assert_eq!(e, FieldError::TooManyShares(256));
    assert_eq!(e.text(), "too many shares: 256 exceeds limit of 255");
    assert_eq!(
        FieldError::ShareTooLarge(1025).text(),
        "share string too large: 1025 bytes exceeds limit of 1024"
    );
}

fn send_params() -> Params {
    Params {
        dir: dir(),
        passphrase: Some(PASS.to_string()),
        chain_id: Some(1),
        rpc_urls: texts(&["http://localhost:1".to_string()]),
        to: Some(format!("0x{}", "22".repeat(20))),
        value_wei: Some("1000".to_string()),
        ..Params::default()
    }
}

#[test]
fn send_transaction_rejects_a_malformed_address() {
    let mut world = World::default();
    create(&mut world);
    let mut params = send_params();
    params.to = Some("not-an-address".to_string());
    let e = error_of(world.request("send_transaction", &params));
    assert_eq!(e, "`to` must be a 0x-prefixed 20-byte address");
    assert!(world.asked.is_empty());
}

#[test]
fn send_transaction_rejects_missing_fields() {
    let e = refused(r#"{"method": "send_transaction", "params": {}}"#);
    assert_eq!(e, "missing or empty required field: dir");
    let read = |params: &Params| read_job(Method::SendTransaction, params).err().unwrap();
    let mut params = Params::default();
    assert_eq!(read(&params), FieldError::MissingPassphrase);
    params.passphrase = Some(PASS.to_string());
    assert_eq!(read(&params), FieldError::BadChainId);
    params.chain_id = Some(1);
    assert_eq!(read(&params), FieldError::MissingRpcUrls);
    params.rpc_urls = texts(&["a".to_string()]);
    assert_eq!(read(&params), FieldError::MissingRecipient);
    params.to = Some(format!("0x{}", "22".repeat(20)));
    assert_eq!(read(&params), FieldError::BadValue);
    params.value_wei = Some("0x10".to_string());
    assert_eq!(read(&params), FieldError::BadValue);
    params.value_wei = Some("10".to_string());
    assert!(read_job(Method::SendTransaction, &params).is_ok());
    let read = |params: &Params| read_job(Method::SendErc20Transaction, params).err().unwrap();
    assert_eq!(read(&params), FieldError::MissingToken);
    params.token_address = Some("0x12".to_string());
    assert_eq!(read(&params), FieldError::BadToken);
}

#[test]
fn oversized_request_is_rejected_before_json_parsing() {
    let huge = "x".repeat(MAX_REQUEST_LEN + 1);
    assert_eq!(refused(&huge), "request too large: 65537 bytes exceeds 65536 byte limit");
    // Bytes count, not characters.
    let wide = "\u{e9}".repeat(MAX_REQUEST_LEN / 2 + 1);
    assert_eq!(refused(&wide), "request too large: 65538 bytes exceeds 65536 byte limit");
    let padded = format!(r#"{{"method": "ping"}}{}"#, " ".repeat(MAX_REQUEST_LEN - 18));
    assert_eq!(padded.len(), MAX_REQUEST_LEN);
    assert!(process_request(&padded).is_ok());
    assert!(check_request_len(MAX_REQUEST_LEN).is_ok());
}

#[test]
fn path_outside_sandbox_is_rejected() {
    let path = |parts: &[&str]| -> Result<Vec<Vec<u8>>, String> {
        Ok(parts.iter().map(|p| p.as_bytes().to_vec()).collect())
    };
    let base = || path(&["/", "tmp"]);
    let e = validate_dir(Some((path(&["/", "root", "workspace"]), base()))).unwrap_err();
    assert!(e.text().contains("escapes the wallet sandbox"));
    assert!(validate_dir(Some((path(&["/", "tmp", "w"]), base()))).is_ok());
    assert!(validate_dir(Some((base(), base()))).is_ok());
    // Components count, not characters.
    assert!(validate_dir(Some((path(&["/", "tmpfile"]), base()))).is_err());
    assert!(validate_dir(Some((path(&["/"]), base()))).is_err());
    let gone = || Err("gone".to_string());
    assert_eq!(validate_dir(Some((gone(), gone()))).unwrap_err().text(), "invalid path: gone");
    assert_eq!(
        validate_dir(Some((base(), gone()))).unwrap_err().text(),
        "invalid base path: gone"
    );
    assert_eq!(
        validate_dir(None).unwrap_err().text(),
        "base directory not set \u{2014} call set_base_dir first"
    );
}

fn honest(chain: &str) -> Vec<(&'static str, RpcValue)> {
    vec![
        ("eth_chainId", text(chain)),
        ("eth_getBalance", text("0xde0b6b3a7640000")),
        ("eth_getTransactionCount", text("0x7")),
        (
            "eth_getBlockByNumber",
            RpcValue::Object(vec![("baseFeePerGas".to_string(), "0x3b9aca00".to_string())]),
        ),
        ("eth_sendRawTransaction", text(&format!("0x{}", "cd".repeat(32)))),
        ("eth_call", text(&format!("0x{}2a", "00".repeat(31)))),
    ]
}

/// A wallet of a key that was split, without sealed shares.
fn keyed(world: &mut World) -> Vec<Share> {
    let (key, shares) = generate_and_split_key(2, 3).unwrap();
    world.pubkey = Some(key.to_sec1_bytes());
    shares
}

fn three_nodes() -> (World, Vec<String>) {
    let mut world = World::default();
    let urls: Vec<String> = ["a", "b", "c"].iter().map(|u| u.to_string()).collect();
    for url in &urls {
        world.node(url, &honest("0x1"));
    }
    (world, urls)
}

fn balance_params(urls: &[String]) -> Params {
    Params {
        dir: dir(),
        rpc_urls: texts(urls),
        chain_id: Some(1),
        ..Params::default()
    }
}

#[test]
fn balance_is_confirmed_by_every_node() {
    let (mut world, urls) = three_nodes();
    keyed(&mut world);
    match world.request("get_balance", &balance_params(&urls)) {
        Ok(Response::Balance { address, amount }) => {
            assert_eq!(address, world.address());
            assert_eq!(amount, 1_000_000_000_000_000_000);
        }
        _ => panic!("no balance"),
    }
    assert_eq!(
        world.asked,
        vec![
            "a eth_chainId",
            "b eth_chainId",
            "c eth_chainId",
            "a eth_getBalance",
            "b eth_getBalance",
            "c eth_getBalance"
        ]
    );
}

#[test]
fn a_lying_node_is_named_and_nothing_more_is_asked() {
    let (mut world, urls) = three_nodes();
    keyed(&mut world);
    world.node("b", &[("eth_chainId", text("0x1")), ("eth_getBalance", text("0x1"))]);
    let e = error_of(world.request("get_balance", &balance_params(&urls)));
    assert_eq!(
        e,
        "RPC endpoints disagree: a and b returned different values for the same query \u{2014} refusing to proceed"
    );
    assert_eq!(world.asked.last().unwrap(), "b eth_getBalance");
}

#[test]
fn an_unreachable_node_is_named() {
    let (mut world, urls) = three_nodes();
    keyed(&mut world);
    world.nodes.remove("c");
    let e = error_of(world.request("get_balance", &balance_params(&urls)));
    assert_eq!(e, "RPC query to c failed: transport error: unreachable");
    world.nodes.remove("a");
    let e = error_of(world.request("get_balance", &balance_params(&urls)));
    assert_eq!(e, "RPC error: transport error: unreachable");
}

#[test]
fn another_chain_is_refused() {
    let (mut world, urls) = three_nodes();
    keyed(&mut world);
    for url in &urls {
        world.node(url, &honest("0x5"));
    }
    let e = error_of(world.request("get_balance", &balance_params(&urls)));
    assert_eq!(
        e,
        "chain_id 1 was requested, but the RPC endpoint(s) report chain ID 5"
    );
}

#[test]
fn token_balance_is_read_from_the_contract() {
    let (mut world, urls) = three_nodes();
    keyed(&mut world);
    let mut params = balance_params(&urls);
    params.token_address = Some(format!("0x{}", "33".repeat(20)));
    match world.request("get_erc20_balance", &params) {
        Ok(Response::Balance { amount, .. }) => assert_eq!(amount, 42),
        _ => panic!("no balance"),
    }
    let huge = [("eth_chainId", text("0x1")), ("eth_call", text(&format!("0x{}", "ff".repeat(32))))];
    for url in &urls {
        world.node(url, &huge);
    }
    let e = error_of(world.request("get_erc20_balance", &params));
    assert_eq!(e, "balance exceeds u128 capacity");
}

#[test]
fn payment_goes_out_signed_and_confirmed() {
    let (mut world, urls) = three_nodes();
    let shares = keyed(&mut world);
    world.share = Some(seal_share(PASS, &shares[0]).unwrap());
    let mut params = send_params();
    params.rpc_urls = texts(&urls);
    params.shares = texts(&encode_shares(&vec![seal_share(PASS, &shares[2]).unwrap()]));
    match world.request("send_transaction", &params) {
        Ok(Response::Sent(hash)) => assert_eq!(hash, [0xcd; 32]),
        Ok(_) => panic!("not sent"),
        Err(e) => panic!("{}", e.text()),
    }
    let signed = decode_signed(&world.broadcast.clone().unwrap()).unwrap();
    assert_eq!(signed.tx.chain_id, 1);
    assert_eq!(signed.tx.nonce, 7);
    assert_eq!(signed.tx.to, [0x22; 20]);
    assert_eq!(signed.tx.value, 1000);
    assert_eq!(signed.tx.gas_limit, 21_000);
    assert_eq!(signed.tx.max_fee_per_gas, 3_500_000_000);
    assert_eq!(signed.tx.max_priority_fee_per_gas, 1_500_000_000);
    assert!(signed.tx.data.is_empty());
    assert_eq!(world.asked.last().unwrap(), "a eth_sendRawTransaction");
    assert_eq!(world.asked.len(), 8);
}

#[test]
fn token_payment_calls_the_contract() {
    let (mut world, urls) = three_nodes();
    let shares = keyed(&mut world);
    let mut params = send_params();
    params.rpc_urls = texts(&urls);
    params.token_address = Some(format!("0x{}", "33".repeat(20)));
    // An imported wallet has no local share.
    let sealed = shares[1..].iter().map(|s| seal_share(PASS, s).unwrap()).collect();
    params.shares = texts(&encode_shares(&sealed));
    assert!(matches!(
        world.request("send_erc20_transaction", &params),
        Ok(Response::Sent(_))
    ));
    // The signature is deterministic, so the whole of what goes out is known.
    let tx = UnsignedEip1559Tx {
        chain_id: 1,
        nonce: 7,
        max_priority_fee_per_gas: 1_500_000_000,
        max_fee_per_gas: 3_500_000_000,
        gas_limit: 100_000,
        to: [0x33; 20],
        value: 0,
        data: parse_hex(&format!(
            "0xa9059cbb{}{}{}03e8",
            "00".repeat(12),
            "22".repeat(20),
            "00".repeat(30)
        ))
        .unwrap(),
    };
    let key = load_public_key(Ok(world.pubkey.clone().unwrap())).unwrap();
    let raw = world.broadcast.clone().unwrap();
    assert_eq!(raw, sign_evm_transfer(tx, &shares[1..], &key).unwrap());
    assert_eq!(decode_signed(&raw).unwrap_err(), EvmDecodeError::UnrecognizedCalldata);
}

#[test]
fn nothing_is_broadcast_when_something_is_wrong() {
    let (mut world, urls) = three_nodes();
    let shares = keyed(&mut world);
    world.share = Some(seal_share(PASS, &shares[0]).unwrap());
    let mut params = send_params();
    params.rpc_urls = texts(&urls);
    // Too few shares.
    let e = error_of(world.request("send_transaction", &params));
    assert_eq!(e, "signing failed: invalid or insufficient shares");
    // No local share, and no other one.
    let share = world.share.take();
    let e = error_of(world.request(
        "send_transaction",
        &Params { shares: None, rpc_urls: texts(&urls), ..send_params() },
    ));
    assert_eq!(e, "filesystem error: no share");
    world.share = share;
    // A fee above the ceiling.
    let mut greedy = honest("0x1");
    greedy[3].1 =
        RpcValue::Object(vec![("baseFeePerGas".to_string(), "0x9184e72a000".to_string())]);
    world.node("a", &greedy);
    let e = error_of(world.request("send_transaction", &params));
    assert_eq!(
        e,
        "transaction build error: max_fee_per_gas 20001500000000 wei exceeds the hard ceiling of 10000000000000 wei"
    );
    // Different nonces.
    let mut behind = honest("0x1");
    behind[2].1 = text("0x6");
    world.node("a", &honest("0x1"));
    world.node("c", &behind);
    assert!(matches!(
        world.request("send_transaction", &params),
        Err(Refusal::CrossCheck(CrossCheckError::Disagreement(d)))
            if d.primary.0 == "a" && d.disagreeing.0 == "c"
    ));
    assert_eq!(world.broadcast, None);
}

#[test]
fn files_that_cannot_be_written() {
    let mut world = World { read_only: true, ..World::default() };
    let e = error_of(world.request("create_wallet", &create_params()));
    assert_eq!(e, "filesystem error: read-only");
    assert_eq!(world.pubkey, None);
}

#[test]
fn creation_is_refused_with_words() {
    let mut world = World::default();
    let mut params = create_params();
    params.threshold = Some(4);
    let e = error_of(world.request("create_wallet", &params));
    assert_eq!(e, "invalid threshold/share configuration");
    params.threshold = Some(2);
    params.passphrase = Some("short".to_string());
    let e = error_of(world.request("create_wallet", &params));
    assert_eq!(e, "passphrase too short \u{2014} must be at least 12 characters");
    assert_eq!(world.share, None);
}

#[test]
fn wallet_errors_in_words() {
    let say = |e: StorageError| Refusal::Wallet(WalletError::Storage(e)).text();
    assert_eq!(say(StorageError::Truncated), "wallet file is corrupted or truncated");
    assert_eq!(say(StorageError::InvalidKeyBytes), "wallet file contains invalid key data");
    assert_eq!(
        say(StorageError::UnsupportedVersion(9)),
        "wallet file uses unsupported format version 9"
    );
    assert_eq!(
        Refusal::Wallet(WalletError::InvalidPublicKey).text(),
        "internal error: generated an invalid public key"
    );
}

#[test]
fn holders_bring_their_shares_to_the_command_line() {
    let (mut world, urls) = three_nodes();
    let mut shares = keyed(&mut world);
    let pasted = to_hex(&seal_share(PASS, &shares[2]).unwrap());
    world.brought = vec![shares.remove(0), open_pasted_share(PASS, &pasted).unwrap()];
    let job = Job::Send {
        network: Network { chain_id: 1, endpoints: urls.into_iter().map(Endpoint).collect() },
        payment: Payment::Native { to: [0x44; 20], value: 5 },
        gas_limit: 30_000,
        signers: Signers::Holders,
    };
    let response = match world.run(job) {
        Ok(response) => response,
        Err(e) => panic!("{}", e.text()),
    };
    assert_eq!(describe_response(&response), format!("Broadcast: 0x{}", "cd".repeat(32)));
    let signed = decode_signed(&world.broadcast.unwrap()).unwrap();
    assert_eq!(signed.tx.gas_limit, 30_000);
    assert_eq!(signed.tx.to, [0x44; 20]);
}

#[test]
fn pasted_shares_may_be_wrong() {
    let e = open_pasted_share(PASS, "zz").unwrap_err();
    assert!(format!("{e:?}").contains("must be 0x-prefixed hex"));
    let e = open_pasted_share(PASS, "0x").unwrap_err();
    assert_eq!(format!("{e:?}"), "Wallet(Storage(Truncated))");
}

#[test]
fn share_plan_takes_the_local_share_once() {
    let plan = plan_shares(&[3, 1, 2, 1, 3]);
    assert!(plan.local);
    assert_eq!(plan.pasted, vec![3, 2, 3]);
    let plan = plan_shares(&[2]);
    assert!(!plan.local);
    assert_eq!(plan.pasted, vec![2]);
}

#[test]
fn passphrase_is_confirmed() {
    assert!(passphrases_match("abc", "abc"));
    assert!(!passphrases_match("abc", "abd"));
    assert!(!passphrases_match("abc", "abcd"));
    assert_eq!(
        format!("{:?}", SecretText::from_text(PASS.to_string())),
        "SecretText(REDACTED)"
    );
}

#[test]
fn status_of_a_transaction() {
    let job = || Job::Status { endpoint: Endpoint("a".to_string()), tx_hash: [0xaa; 32] };
    let mut world = World::default();
    world.node("a", &[("eth_getTransactionReceipt", RpcValue::Null)]);
    let response = world.run(job()).ok().unwrap();
    assert_eq!(describe_response(&response), "pending (not yet mined)");
    let mined = |status: &str| {
        RpcValue::Object(vec![
            ("status".to_string(), status.to_string()),
            ("blockNumber".to_string(), "0x64".to_string()),
        ])
    };
    world.node(
        "a",
        &[("eth_getTransactionReceipt", mined("0x1")), ("eth_blockNumber", text("0x6f"))],
    );
    let response = world.run(job()).ok().unwrap();
    assert_eq!(
        describe_response(&response),
        "mined in block 100, 12 confirmation(s), status: success"
    );
    world.node(
        "a",
        &[("eth_getTransactionReceipt", mined("0x0")), ("eth_blockNumber", text("0x64"))],
    );
    let response = world.run(job()).ok().unwrap();
    assert_eq!(
        describe_response(&response),
        "mined in block 100, 1 confirmation(s), status: reverted"
    );
    let e = error_of(World::default().run(job()));
    assert_eq!(e, "RPC error: transport error: unreachable");
}

#[test]
fn lines_of_responses() {
    assert_eq!(describe_response(&Response::Address("0xab".to_string())), "0xab");
    let balance = Response::Balance { address: "0xab".to_string(), amount: 12 };
    assert_eq!(describe_response(&balance), "12 wei");
}
