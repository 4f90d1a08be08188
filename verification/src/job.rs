//! Reading of requests: from a method and its fields to a job with every field checked.
//!
//! Fields are checked in a fixed order for each method, and the first one that is missing or
//! wrong is what the request is refused for.

use vstd::prelude::*;
use vstd::utf8::encode_utf8;

use crate::encoding::{base64_bytes, base64_decode, base64_encode, base64_text};
use crate::hex::{address_reading, parse_address_hex};
use crate::json::{list_view, text_view};
use crate::request::{
    receive, request_reading, FieldError, Params, ParamsView, Refusal, RefusalView, MAX_SHARES,
    MAX_SHARE_B64_LEN, TOKEN_TRANSFER_GAS, TRANSFER_GAS,
};
use crate::rpc::Endpoint;
use crate::secret::SecretText;
use crate::storage::hashable;
use crate::text::{read_number, text_equal, text_number, NumberError};
use crate::wallet::blobs;

verus! {

/// The methods that work on a wallet.
#[derive(Debug, Clone, Copy, PartialEq, Eq, Structural)]
pub enum Method {
    CreateWallet,
    GetAddress,
    GetBalance,
    UnlockWallet,
    ImportWallet,
    GetErc20Balance,
    SendTransaction,
    SendErc20Transaction,
}

/// What is to be done first about a request.
#[derive(Debug)]
pub enum Opening {
    /// Answer that the library is there.
    Pong,
    /// Answer with the version of the interface.
    Version,
    /// See whether the directory may be used, then read the fields.
    Enter {
        method: Method,
        dir: String,
    },
}

/// What an opening says.
pub ghost enum OpeningView {
    Pong,
    Version,
    Enter(Method, Seq<char>),
}

impl Opening {
    pub open spec fn view(&self) -> OpeningView {
        match self {
            Opening::Pong => OpeningView::Pong,
            Opening::Version => OpeningView::Version,
            Opening::Enter { method, dir } => OpeningView::Enter(*method, dir@),
        }
    }
}

/// The method of a wallet with that name.
pub open spec fn named_method(name: Seq<char>) -> Option<Method> {
    if name == "create_wallet"@ {
        Some(Method::CreateWallet)
    } else if name == "get_address"@ {
        Some(Method::GetAddress)
    } else if name == "get_balance"@ {
        Some(Method::GetBalance)
    } else if name == "unlock_wallet"@ {
        Some(Method::UnlockWallet)
    } else if name == "import_wallet"@ {
        Some(Method::ImportWallet)
    } else if name == "get_erc20_balance"@ {
        Some(Method::GetErc20Balance)
    } else if name == "send_transaction"@ {
        Some(Method::SendTransaction)
    } else if name == "send_erc20_transaction"@ {
        Some(Method::SendErc20Transaction)
    } else {
        None
    }
}

/// The directory of a request, which must not be empty.
pub open spec fn dir_field(params: ParamsView) -> Option<Seq<char>> {
    match params.dir {
        Some(d) => if d.len() > 0 {
            Some(d)
        } else {
            None
        },
        None => None,
    }
}

/// What is to be done first about a request, or why it is refused at once.
pub open spec fn opening_reading(method: Seq<char>, params: ParamsView) -> Result<
    OpeningView,
    RefusalView,
> {
    if method == "ping"@ {
        Ok(OpeningView::Pong)
    } else if method == "get_version"@ {
        Ok(OpeningView::Version)
    } else {
        match named_method(method) {
            None => Err(RefusalView::UnknownMethod(method)),
            Some(m) => match dir_field(params) {
                None => Err(RefusalView::Field(FieldError::MissingDir)),
                Some(dir) => Ok(OpeningView::Enter(m, dir)),
            },
        }
    }
}

/// The method of a wallet with that name.
fn find_method(name: &str) -> (r: Option<Method>)
    ensures
        r == named_method(name@),
{
    if text_equal(name, "create_wallet") {
        Some(Method::CreateWallet)
    } else if text_equal(name, "get_address") {
        Some(Method::GetAddress)
    } else if text_equal(name, "get_balance") {
        Some(Method::GetBalance)
    } else if text_equal(name, "unlock_wallet") {
        Some(Method::UnlockWallet)
    } else if text_equal(name, "import_wallet") {
        Some(Method::ImportWallet)
    } else if text_equal(name, "get_erc20_balance") {
        Some(Method::GetErc20Balance)
    } else if text_equal(name, "send_transaction") {
        Some(Method::SendTransaction)
    } else if text_equal(name, "send_erc20_transaction") {
        Some(Method::SendErc20Transaction)
    } else {
        None
    }
}

/// What is to be done first about a request, or why it is refused at once.
pub fn open_request(method: &str, params: &Params) -> (r: Result<Opening, Refusal>)
    ensures
        match r {
            Ok(opening) => opening_reading(method@, params@) == Ok::<_, RefusalView>(opening@),
            Err(e) => opening_reading(method@, params@) == Err::<OpeningView, _>(e@),
        },
{
    if text_equal(method, "ping") {
        return Ok(Opening::Pong);
    }
    if text_equal(method, "get_version") {
        return Ok(Opening::Version);
    }
    let m = match find_method(method) {
        Some(m) => m,
        None => return Err(Refusal::UnknownMethod(method.to_owned())),
    };
    match &params.dir {
        Some(d) => if d.as_str().unicode_len() > 0 {
            return Ok(Opening::Enter { method: m, dir: d.clone() });
        },
        None => {},
    }
    Err(Refusal::Field(FieldError::MissingDir))
}

/// What a request text is about, or why it is refused at once.
pub open spec fn text_opening(text: Seq<char>) -> Result<(OpeningView, ParamsView), RefusalView> {
    match request_reading(text) {
        Err(e) => Err(e),
        Ok((method, params)) => match opening_reading(method, params) {
            Err(e) => Err(e),
            Ok(opening) => Ok((opening, params)),
        },
    }
}

/// Takes a request text apart, and says what is to be done first about it.
pub fn process_request(text: &str) -> (r: Result<(Opening, Params), Refusal>)
    ensures
        match r {
            Ok((opening, params)) => text_opening(text@) == Ok::<_, RefusalView>(
                (opening@, params@),
            ),
            Err(e) => text_opening(text@) == Err::<(OpeningView, ParamsView), _>(e@),
        },
{
    let (method, params) = match receive(text) {
        Ok(x) => x,
        Err(e) => return Err(e),
    };
    match open_request(method.as_str(), &params) {
        Ok(opening) => Ok((opening, params)),
        Err(e) => Err(e),
    }
}

/// The nodes to ask, the first one being the one that is relied on, and the chain that all of
/// them must serve.
pub struct Network {
    pub chain_id: u64,
    pub endpoints: Vec<Endpoint>,
}

/// What is to be paid.
pub enum Payment {
    /// Native currency.
    Native {
        to: [u8; 20],
        value: u128,
    },
    /// An ERC-20 token.
    Token {
        token: [u8; 20],
        to: [u8; 20],
        value: u128,
    },
}

/// Where the shares for signing come from.
pub enum Signers {
    /// From the wallet's directory and from the request, all under one passphrase.
    Stored {
        passphrase: SecretText,
        sealed: Vec<Vec<u8>>,
    },
    /// From their holders, one by one, once the transaction is built.
    Holders,
}

/// Something to be done with a wallet.
pub enum Job {
    Create {
        passphrase: SecretText,
        threshold: u8,
        n: u8,
    },
    Import {
        passphrase: SecretText,
        sealed: Vec<Vec<u8>>,
    },
    Address,
    Unlock {
        passphrase: SecretText,
    },
    Balance {
        network: Network,
    },
    TokenBalance {
        network: Network,
        token: [u8; 20],
    },
    Send {
        network: Network,
        payment: Payment,
        gas_limit: u64,
        signers: Signers,
    },
    Status {
        endpoint: Endpoint,
        tx_hash: [u8; 32],
    },
}

#[verifier::ext_equal]
pub ghost struct NetworkView {
    pub chain_id: nat,
    pub endpoints: Seq<Seq<char>>,
}

#[verifier::ext_equal]
pub ghost enum PaymentView {
    Native {
        to: Seq<u8>,
        value: nat,
    },
    Token {
        token: Seq<u8>,
        to: Seq<u8>,
        value: nat,
    },
}

#[verifier::ext_equal]
pub ghost enum SignersView {
    Stored {
        passphrase: Seq<char>,
        sealed: Seq<Seq<u8>>,
    },
    Holders,
}

/// What a job says.
#[verifier::ext_equal]
pub ghost enum JobView {
    Create {
        passphrase: Seq<char>,
        threshold: u8,
        n: u8,
    },
    Import {
        passphrase: Seq<char>,
        sealed: Seq<Seq<u8>>,
    },
    Address,
    Unlock {
        passphrase: Seq<char>,
    },
    Balance {
        network: NetworkView,
    },
    TokenBalance {
        network: NetworkView,
        token: Seq<u8>,
    },
    Send {
        network: NetworkView,
        payment: PaymentView,
        gas_limit: nat,
        signers: SignersView,
    },
    Status {
        endpoint: Seq<char>,
        tx_hash: Seq<u8>,
    },
}

/// The addresses of nodes.
pub open spec fn urls(endpoints: Seq<Endpoint>) -> Seq<Seq<char>> {
    Seq::new(endpoints.len(), |i: int| endpoints[i].0@)
}

impl Network {
    pub open spec fn view(&self) -> NetworkView {
        NetworkView { chain_id: self.chain_id as nat, endpoints: urls(self.endpoints@) }
    }
}

impl Payment {
    pub open spec fn view(&self) -> PaymentView {
        match self {
            Payment::Native { to, value } => PaymentView::Native { to: to@, value: *value as nat },
            Payment::Token { token, to, value } => PaymentView::Token {
                token: token@,
                to: to@,
                value: *value as nat,
            },
        }
    }
}

impl Signers {
    pub open spec fn view(&self) -> SignersView {
        match self {
            Signers::Stored { passphrase, sealed } => SignersView::Stored {
                passphrase: passphrase@,
                sealed: blobs(sealed@),
            },
            Signers::Holders => SignersView::Holders,
        }
    }
}

impl Job {
    pub open spec fn view(&self) -> JobView {
        match self {
            Job::Create { passphrase, threshold, n } => JobView::Create {
                passphrase: passphrase@,
                threshold: *threshold,
                n: *n,
            },
            Job::Import { passphrase, sealed } => JobView::Import {
                passphrase: passphrase@,
                sealed: blobs(sealed@),
            },
            Job::Address => JobView::Address,
            Job::Unlock { passphrase } => JobView::Unlock { passphrase: passphrase@ },
            Job::Balance { network } => JobView::Balance { network: network@ },
            Job::TokenBalance { network, token } => JobView::TokenBalance {
                network: network@,
                token: token@,
            },
            Job::Send { network, payment, gas_limit, signers } => JobView::Send {
                network: network@,
                payment: payment@,
                gas_limit: *gas_limit as nat,
                signers: signers@,
            },
            Job::Status { endpoint, tx_hash } => JobView::Status {
                endpoint: endpoint.0@,
                tx_hash: tx_hash@,
            },
        }
    }
}

/// The job can be done: there is a node to ask, and the passphrase can be hashed.
pub open spec fn feasible(job: JobView) -> bool {
    match job {
        JobView::Create { passphrase, .. } => hashable(passphrase),
        JobView::Import { passphrase, .. } => hashable(passphrase),
        JobView::Address => true,
        JobView::Unlock { passphrase } => hashable(passphrase),
        JobView::Balance { network } => network.endpoints.len() > 0,
        JobView::TokenBalance { network, .. } => network.endpoints.len() > 0,
        JobView::Send { network, signers, .. } => network.endpoints.len() > 0 && match signers {
            SignersView::Stored { passphrase, .. } => hashable(passphrase),
            SignersView::Holders => true,
        },
        JobView::Status { .. } => true,
    }
}

/// The texts among the elements of a list.
pub open spec fn texts(list: Seq<Option<Seq<char>>>) -> Seq<Seq<char>>
    decreases list.len(),
{
    if list.len() == 0 {
        Seq::empty()
    } else {
        match list.last() {
            Some(s) => texts(list.drop_last()).push(s),
            None => texts(list.drop_last()),
        }
    }
}

pub open spec fn passphrase_field(params: ParamsView) -> Result<Seq<char>, FieldError> {
    match params.passphrase {
        Some(p) => Ok(p),
        None => Err(FieldError::MissingPassphrase),
    }
}

/// A number of one byte, or the error.
pub open spec fn byte_field(value: Option<u64>, error: FieldError) -> Result<u8, FieldError> {
    match value {
        Some(v) => if v <= u8::MAX {
            Ok(v as u8)
        } else {
            Err(error)
        },
        None => Err(error),
    }
}

/// The nodes: the elements that are texts, of which there must be one.
pub open spec fn endpoints_field(params: ParamsView) -> Result<Seq<Seq<char>>, FieldError> {
    match params.rpc_urls {
        None => Err(FieldError::MissingRpcUrls),
        Some(list) => if texts(list).len() == 0 {
            Err(FieldError::NoRpcUrls)
        } else {
            Ok(texts(list))
        },
    }
}

pub open spec fn chain_id_field(params: ParamsView) -> Result<nat, FieldError> {
    match params.chain_id {
        Some(id) => Ok(id as nat),
        None => Err(FieldError::BadChainId),
    }
}

/// An address, or the error for one that is missing or for one that is malformed.
pub open spec fn address_field(
    value: Option<Seq<char>>,
    missing: FieldError,
    malformed: FieldError,
) -> Result<Seq<u8>, FieldError> {
    match value {
        None => Err(missing),
        Some(s) => match address_reading(s) {
            Some(address) => Ok(address),
            None => Err(malformed),
        },
    }
}

/// An amount in decimal text.
pub open spec fn value_field(params: ParamsView) -> Result<nat, FieldError> {
    match params.value_wei {
        None => Err(FieldError::BadValue),
        Some(s) => match text_number(encode_utf8(s), 10, u128::MAX as nat) {
            Ok(v) => Ok(v),
            Err(_) => Err(FieldError::BadValue),
        },
    }
}

pub open spec fn gas_field(params: ParamsView, default: u64) -> nat {
    match params.gas_limit {
        Some(gas) => gas as nat,
        None => default as nat,
    }
}

/// The sealed share that an element of the list of shares holds, or the error.
pub open spec fn share_element(element: Option<Seq<char>>) -> Result<Seq<u8>, FieldError> {
    match element {
        None => Err(FieldError::ShareNotText),
        Some(s) => if encode_utf8(s).len() > MAX_SHARE_B64_LEN {
            Err(FieldError::ShareTooLarge(encode_utf8(s).len() as usize))
        } else {
            match base64_bytes(s) {
                Some(bytes) => Ok(bytes),
                None => Err(FieldError::ShareNotBase64),
            }
        },
    }
}

/// The sealed shares that the first `k` elements hold, or the first error.
pub open spec fn share_elements(list: Seq<Option<Seq<char>>>, k: nat) -> Result<
    Seq<Seq<u8>>,
    FieldError,
>
    decreases k,
{
    if k == 0 {
        Ok(Seq::empty())
    } else {
        match share_elements(list, (k - 1) as nat) {
            Err(e) => Err(e),
            Ok(sealed) => match share_element(list[k - 1]) {
                Err(e) => Err(e),
                Ok(bytes) => Ok(sealed.push(bytes)),
            },
        }
    }
}

/// The sealed shares in a list of at most `MAX_SHARES`, or the error.
pub open spec fn share_list(list: Seq<Option<Seq<char>>>) -> Result<Seq<Seq<u8>>, FieldError> {
    if list.len() > MAX_SHARES {
        Err(FieldError::TooManyShares(list.len() as usize))
    } else {
        share_elements(list, list.len())
    }
}

/// The shares to import from: at least two.
pub open spec fn import_shares_field(params: ParamsView) -> Result<Seq<Seq<u8>>, FieldError> {
    match params.shares {
        None => Err(FieldError::MissingShares),
        Some(list) => if list.len() < 2 {
            Err(FieldError::TooFewShares)
        } else {
            share_list(list)
        },
    }
}

/// The shares to sign with besides the stored one: none, where the field is missing.
pub open spec fn signing_shares_field(params: ParamsView) -> Result<Seq<Seq<u8>>, FieldError> {
    match params.shares {
        None => Ok(Seq::empty()),
        Some(list) => share_list(list),
    }
}

/// The nodes and then the chain.
pub open spec fn queried_network(params: ParamsView) -> Result<NetworkView, FieldError> {
    match endpoints_field(params) {
        Err(e) => Err(e),
        Ok(endpoints) => match chain_id_field(params) {
            Err(e) => Err(e),
            Ok(chain_id) => Ok(NetworkView { chain_id, endpoints }),
        },
    }
}

/// The passphrase, the chain and then the nodes.
pub open spec fn sending_network(params: ParamsView) -> Result<(Seq<char>, NetworkView), FieldError> {
    match passphrase_field(params) {
        Err(e) => Err(e),
        Ok(passphrase) => match chain_id_field(params) {
            Err(e) => Err(e),
            Ok(chain_id) => match endpoints_field(params) {
                Err(e) => Err(e),
                Ok(endpoints) => Ok((passphrase, NetworkView { chain_id, endpoints })),
            },
        },
    }
}

/// Recipient and amount.
pub open spec fn recipient_and_value(params: ParamsView) -> Result<(Seq<u8>, nat), FieldError> {
    match address_field(params.to, FieldError::MissingRecipient, FieldError::BadRecipient) {
        Err(e) => Err(e),
        Ok(to) => match value_field(params) {
            Err(e) => Err(e),
            Ok(value) => Ok((to, value)),
        },
    }
}

/// The job of sending, once everything but the shares was read.
pub open spec fn sending_job(
    params: ParamsView,
    passphrase: Seq<char>,
    network: NetworkView,
    payment: PaymentView,
    default_gas: u64,
) -> Result<JobView, FieldError> {
    match signing_shares_field(params) {
        Err(e) => Err(e),
        Ok(sealed) => Ok(
            JobView::Send {
                network,
                payment,
                gas_limit: gas_field(params, default_gas),
                signers: SignersView::Stored { passphrase, sealed },
            },
        ),
    }
}

/// The job that a request asks for, or the first field that is missing or wrong.
pub open spec fn job_reading(method: Method, params: ParamsView) -> Result<JobView, FieldError> {
    match method {
        Method::CreateWallet => match passphrase_field(params) {
            Err(e) => Err(e),
            Ok(passphrase) => match byte_field(params.threshold, FieldError::BadThreshold) {
                Err(e) => Err(e),
                Ok(threshold) => match byte_field(params.n, FieldError::BadShareCount) {
                    Err(e) => Err(e),
                    Ok(n) => Ok(JobView::Create { passphrase, threshold, n }),
                },
            },
        },
        Method::GetAddress => Ok(JobView::Address),
        Method::GetBalance => match queried_network(params) {
            Err(e) => Err(e),
            Ok(network) => Ok(JobView::Balance { network }),
        },
        Method::UnlockWallet => match passphrase_field(params) {
            Err(e) => Err(e),
            Ok(passphrase) => Ok(JobView::Unlock { passphrase }),
        },
        Method::ImportWallet => match passphrase_field(params) {
            Err(e) => Err(e),
            Ok(passphrase) => match import_shares_field(params) {
                Err(e) => Err(e),
                Ok(sealed) => Ok(JobView::Import { passphrase, sealed }),
            },
        },
        Method::GetErc20Balance => match queried_network(params) {
            Err(e) => Err(e),
            Ok(network) => match address_field(
                params.token_address,
                FieldError::MissingToken,
                FieldError::BadToken,
            ) {
                Err(e) => Err(e),
                Ok(token) => Ok(JobView::TokenBalance { network, token }),
            },
        },
        Method::SendTransaction => match sending_network(params) {
            Err(e) => Err(e),
            Ok((passphrase, network)) => match recipient_and_value(params) {
                Err(e) => Err(e),
                Ok((to, value)) => sending_job(
                    params,
                    passphrase,
                    network,
                    PaymentView::Native { to, value },
                    TRANSFER_GAS,
                ),
            },
        },
        Method::SendErc20Transaction => match sending_network(params) {
            Err(e) => Err(e),
            Ok((passphrase, network)) => match address_field(
                params.token_address,
                FieldError::MissingToken,
                FieldError::BadToken,
            ) {
                Err(e) => Err(e),
                Ok(token) => match recipient_and_value(params) {
                    Err(e) => Err(e),
                    Ok((to, value)) => sending_job(
                        params,
                        passphrase,
                        network,
                        PaymentView::Token { token, to, value },
                        TOKEN_TRANSFER_GAS,
                    ),
                },
            },
        },
    }
}

/// The fields name this payment: its amount, its recipient and, for a token, the contract.
pub open spec fn asks_for(params: ParamsView, payment: PaymentView) -> bool {
    let (to, value) = match payment {
        PaymentView::Native { to, value } => (to, value),
        PaymentView::Token { to, value, .. } => (to, value),
    };
    &&& params.to is Some
    &&& address_reading(params.to->0) == Some(to)
    &&& params.value_wei is Some
    &&& text_number(encode_utf8(params.value_wei->0), 10, u128::MAX as nat) == Ok::<
        _,
        NumberError,
    >(value)
    &&& payment is Token ==> params.token_address is Some && address_reading(
        params.token_address->0,
    ) == Some(payment->token)
}

/// What is paid is what the request says: a request to send comes to the payment that it
/// names, in native currency or in a token according to its method, on the chain and through
/// the nodes that it names, and with the gas limit that it names.
pub proof fn law_payments_are_what_was_asked(method: Method, params: ParamsView, job: JobView)
    requires
        method is SendTransaction || method is SendErc20Transaction,
        job_reading(method, params) == Ok::<_, FieldError>(job),
    ensures
        job is Send,
        asks_for(params, job->payment),
        job->payment is Token <==> method is SendErc20Transaction,
        params.chain_id matches Some(id) && id as nat == job->Send_network.chain_id,
        params.rpc_urls matches Some(list) && job->Send_network.endpoints == texts(list),
        params.gas_limit matches Some(gas) ==> job->gas_limit == gas,
{
}

fn read_passphrase(params: &Params) -> (r: Result<SecretText, FieldError>)
    ensures
        match r {
            Ok(p) => passphrase_field(params@) == Ok::<_, FieldError>(p@),
            Err(e) => passphrase_field(params@) == Err::<Seq<char>, _>(e),
        },
{
    match &params.passphrase {
        Some(p) => Ok(SecretText::from_text(p.clone())),
        None => Err(FieldError::MissingPassphrase),
    }
}

fn read_byte(value: Option<u64>, error: FieldError) -> (r: Result<u8, FieldError>)
    ensures
        r == byte_field(value, error),
{
    match value {
        Some(v) => if v <= 255 {
            Ok(v as u8)
        } else {
            Err(error)
        },
        None => Err(error),
    }
}

fn read_endpoints(params: &Params) -> (r: Result<Vec<Endpoint>, FieldError>)
    ensures
        match r {
            Ok(endpoints) => endpoints_field(params@) == Ok::<_, FieldError>(urls(endpoints@)),
            Err(e) => endpoints_field(params@) == Err::<Seq<Seq<char>>, _>(e),
        },
{
    let list = match &params.rpc_urls {
        Some(list) => list,
        None => return Err(FieldError::MissingRpcUrls),
    };
    let ghost all = list_view(list@);
    let mut endpoints: Vec<Endpoint> = Vec::new();
    let mut i: usize = 0;
    assert(urls(endpoints@) =~= texts(all.take(0)));
    while i < list.len()
        invariant
            i <= list@.len(),
            all == list_view(list@),
            urls(endpoints@) == texts(all.take(i as int)),
        decreases list.len() - i,
    {
        let ghost before = endpoints@;
        assert(all.take(i + 1).drop_last() =~= all.take(i as int));
        match &list[i] {
            Some(url) => {
                endpoints.push(Endpoint(url.clone()));
                assert(urls(endpoints@) =~= urls(before).push(url@));
            },
            None => {},
        }
        i = i + 1;
    }
    assert(all.take(i as int) =~= all);
    if endpoints.len() == 0 {
        return Err(FieldError::NoRpcUrls);
    }
    Ok(endpoints)
}

fn read_chain_id(params: &Params) -> (r: Result<u64, FieldError>)
    ensures
        match r {
            Ok(id) => chain_id_field(params@) == Ok::<_, FieldError>(id as nat),
            Err(e) => chain_id_field(params@) == Err::<nat, _>(e),
        },
{
    match params.chain_id {
        Some(id) => Ok(id),
        None => Err(FieldError::BadChainId),
    }
}

fn read_address(value: &Option<String>, missing: FieldError, malformed: FieldError) -> (r: Result<
    [u8; 20],
    FieldError,
>)
    ensures
        match r {
            Ok(a) => address_field(text_view(*value), missing, malformed) == Ok::<_, FieldError>(a@),
            Err(e) => address_field(text_view(*value), missing, malformed) == Err::<Seq<u8>, _>(e),
        },
{
    match value {
        None => Err(missing),
        Some(s) => match parse_address_hex(s.as_str()) {
            Some(address) => Ok(address),
            None => Err(malformed),
        },
    }
}

fn read_value(params: &Params) -> (r: Result<u128, FieldError>)
    ensures
        match r {
            Ok(v) => value_field(params@) == Ok::<_, FieldError>(v as nat),
            Err(e) => value_field(params@) == Err::<nat, _>(e),
        },
{
    match &params.value_wei {
        None => Err(FieldError::BadValue),
        Some(s) => match read_number(s.as_str().as_bytes(), 10, u128::MAX) {
            Ok(v) => Ok(v),
            Err(_) => Err(FieldError::BadValue),
        },
    }
}

fn read_gas(params: &Params, default: u64) -> (r: u64)
    ensures
        r as nat == gas_field(params@, default),
{
    match params.gas_limit {
        Some(gas) => gas,
        None => default,
    }
}

proof fn lemma_share_error_stays(list: Seq<Option<Seq<char>>>, m: nat, k: nat)
    requires
        m <= k,
    ensures
        share_elements(list, m) is Err ==> share_elements(list, k) == share_elements(list, m),
    decreases k,
{
    if m < k {
        lemma_share_error_stays(list, m, (k - 1) as nat);
    }
}

fn read_share_list(list: &Vec<Option<String>>) -> (r: Result<Vec<Vec<u8>>, FieldError>)
    ensures
        match r {
            Ok(sealed) => share_list(list_view(list@)) == Ok::<_, FieldError>(blobs(sealed@)),
            Err(e) => share_list(list_view(list@)) == Err::<Seq<Seq<u8>>, _>(e),
        },
{
    if list.len() > MAX_SHARES {
        return Err(FieldError::TooManyShares(list.len()));
    }
    let mut sealed: Vec<Vec<u8>> = Vec::new();
    assert(blobs(sealed@) =~= Seq::<Seq<u8>>::empty());
    let mut i: usize = 0;
    while i < list.len()
        invariant
            i <= list@.len() <= MAX_SHARES,
            share_elements(list_view(list@), i as nat) == Ok::<_, FieldError>(blobs(sealed@)),
        decreases list.len() - i,
    {
        let ghost before = blobs(sealed@);
        proof {
            lemma_share_error_stays(list_view(list@), (i + 1) as nat, list@.len());
        }
        let s = match &list[i] {
            Some(s) => s,
            None => return Err(FieldError::ShareNotText),
        };
        let len: usize = s.as_str().as_bytes().len();
        if len > MAX_SHARE_B64_LEN {
            return Err(FieldError::ShareTooLarge(len));
        }
        match base64_decode(s.as_str()) {
            Some(bytes) => {
                sealed.push(bytes);
                assert(blobs(sealed@) =~= before.push(bytes@));
            },
            None => return Err(FieldError::ShareNotBase64),
        }
        i = i + 1;
    }
    Ok(sealed)
}

fn read_import_shares(params: &Params) -> (r: Result<Vec<Vec<u8>>, FieldError>)
    ensures
        match r {
            Ok(sealed) => import_shares_field(params@) == Ok::<_, FieldError>(blobs(sealed@)),
            Err(e) => import_shares_field(params@) == Err::<Seq<Seq<u8>>, _>(e),
        },
{
    match &params.shares {
        None => Err(FieldError::MissingShares),
        Some(list) => if list.len() < 2 {
            Err(FieldError::TooFewShares)
        } else {
            read_share_list(list)
        },
    }
}

fn read_signing_shares(params: &Params) -> (r: Result<Vec<Vec<u8>>, FieldError>)
    ensures
        match r {
            Ok(sealed) => signing_shares_field(params@) == Ok::<_, FieldError>(blobs(sealed@)),
            Err(e) => signing_shares_field(params@) == Err::<Seq<Seq<u8>>, _>(e),
        },
{
    match &params.shares {
        None => {
            let sealed: Vec<Vec<u8>> = Vec::new();
            assert(blobs(sealed@) =~= Seq::<Seq<u8>>::empty());
            Ok(sealed)
        },
        Some(list) => read_share_list(list),
    }
}

fn read_queried_network(params: &Params) -> (r: Result<Network, FieldError>)
    ensures
        match r {
            Ok(network) => queried_network(params@) == Ok::<_, FieldError>(network@)
                && network@.endpoints.len() > 0,
            Err(e) => queried_network(params@) == Err::<NetworkView, _>(e),
        },
{
    let endpoints = match read_endpoints(params) {
        Ok(endpoints) => endpoints,
        Err(e) => return Err(e),
    };
    let chain_id: u64 = match read_chain_id(params) {
        Ok(id) => id,
        Err(e) => return Err(e),
    };
    Ok(Network { chain_id, endpoints })
}

fn read_sending_network(params: &Params) -> (r: Result<(SecretText, Network), FieldError>)
    ensures
        match r {
            Ok((passphrase, network)) => sending_network(params@) == Ok::<_, FieldError>(
                (passphrase@, network@),
            ) && network@.endpoints.len() > 0,
            Err(e) => sending_network(params@) == Err::<(Seq<char>, NetworkView), _>(e),
        },
{
    let passphrase = match read_passphrase(params) {
        Ok(p) => p,
        Err(e) => return Err(e),
    };
    let chain_id: u64 = match read_chain_id(params) {
        Ok(id) => id,
        Err(e) => return Err(e),
    };
    let endpoints = match read_endpoints(params) {
        Ok(endpoints) => endpoints,
        Err(e) => return Err(e),
    };
    Ok((passphrase, Network { chain_id, endpoints }))
}

fn read_recipient_and_value(params: &Params) -> (r: Result<([u8; 20], u128), FieldError>)
    ensures
        match r {
            Ok((to, value)) => recipient_and_value(params@) == Ok::<_, FieldError>(
                (to@, value as nat),
            ),
            Err(e) => recipient_and_value(params@) == Err::<(Seq<u8>, nat), _>(e),
        },
{
    let to = match read_address(
        &params.to,
        FieldError::MissingRecipient,
        FieldError::BadRecipient,
    ) {
        Ok(to) => to,
        Err(e) => return Err(e),
    };
    match read_value(params) {
        Ok(value) => Ok((to, value)),
        Err(e) => Err(e),
    }
}

fn sending(
    params: &Params,
    passphrase: SecretText,
    network: Network,
    payment: Payment,
    default_gas: u64,
) -> (r: Result<Job, FieldError>)
    ensures
        match r {
            Ok(job) => sending_job(params@, passphrase@, network@, payment@, default_gas) == Ok::<
                _,
                FieldError,
            >(job@),
            Err(e) => sending_job(params@, passphrase@, network@, payment@, default_gas) == Err::<
                JobView,
                _,
            >(e),
        },
{
    let gas_limit: u64 = read_gas(params, default_gas);
    match read_signing_shares(params) {
        Ok(sealed) => Ok(
            Job::Send {
                network,
                payment,
                gas_limit,
                signers: Signers::Stored { passphrase, sealed },
            },
        ),
        Err(e) => Err(e),
    }
}

/// The job that a request asks for, or the first field that is missing or wrong.
pub fn read_job(method: Method, params: &Params) -> (r: Result<Job, FieldError>)
    requires
        params.passphrase matches Some(p) ==> hashable(p@),
    ensures
        match r {
            Ok(job) => job_reading(method, params@) == Ok::<_, FieldError>(job@) && feasible(job@),
            Err(e) => job_reading(method, params@) == Err::<JobView, _>(e),
        },
{
    match method {
        Method::CreateWallet => {
            let passphrase = match read_passphrase(params) {
                Ok(p) => p,
                Err(e) => return Err(e),
            };
            let threshold: u8 = match read_byte(params.threshold, FieldError::BadThreshold) {
                Ok(v) => v,
                Err(e) => return Err(e),
            };
            match read_byte(params.n, FieldError::BadShareCount) {
                Ok(n) => Ok(Job::Create { passphrase, threshold, n }),
                Err(e) => Err(e),
            }
        },
        Method::GetAddress => Ok(Job::Address),
        Method::GetBalance => match read_queried_network(params) {
            Ok(network) => Ok(Job::Balance { network }),
            Err(e) => Err(e),
        },
        Method::UnlockWallet => match read_passphrase(params) {
            Ok(passphrase) => Ok(Job::Unlock { passphrase }),
            Err(e) => Err(e),
        },
        Method::ImportWallet => {
            let passphrase = match read_passphrase(params) {
                Ok(p) => p,
                Err(e) => return Err(e),
            };
            match read_import_shares(params) {
                Ok(sealed) => Ok(Job::Import { passphrase, sealed }),
                Err(e) => Err(e),
            }
        },
        Method::GetErc20Balance => {
            let network = match read_queried_network(params) {
                Ok(network) => network,
                Err(e) => return Err(e),
            };
            match read_address(
                &params.token_address,
                FieldError::MissingToken,
                FieldError::BadToken,
            ) {
                Ok(token) => Ok(Job::TokenBalance { network, token }),
                Err(e) => Err(e),
            }
        },
        Method::SendTransaction => {
            let (passphrase, network) = match read_sending_network(params) {
                Ok(x) => x,
                Err(e) => return Err(e),
            };
            match read_recipient_and_value(params) {
                Ok((to, value)) => sending(
                    params,
                    passphrase,
                    network,
                    Payment::Native { to, value },
                    TRANSFER_GAS,
                ),
                Err(e) => Err(e),
            }
        },
        Method::SendErc20Transaction => {
            let (passphrase, network) = match read_sending_network(params) {
                Ok(x) => x,
                Err(e) => return Err(e),
            };
            let token = match read_address(
                &params.token_address,
                FieldError::MissingToken,
                FieldError::BadToken,
            ) {
                Ok(token) => token,
                Err(e) => return Err(e),
            };
            match read_recipient_and_value(params) {
                Ok((to, value)) => sending(
                    params,
                    passphrase,
                    network,
                    Payment::Token { token, to, value },
                    TOKEN_TRANSFER_GAS,
                ),
                Err(e) => Err(e),
            }
        },
    }
}

/// The base64 texts in which sealed shares go to their holders. Put into the list of shares of
/// a request, a text stands for the share that it was made of, as long as that is not so long
/// that no request takes it.
pub fn encode_shares(shares: &Vec<Vec<u8>>) -> (r: Vec<String>)
    requires
        forall|i: int|
            #![trigger shares@[i]]
            0 <= i < shares@.len() ==> shares@[i]@.len() <= 0x1000_0000,
    ensures
        r@.len() == shares@.len(),
        forall|i: int|
            #![trigger r@[i]]
            0 <= i < r@.len() ==> {
                &&& r@[i]@ == base64_text(shares@[i]@)
                &&& shares@[i]@.len() <= 768 ==> share_element(Some(r@[i]@)) == Ok::<
                    _,
                    FieldError,
                >(shares@[i]@)
            },
{
    let mut out: Vec<String> = Vec::new();
    let mut i: usize = 0;
    while i < shares.len()
        invariant
            i <= shares@.len(),
            out@.len() == i,
            forall|j: int|
                #![trigger shares@[j]]
                0 <= j < shares@.len() ==> shares@[j]@.len() <= 0x1000_0000,
            forall|j: int|
                #![trigger out@[j]]
                0 <= j < out@.len() ==> {
                    &&& out@[j]@ == base64_text(shares@[j]@)
                    &&& shares@[j]@.len() <= 768 ==> share_element(Some(out@[j]@)) == Ok::<
                        _,
                        FieldError,
                    >(shares@[j]@)
                },
        decreases shares.len() - i,
    {
        out.push(base64_encode(shares[i].as_slice()));
        i = i + 1;
    }
    out
}

} // verus!
