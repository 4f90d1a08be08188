//! How jobs are carried out: what is to be done next, given everything that came of what was
//! done so far.
//!
//! `decision` says it as a function of the job and of the events so far, in order. Creating a
//! wallet also draws on chance: the new wallet is an argument of `decision` then.

use vstd::prelude::*;

use crate::erc20::{balance_of_data, transfer_data, uint256_amount};
use crate::evm::{
    address_of, checksummed_text, signed_transaction, EvmBuildError, MAX_FEE_PER_GAS,
};
use crate::evm_codec::TxView;
use crate::job::{JobView, NetworkView, PaymentView, SignersView};
use crate::poll::{standing, Standing};
use crate::request::{Refusal, RefusalView};
use crate::rpc::Endpoint;
use crate::rpc_evm::{
    account_request, broadcast_result, bytes_request, call_request, call_result, fee_result,
    latest_block_request, outcome_view, plain_request, receipt_result, u128_result, u64_result,
    FeeSuggestion, OutcomeView, RequestView, RpcError, RpcErrorView, RpcRequest, RpcResponse,
    TransactionReceipt,
};
use crate::shamir::{views, Share, ShareView};
use crate::storage::StorageError;
use crate::wallet::{
    blobs, creation_error, file_view, imported_key, public_key_loading, share_file_loading,
    stored_shares, NewWallet, WalletError,
};

verus! {

/// What came of an action.
pub enum Event {
    /// Something was written or created, or the system's words on why it was not.
    Written(Result<(), String>),
    /// What a file holds, or the system's words on why it cannot be read.
    File(Result<Vec<u8>, String>),
    /// What asking a node came to.
    Reply(Result<RpcResponse, RpcError>),
    /// The shares that their holders brought.
    Shares(Vec<Share>),
}

/// What is to be done next.
pub enum Action {
    /// Create the wallet's directory, with its parents, if it is not there.
    CreateDir,
    /// Replace the file of share 1, all at once.
    WriteShare(Vec<u8>),
    /// Write the public key file.
    WritePublicKey(Vec<u8>),
    /// Read the public key file.
    ReadPublicKey,
    /// Read the file of share 1.
    ReadShare,
    /// Put a question to a node.
    Ask {
        endpoint: Endpoint,
        request: RpcRequest,
    },
    /// Have the holders bring their shares.
    GatherShares,
    /// Answer. Nothing follows.
    Finish(Result<Response, Refusal>),
}

/// What a job came to.
pub enum Response {
    /// A wallet was created.
    Created {
        /// Its address, checksummed.
        address: String,
        /// The sealed shares for their holders, share 2 first.
        shares: Vec<Vec<u8>>,
    },
    /// The wallet's address, checksummed.
    Address(String),
    /// A balance.
    Balance {
        /// The wallet's address, checksummed.
        address: String,
        /// The amount in the smallest unit.
        amount: u128,
    },
    /// A transaction was broadcast, with its hash.
    Sent([u8; 32]),
    /// A transaction is not mined yet.
    Pending,
    /// A transaction was mined.
    Mined {
        block_number: u64,
        confirmations: u64,
        success: bool,
    },
}

/// What an event says.
#[verifier::ext_equal]
pub ghost enum EventView {
    Written(Result<(), String>),
    File(Result<Seq<u8>, String>),
    Reply(OutcomeView),
    Shares(Seq<ShareView>),
}

/// What an action says.
#[verifier::ext_equal]
pub ghost enum ActionView {
    CreateDir,
    WriteShare(Seq<u8>),
    WritePublicKey(Seq<u8>),
    ReadPublicKey,
    ReadShare,
    Ask(Seq<char>, RequestView),
    GatherShares,
    Finish(Result<ResponseView, RefusalView>),
}

/// What a response says.
#[verifier::ext_equal]
pub ghost enum ResponseView {
    Created(Seq<char>, Seq<Seq<u8>>),
    Address(Seq<char>),
    Balance(Seq<char>, nat),
    Sent(Seq<u8>),
    Pending,
    Mined(nat, nat, bool),
}

impl Event {
    pub open spec fn view(&self) -> EventView {
        match self {
            Event::Written(r) => EventView::Written(*r),
            Event::File(f) => EventView::File(file_view(*f)),
            Event::Reply(r) => EventView::Reply(outcome_view(*r)),
            Event::Shares(s) => EventView::Shares(views(s@)),
        }
    }
}

impl Response {
    pub open spec fn view(&self) -> ResponseView {
        match self {
            Response::Created { address, shares } => ResponseView::Created(
                address@,
                blobs(shares@),
            ),
            Response::Address(a) => ResponseView::Address(a@),
            Response::Balance { address, amount } => ResponseView::Balance(
                address@,
                *amount as nat,
            ),
            Response::Sent(hash) => ResponseView::Sent(hash@),
            Response::Pending => ResponseView::Pending,
            Response::Mined { block_number, confirmations, success } => ResponseView::Mined(
                *block_number as nat,
                *confirmations as nat,
                *success,
            ),
        }
    }
}

/// What the end of a session says.
pub open spec fn result_view(r: Result<Response, Refusal>) -> Result<ResponseView, RefusalView> {
    match r {
        Ok(response) => Ok(response@),
        Err(e) => Err(e@),
    }
}

impl Action {
    pub open spec fn view(&self) -> ActionView {
        match self {
            Action::CreateDir => ActionView::CreateDir,
            Action::WriteShare(blob) => ActionView::WriteShare(blob@),
            Action::WritePublicKey(bytes) => ActionView::WritePublicKey(bytes@),
            Action::ReadPublicKey => ActionView::ReadPublicKey,
            Action::ReadShare => ActionView::ReadShare,
            Action::Ask { endpoint, request } => ActionView::Ask(endpoint.0@, request@),
            Action::GatherShares => ActionView::GatherShares,
            Action::Finish(r) => ActionView::Finish(result_view(*r)),
        }
    }
}

/// The event can come of the action.
pub open spec fn fits(action: ActionView, event: EventView) -> bool {
    match action {
        ActionView::CreateDir => event is Written,
        ActionView::WriteShare(_) => event is Written,
        ActionView::WritePublicKey(_) => event is Written,
        ActionView::ReadPublicKey => event is File,
        ActionView::ReadShare => event is File,
        ActionView::Ask(_, _) => event is Reply,
        ActionView::GatherShares => event is Shares,
        ActionView::Finish(_) => false,
    }
}

/// The checksummed address of a public key.
pub open spec fn address_text(public_key: Seq<u8>) -> Seq<char> {
    checksummed_text(address_of(public_key))
}

pub open spec fn refused(e: RefusalView) -> ActionView {
    ActionView::Finish(Err(e))
}

pub open spec fn answered(r: ResponseView) -> ActionView {
    ActionView::Finish(Ok(r))
}

/// Creating a wallet: the directory, the local share, and last the public key, so that a
/// directory with a public key is complete.
pub open spec fn creation_decision(
    passphrase: Seq<char>,
    threshold: u8,
    n: u8,
    made: Option<NewWallet>,
    t: Seq<EventView>,
) -> ActionView {
    if t.len() == 0 {
        ActionView::CreateDir
    } else {
        match t[0]->Written_0 {
            Err(e) => refused(RefusalView::Wallet(WalletError::Io(e))),
            Ok(_) => match creation_error(passphrase, threshold, n) {
                Some(e) => refused(RefusalView::Wallet(e)),
                None => saving_decision(made->0, t.drop_first()),
            },
        }
    }
}

/// Saving a new wallet.
pub open spec fn saving_decision(w: NewWallet, t: Seq<EventView>) -> ActionView {
    if t.len() == 0 {
        ActionView::WriteShare(w.local_share@)
    } else {
        match t[0]->Written_0 {
            Err(e) => refused(RefusalView::Wallet(WalletError::Storage(StorageError::Io(e)))),
            Ok(_) => publishing_decision(
                w.public_key@,
                ResponseView::Created(address_text(w.public_key@), blobs(w.external_shares@)),
                t.drop_first(),
            ),
        }
    }
}

/// Writing the public key file, and answering.
pub open spec fn publishing_decision(
    key: Seq<u8>,
    response: ResponseView,
    t: Seq<EventView>,
) -> ActionView {
    if t.len() == 0 {
        ActionView::WritePublicKey(key)
    } else {
        match t[0]->Written_0 {
            Err(e) => refused(RefusalView::Wallet(WalletError::Io(e))),
            Ok(_) => answered(response),
        }
    }
}

/// Importing a wallet: only its public key is kept.
pub open spec fn import_decision(
    passphrase: Seq<char>,
    sealed: Seq<Seq<u8>>,
    t: Seq<EventView>,
) -> ActionView {
    if t.len() == 0 {
        ActionView::CreateDir
    } else {
        match t[0]->Written_0 {
            Err(e) => refused(RefusalView::Wallet(WalletError::Io(e))),
            Ok(_) => match imported_key(passphrase, sealed) {
                Err(e) => refused(RefusalView::Wallet(e)),
                Ok(key) => publishing_decision(
                    key,
                    ResponseView::Address(address_text(key)),
                    t.drop_first(),
                ),
            },
        }
    }
}

/// Unlocking a wallet: the passphrase must open the local share.
pub open spec fn unlock_decision(passphrase: Seq<char>, t: Seq<EventView>) -> ActionView {
    if t.len() == 0 {
        ActionView::ReadShare
    } else {
        match share_file_loading(passphrase, t[0]->File_0) {
            Err(e) => refused(RefusalView::Wallet(e)),
            Ok(_) => key_decision(JobView::Address, t.drop_first()),
        }
    }
}

/// Loading the public key, and going on from there.
pub open spec fn key_decision(job: JobView, t: Seq<EventView>) -> ActionView {
    if t.len() == 0 {
        ActionView::ReadPublicKey
    } else {
        match public_key_loading(t[0]->File_0) {
            Err(e) => refused(RefusalView::Wallet(e)),
            Ok(key) => if asks_nodes(job) {
                chain_decision(job, key, t.drop_first())
            } else {
                answered(ResponseView::Address(address_text(key)))
            },
        }
    }
}

/// The job works with nodes of one chain.
pub open spec fn asks_nodes(job: JobView) -> bool {
    job is Balance || job is TokenBalance || job is Send
}

/// The nodes and the chain of a job.
pub open spec fn network_of(job: JobView) -> NetworkView {
    match job {
        JobView::Balance { network } => network,
        JobView::TokenBalance { network, .. } => network,
        JobView::Send { network, .. } => network,
        _ => NetworkView { chain_id: 0, endpoints: Seq::empty() },
    }
}

/// The chains that nodes claim to serve.
pub open spec fn chain_answers(t: Seq<EventView>) -> Seq<Result<nat, RpcErrorView>> {
    Seq::new(t.len(), |i: int| u64_result(t[i]->Reply_0, "eth_chainId"@))
}

/// The balances that nodes claim an account to have.
pub open spec fn balance_answers(t: Seq<EventView>) -> Seq<Result<nat, RpcErrorView>> {
    Seq::new(t.len(), |i: int| u128_result(t[i]->Reply_0, "eth_getBalance"@))
}

/// The results that nodes claim a contract call to have.
pub open spec fn call_answers(t: Seq<EventView>) -> Seq<Result<Seq<u8>, RpcErrorView>> {
    Seq::new(t.len(), |i: int| call_result(t[i]->Reply_0))
}

/// The nonces that nodes claim an account to be at.
pub open spec fn nonce_answers(t: Seq<EventView>) -> Seq<Result<nat, RpcErrorView>> {
    Seq::new(t.len(), |i: int| u64_result(t[i]->Reply_0, "eth_getTransactionCount"@))
}

/// All nodes must serve the chain that was asked for.
pub open spec fn chain_decision(job: JobView, key: Seq<u8>, t: Seq<EventView>) -> ActionView {
    let network = network_of(job);
    match standing(network.endpoints, chain_answers(t)) {
        Standing::Asking(k) => ActionView::Ask(
            network.endpoints[k as int],
            plain_request("eth_chainId"@),
        ),
        Standing::Failed(e) => refused(e),
        Standing::Agreed(chain) => if chain != network.chain_id {
            refused(RefusalView::WrongChain(network.chain_id, chain))
        } else {
            main_decision(job, key, t.skip(network.endpoints.len() as int))
        },
    }
}

/// The job itself, once the chain is confirmed.
pub open spec fn main_decision(job: JobView, key: Seq<u8>, t: Seq<EventView>) -> ActionView {
    match job {
        JobView::Balance { network } => balance_decision(network, key, t),
        JobView::TokenBalance { network, token } => token_decision(network, token, key, t),
        _ => nonce_decision(job, key, t),
    }
}

/// All nodes must give the same balance.
pub open spec fn balance_decision(
    network: NetworkView,
    key: Seq<u8>,
    t: Seq<EventView>,
) -> ActionView {
    match standing(network.endpoints, balance_answers(t)) {
        Standing::Asking(k) => ActionView::Ask(
            network.endpoints[k as int],
            account_request("eth_getBalance"@, address_of(key)),
        ),
        Standing::Failed(e) => refused(e),
        Standing::Agreed(amount) => answered(ResponseView::Balance(address_text(key), amount)),
    }
}

/// All nodes must give the same result of `balanceOf`.
pub open spec fn token_decision(
    network: NetworkView,
    token: Seq<u8>,
    key: Seq<u8>,
    t: Seq<EventView>,
) -> ActionView {
    match standing(network.endpoints, call_answers(t)) {
        Standing::Asking(k) => ActionView::Ask(
            network.endpoints[k as int],
            call_request(token, balance_of_data(address_of(key))),
        ),
        Standing::Failed(e) => refused(e),
        Standing::Agreed(result) => match uint256_amount(result) {
            None => refused(RefusalView::BalanceTooLarge),
            Some(amount) => answered(ResponseView::Balance(address_text(key), amount)),
        },
    }
}

/// All nodes must give the same nonce.
pub open spec fn nonce_decision(job: JobView, key: Seq<u8>, t: Seq<EventView>) -> ActionView {
    let network = network_of(job);
    match standing(network.endpoints, nonce_answers(t)) {
        Standing::Asking(k) => ActionView::Ask(
            network.endpoints[k as int],
            account_request("eth_getTransactionCount"@, address_of(key)),
        ),
        Standing::Failed(e) => refused(e),
        Standing::Agreed(nonce) => fee_decision(
            job,
            key,
            nonce,
            t.skip(network.endpoints.len() as int),
        ),
    }
}

/// The transaction that a payment makes.
pub open spec fn payment_transaction(
    chain_id: nat,
    payment: PaymentView,
    gas_limit: nat,
    nonce: nat,
    fees: FeeSuggestion,
) -> TxView {
    let plain = TxView {
        chain_id,
        nonce,
        max_priority_fee_per_gas: fees.max_priority_fee_per_gas as nat,
        max_fee_per_gas: fees.max_fee_per_gas as nat,
        gas_limit,
        to: Seq::empty(),
        value: 0,
        data: Seq::empty(),
    };
    match payment {
        PaymentView::Native { to, value } => TxView { to, value, ..plain },
        PaymentView::Token { token, to, value } => TxView {
            to: token,
            data: transfer_data(to, value),
            ..plain
        },
    }
}

/// The first node suggests the fees. It is not relied on: a fee above the ceiling is refused.
pub open spec fn fee_decision(
    job: JobView,
    key: Seq<u8>,
    nonce: nat,
    t: Seq<EventView>,
) -> ActionView {
    if t.len() == 0 {
        ActionView::Ask(network_of(job).endpoints[0], latest_block_request())
    } else {
        match fee_result(t[0]->Reply_0) {
            Err(e) => refused(RefusalView::Rpc(e)),
            Ok(fees) => if fees.max_fee_per_gas > MAX_FEE_PER_GAS {
                refused(
                    RefusalView::Build(
                        EvmBuildError::FeeCapExceeded {
                            requested: fees.max_fee_per_gas,
                            ceiling: MAX_FEE_PER_GAS,
                        },
                    ),
                )
            } else {
                shares_decision(
                    job,
                    key,
                    payment_transaction(
                        network_of(job).chain_id,
                        job->payment,
                        job->gas_limit,
                        nonce,
                        fees,
                    ),
                    t.drop_first(),
                )
            },
        }
    }
}

/// The shares are gathered once the transaction is built, and not before.
pub open spec fn shares_decision(
    job: JobView,
    key: Seq<u8>,
    tx: TxView,
    t: Seq<EventView>,
) -> ActionView {
    match job->signers {
        SignersView::Stored { passphrase, sealed } => if t.len() == 0 {
            ActionView::ReadShare
        } else {
            match stored_shares(passphrase, t[0]->File_0, sealed) {
                Err(e) => refused(RefusalView::Wallet(e)),
                Ok(shares) => signing_decision(job, key, tx, shares, t.drop_first()),
            }
        },
        SignersView::Holders => if t.len() == 0 {
            ActionView::GatherShares
        } else {
            signing_decision(job, key, tx, t[0]->Shares_0, t.drop_first())
        },
    }
}

/// The transaction is signed and goes out through the first node.
pub open spec fn signing_decision(
    job: JobView,
    key: Seq<u8>,
    tx: TxView,
    shares: Seq<ShareView>,
    t: Seq<EventView>,
) -> ActionView {
    match signed_transaction(tx, shares, key) {
        Err(e) => refused(RefusalView::Signing(e)),
        Ok(raw) => broadcast_decision(job, raw, t),
    }
}

pub open spec fn broadcast_decision(job: JobView, raw: Seq<u8>, t: Seq<EventView>) -> ActionView {
    if t.len() == 0 {
        ActionView::Ask(
            network_of(job).endpoints[0],
            bytes_request("eth_sendRawTransaction"@, raw),
        )
    } else {
        match broadcast_result(t[0]->Reply_0) {
            Err(e) => refused(RefusalView::Rpc(e)),
            Ok(hash) => answered(ResponseView::Sent(hash)),
        }
    }
}

/// Looking after a transaction: its receipt, and the height of the chain if it was mined.
pub open spec fn status_decision(
    endpoint: Seq<char>,
    tx_hash: Seq<u8>,
    t: Seq<EventView>,
) -> ActionView {
    if t.len() == 0 {
        ActionView::Ask(endpoint, bytes_request("eth_getTransactionReceipt"@, tx_hash))
    } else {
        match receipt_result(t[0]->Reply_0) {
            Err(e) => refused(RefusalView::Rpc(e)),
            Ok(None) => answered(ResponseView::Pending),
            Ok(Some(receipt)) => height_decision(endpoint, receipt, t.drop_first()),
        }
    }
}

pub open spec fn height_decision(
    endpoint: Seq<char>,
    receipt: TransactionReceipt,
    t: Seq<EventView>,
) -> ActionView {
    if t.len() == 0 {
        ActionView::Ask(endpoint, plain_request("eth_blockNumber"@))
    } else {
        match u64_result(t[0]->Reply_0, "eth_blockNumber"@) {
            Err(e) => refused(RefusalView::Rpc(e)),
            Ok(height) => answered(
                ResponseView::Mined(
                    receipt.block_number as nat,
                    confirmation_count(receipt.block_number as nat, height),
                    receipt.success,
                ),
            ),
        }
    }
}

/// How many blocks confirm a block at a given height, itself included. A node that lags
/// behind counts it as one, and the count stays within 64 bits.
pub open spec fn confirmation_count(block_number: nat, height: nat) -> nat {
    if height < block_number {
        1
    } else if height - block_number + 1 > u64::MAX {
        u64::MAX as nat
    } else {
        (height - block_number + 1) as nat
    }
}

/// What is to be done next on a job, after everything that has come back so far. `made` is
/// the wallet that was created, for a job that creates one.
#[verifier::opaque]
pub open spec fn decision(
    job: JobView,
    made: Option<NewWallet>,
    t: Seq<EventView>,
) -> ActionView {
    match job {
        JobView::Create { passphrase, threshold, n } => creation_decision(
            passphrase,
            threshold,
            n,
            made,
            t,
        ),
        JobView::Import { passphrase, sealed } => import_decision(passphrase, sealed, t),
        JobView::Unlock { passphrase } => unlock_decision(passphrase, t),
        JobView::Status { endpoint, tx_hash } => status_decision(endpoint, tx_hash, t),
        _ => key_decision(job, t),
    }
}

/// A response says what stands in it, field by field.
pub proof fn law_responses_say_their_fields(
    address: String,
    shares: Vec<Vec<u8>>,
    amount: u128,
    hash: [u8; 32],
    block_number: u64,
    confirmations: u64,
    success: bool,
    i: int,
)
    ensures
        (Response::Created { address, shares })@ is Created,
        (Response::Created { address, shares })@->Created_0 == address@,
        (Response::Created { address, shares })@->Created_1.len() == shares@.len(),
        0 <= i < shares@.len() ==> (Response::Created { address, shares })@->Created_1[i]
            == shares@[i]@,
        Response::Address(address)@ == ResponseView::Address(address@),
        (Response::Balance { address, amount })@ == ResponseView::Balance(address@, amount as nat),
        Response::Sent(hash)@ == ResponseView::Sent(hash@),
        Response::Pending@ == ResponseView::Pending,
        (Response::Mined { block_number, confirmations, success })@ == ResponseView::Mined(
            block_number as nat,
            confirmations as nat,
            success,
        ),
{
}

/// What a job does is what it says: an action puts exactly its bytes into the file, or its
/// question to its node.
pub proof fn law_actions_say_their_contents(
    blob: Vec<u8>,
    endpoint: Endpoint,
    request: RpcRequest,
    response: Response,
    refusal: Refusal,
)
    ensures
        Action::WriteShare(blob)@ == ActionView::WriteShare(blob@),
        Action::WritePublicKey(blob)@ == ActionView::WritePublicKey(blob@),
        (Action::Ask { endpoint, request })@ == ActionView::Ask(endpoint.0@, request@),
        Action::Finish(Ok(response))@ == ActionView::Finish(Ok(response@)),
        Action::Finish(Err(refusal))@ == ActionView::Finish(Err(refusal@)),
{
}

} // verus!
