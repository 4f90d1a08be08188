//! Carrying out of jobs, one step at a time.
//!
//! A session says what is to be done next: read or write a file, put a question to a node,
//! gather shares from their holders, or answer. The caller does it and comes back with what
//! came of it.

use vstd::prelude::*;

use crate::erc20::{construct_balance_of_data, construct_transfer_data, decode_uint256_result};
use crate::evm::{
    address_from_public_key, build_unsigned_contract_call, build_unsigned_transfer,
    carries_valid_signature, sign_evm_transfer, signed_transaction, to_checksummed_hex,
    EvmBuildError, EvmCeremonyError, MAX_FEE_PER_GAS,
};
use crate::evm_codec::{TxView, UnsignedEip1559Tx};
use crate::flow::{
    address_text, asks_nodes, balance_answers, balance_decision, broadcast_decision, call_answers,
    chain_answers, chain_decision, decision, fee_decision, fits, height_decision, import_decision,
    key_decision, main_decision, network_of, nonce_answers, nonce_decision, payment_transaction,
    publishing_decision, result_view, saving_decision, shares_decision, signing_decision,
    status_decision, token_decision, unlock_decision, Action, ActionView, Event, EventView,
    Response,
};
use crate::flow_laws::{
    broadcasts, chain_confirmed, cleared_for_broadcast, is_signed_payment,
    law_nothing_is_broadcast_unconfirmed, lemma_broadcasts_one, nonce_confirmed, signing_shares,
};
use crate::job::{feasible, Job, JobView, Network, Payment, Signers};
use crate::keys::PublicKey;
use crate::poll::{
    answer_view, law_agreement_is_unanimous, lemma_agreement_extends, lemma_poll_asks, standing,
    take_answer, Poll, PollStep, Standing,
};
use crate::request::{Refusal, RefusalView};
use crate::rpc::Endpoint;
use crate::rpc_evm::{
    fee_result, outcome_view, u64_result, FeeSuggestion, JsonRpcClient, RpcError, RpcErrorView,
    RpcResponse, TransactionReceipt,
};
use crate::shamir::{views, Share, ShareView};
use crate::storage::StorageError;
use crate::wallet::{
    create_wallet, creation_error, file_view, gather_stored_shares, import_wallet, is_wallet,
    load_public_key, load_share, public_key_loading, NewWallet, WalletError,
};

verus! {

/// Where a session is.
enum Stage {
    CreatingDir,
    SavingShare(NewWallet),
    /// Writing the public key, with the response to be given then.
    Publishing(PublicKey, Response),
    ImportingDir,
    Unlocking,
    LoadingKey,
    CheckingChain(PublicKey, Poll<u64>),
    CheckingBalance(PublicKey, Poll<u128>),
    CheckingToken(PublicKey, Poll<Vec<u8>>),
    CheckingNonce(PublicKey, Poll<u64>),
    AskingFees(PublicKey, u64),
    GatheringShares(PublicKey, UnsignedEip1559Tx),
    Broadcasting(Vec<u8>),
    AskingReceipt,
    AskingHeight(TransactionReceipt),
    Finished,
}

/// What is to be done next at a stage, after the events since the stage was entered.
spec fn stage_decision(job: JobView, stage: Stage, t: Seq<EventView>) -> ActionView {
    match stage {
        Stage::CreatingDir => ActionView::CreateDir,
        Stage::SavingShare(w) => saving_decision(w, t),
        Stage::Publishing(key, response) => publishing_decision(key@, response@, t),
        Stage::ImportingDir => match job {
            JobView::Import { passphrase, sealed } => import_decision(passphrase, sealed, t),
            _ => ActionView::CreateDir,
        },
        Stage::Unlocking => match job {
            JobView::Unlock { passphrase } => unlock_decision(passphrase, t),
            _ => ActionView::ReadShare,
        },
        Stage::LoadingKey => key_decision(job, t),
        Stage::CheckingChain(key, _) => chain_decision(job, key@, t),
        Stage::CheckingBalance(key, _) => balance_decision(network_of(job), key@, t),
        Stage::CheckingToken(key, _) => token_decision(
            network_of(job),
            job->TokenBalance_token,
            key@,
            t,
        ),
        Stage::CheckingNonce(key, _) => nonce_decision(job, key@, t),
        Stage::AskingFees(key, nonce) => fee_decision(job, key@, nonce as nat, t),
        Stage::GatheringShares(key, tx) => shares_decision(job, key@, tx@, t),
        Stage::Broadcasting(raw) => broadcast_decision(job, raw@, t),
        Stage::AskingReceipt => match job {
            JobView::Status { endpoint, tx_hash } => status_decision(endpoint, tx_hash, t),
            _ => ActionView::ReadShare,
        },
        Stage::AskingHeight(receipt) => match job {
            JobView::Status { endpoint, .. } => height_decision(endpoint, receipt, t),
            _ => ActionView::ReadShare,
        },
        Stage::Finished => ActionView::ReadShare,
    }
}

/// The stage belongs to the job, and has seen these events.
spec fn stage_holds(
    job: JobView,
    made: Option<NewWallet>,
    stage: Stage,
    seen: Seq<EventView>,
) -> bool {
    match stage {
        Stage::CreatingDir => job is Create && made is None && seen.len() == 0,
        Stage::SavingShare(w) => job is Create && made == Some(w) && seen.len() == 0,
        Stage::Publishing(_, _) => {
            &&& job is Create && made is Some || job is Import
            &&& seen.len() == 0
        },
        Stage::ImportingDir => job is Import && seen.len() == 0,
        Stage::Unlocking => job is Unlock && seen.len() == 0,
        Stage::LoadingKey => job !is Create && seen.len() == 0,
        Stage::CheckingChain(_, poll) => asks_nodes(job) && poll.has_had(
            network_of(job).endpoints,
            chain_answers(seen),
        ),
        Stage::CheckingBalance(_, poll) => job is Balance && poll.has_had(
            network_of(job).endpoints,
            balance_answers(seen),
        ),
        Stage::CheckingToken(_, poll) => job is TokenBalance && poll.has_had(
            network_of(job).endpoints,
            call_answers(seen),
        ),
        Stage::CheckingNonce(_, poll) => job is Send && poll.has_had(
            network_of(job).endpoints,
            nonce_answers(seen),
        ),
        Stage::AskingFees(_, _) => job is Send && seen.len() == 0,
        Stage::GatheringShares(_, tx) => job is Send && tx.data@.len() <= 68 && seen.len() == 0,
        Stage::Broadcasting(_) => job is Send && seen.len() == 0,
        Stage::AskingReceipt => job is Status && seen.len() == 0,
        Stage::AskingHeight(_) => job is Status && seen.len() == 0,
        Stage::Finished => false,
    }
}

/// What the events before a stage have confirmed.
spec fn stage_facts(job: JobView, stage: Stage, entry: Seq<EventView>) -> bool {
    let m = network_of(job).endpoints.len() as int;
    match stage {
        Stage::LoadingKey => asks_nodes(job) ==> entry.len() == 0,
        Stage::CheckingChain(key, _) => keyed(entry, key@) && entry.len() == 1,
        Stage::CheckingNonce(key, _) => {
            &&& keyed(entry, key@)
            &&& entry.len() == 1 + m
            &&& chain_confirmed(job, entry.skip(1))
        },
        Stage::AskingFees(key, nonce) => {
            &&& keyed(entry, key@)
            &&& entry.len() == 1 + 2 * m
            &&& chain_confirmed(job, entry.skip(1))
            &&& nonce_confirmed(job, entry.skip(1 + m), nonce as nat)
        },
        Stage::GatheringShares(key, tx) => payment_confirmed(job, entry, key@, tx@),
        Stage::Broadcasting(_) => entry.len() == 3 + 2 * m,
        _ => true,
    }
}

/// The first event is the public key file with this key.
spec fn keyed(t: Seq<EventView>, key: Seq<u8>) -> bool {
    t.len() > 0 && public_key_loading(t[0]->File_0) == Ok::<_, WalletError>(key)
}

/// The transaction is the payment of the job, as all nodes have confirmed it.
spec fn payment_confirmed(job: JobView, t: Seq<EventView>, key: Seq<u8>, tx: TxView) -> bool {
    let m = network_of(job).endpoints.len() as int;
    &&& keyed(t, key)
    &&& t.len() == 2 + 2 * m
    &&& chain_confirmed(job, t.skip(1))
    &&& exists|nonce: nat, fees: FeeSuggestion|
        {
            &&& nonce_confirmed(job, t.skip(1 + m), nonce)
            &&& fee_result(t[1 + 2 * m]->Reply_0) == Ok::<_, RpcErrorView>(fees)
            &&& fees.max_fee_per_gas <= MAX_FEE_PER_GAS
            &&& tx == #[trigger] payment_transaction(
                network_of(job).chain_id,
                job->payment,
                job->gas_limit,
                nonce,
                fees,
            )
        }
}

/// From the given events on, what is to be done next is what the stage says.
#[verifier::opaque]
spec fn continues(
    job: JobView,
    made: Option<NewWallet>,
    entry: Seq<EventView>,
    stage: Stage,
) -> bool {
    forall|v: Seq<EventView>|
        #![trigger decision(job, made, entry + v)]
        decision(job, made, entry + v) == stage_decision(job, stage, v)
}

proof fn lemma_continues(
    job: JobView,
    made: Option<NewWallet>,
    entry: Seq<EventView>,
    stage: Stage,
    v: Seq<EventView>,
)
    requires
        continues(job, made, entry, stage),
    ensures
        decision(job, made, entry + v) == stage_decision(job, stage, v),
{
    reveal(continues);
}

/// How a poll stands makes no difference to what a stage says.
proof fn lemma_same_stage(
    job: JobView,
    made: Option<NewWallet>,
    entry: Seq<EventView>,
    before: Stage,
    after: Stage,
)
    requires
        continues(job, made, entry, before),
        forall|v: Seq<EventView>| #[trigger]
            stage_decision(job, before, v) == stage_decision(job, after, v),
    ensures
        continues(job, made, entry, after),
{
    reveal(continues);
}

/// The wallet that was created, if any, is one of the job's, and it is there as soon as it is
/// needed.
pub open spec fn made_for(job: JobView, made: Option<NewWallet>, t: Seq<EventView>) -> bool {
    match job {
        JobView::Create { passphrase, threshold, n } => {
            &&& made matches Some(w) ==> is_wallet(w, passphrase, threshold, n)
            &&& t.len() > 0 && t[0]->Written_0 is Ok && creation_error(
                passphrase,
                threshold,
                n,
            ) is None ==> made is Some
        },
        _ => made is None,
    }
}

/// A job that is being carried out.
pub struct Session {
    job: Job,
    stage: Stage,
    made: Ghost<Option<NewWallet>>,
    /// The events before the stage was entered.
    entry: Ghost<Seq<EventView>>,
    /// The events since then.
    seen: Ghost<Seq<EventView>>,
}

impl Session {
    #[verifier::type_invariant]
    spec fn inv(&self) -> bool {
        &&& feasible(self.job@)
        &&& made_for(self.job@, self.made@, self.entry@ + self.seen@)
        &&& match self.stage {
            Stage::Finished => decision(
                self.job@,
                self.made@,
                self.entry@ + self.seen@,
            ) is Finish,
            _ => {
                &&& stage_holds(self.job@, self.made@, self.stage, self.seen@)
                &&& stage_facts(self.job@, self.stage, self.entry@)
                &&& self.stage is CreatingDir ==> self.entry@.len() == 0
                &&& self.stage !is CreatingDir ==> continues(
                    self.job@,
                    self.made@,
                    self.entry@,
                    self.stage,
                )
            },
        }
    }

    /// The job.
    pub closed spec fn job(&self) -> JobView {
        self.job@
    }

    /// The events so far.
    pub closed spec fn transcript(&self) -> Seq<EventView> {
        self.entry@ + self.seen@
    }

    /// The wallet that was created, for a job that creates one.
    pub closed spec fn made(&self) -> Option<NewWallet> {
        self.made@
    }

    /// What the session waits for.
    pub open spec fn awaited(&self) -> ActionView {
        decision(self.job(), self.made(), self.transcript())
    }

    /// A session that has come to an end.
    fn finished(
        job: Job,
        Ghost(made): Ghost<Option<NewWallet>>,
        Ghost(t): Ghost<Seq<EventView>>,
        result: Result<Response, Refusal>,
    ) -> (r: (Session, Action))
        requires
            feasible(job@),
            made_for(job@, made, t),
            decision(job@, made, t) == ActionView::Finish(result_view(result)),
        ensures
            r.0.job() == job@,
            r.0.made() == made,
            r.0.transcript() == t,
            r.1@ == r.0.awaited(),
    {
        assert(t + Seq::<EventView>::empty() =~= t);
        let session = Session {
            job,
            stage: Stage::Finished,
            made: Ghost(made),
            entry: Ghost(t),
            seen: Ghost(Seq::empty()),
        };
        (session, Action::Finish(result))
    }

    /// A session that enters a stage.
    fn entering(
        job: Job,
        Ghost(made): Ghost<Option<NewWallet>>,
        Ghost(t): Ghost<Seq<EventView>>,
        stage: Stage,
        action: Action,
    ) -> (r: (Session, Action))
        requires
            feasible(job@),
            made_for(job@, made, t),
            stage !is CreatingDir,
            stage_holds(job@, made, stage, Seq::empty()),
            stage_facts(job@, stage, t),
            action@ == stage_decision(job@, stage, Seq::empty()),
            forall|v: Seq<EventView>|
                #![trigger decision(job@, made, t + v)]
                decision(job@, made, t + v) == stage_decision(job@, stage, v),
        ensures
            r.0.job() == job@,
            r.0.made() == made,
            r.0.transcript() == t,
            r.1@ == r.0.awaited(),
            r.1 == action,
    {
        proof {
            assert(t + Seq::<EventView>::empty() =~= t);
            assert(decision(job@, made, t + Seq::<EventView>::empty()) == action@);
            reveal(continues);
        }
        let session = Session {
            job,
            stage,
            made: Ghost(made),
            entry: Ghost(t),
            seen: Ghost(Seq::empty()),
        };
        (session, action)
    }
}

/// One more event moves the beginning of a stage into the past.
proof fn lemma_one_more(
    job: JobView,
    made: Option<NewWallet>,
    stage: Stage,
    entry: Seq<EventView>,
    e: EventView,
)
    requires
        continues(job, made, entry, stage),
    ensures
        forall|v: Seq<EventView>|
            #![trigger decision(job, made, entry.push(e) + v)]
            {
                &&& decision(job, made, entry.push(e) + v) == stage_decision(
                    job,
                    stage,
                    seq![e] + v,
                )
                &&& (seq![e] + v).len() > 0
                &&& (seq![e] + v)[0] == e
                &&& (seq![e] + v).drop_first() == v
            },
{
    assert forall|v: Seq<EventView>| #![trigger decision(job, made, entry.push(e) + v)]
        {
            &&& decision(job, made, entry.push(e) + v) == stage_decision(job, stage, seq![e] + v)
            &&& (seq![e] + v).len() > 0
            &&& (seq![e] + v)[0] == e
            &&& (seq![e] + v).drop_first() == v
        } by {
        lemma_later(job, made, stage, entry, seq![e], v);
        assert(entry.push(e) =~= entry + seq![e]);
        assert((seq![e] + v).drop_first() =~= v);
    }
}

/// The events of a stage move its beginning into the past.
proof fn lemma_later(
    job: JobView,
    made: Option<NewWallet>,
    stage: Stage,
    entry: Seq<EventView>,
    seen: Seq<EventView>,
    v: Seq<EventView>,
)
    requires
        continues(job, made, entry, stage),
    ensures
        decision(job, made, (entry + seen) + v) == stage_decision(job, stage, seen + v),
        (seen + v).skip(seen.len() as int) == v,
{
    assert((entry + seen) + v =~= entry + (seen + v));
    lemma_continues(job, made, entry, stage, seen + v);
    assert((seen + v).skip(seen.len() as int) =~= v);
}

/// Further events do not change what was confirmed.
proof fn lemma_chain_stays_confirmed(job: JobView, replies: Seq<EventView>, more: Seq<EventView>)
    requires
        chain_confirmed(job, replies),
    ensures
        chain_confirmed(job, replies + more),
{
    let all = replies + more;
    assert forall|i: int| #![trigger all[i]] 0 <= i < network_of(job).endpoints.len() implies all[i]
        == replies[i] by {}
}

fn network_in(job: &Job) -> (r: &Network)
    requires
        asks_nodes(job@),
    ensures
        r@ == network_of(job@),
{
    match job {
        Job::Balance { network } => network,
        Job::TokenBalance { network, .. } => network,
        Job::Send { network, .. } => network,
        _ => vstd::pervasive::unreached(),
    }
}

fn endpoint_in(job: &Job, k: usize) -> (r: Endpoint)
    requires
        asks_nodes(job@),
        k < network_of(job@).endpoints.len(),
    ensures
        r.0@ == network_of(job@).endpoints[k as int],
{
    network_in(job).endpoints[k].clone()
}

fn client_in(job: &Job, k: usize) -> (r: JsonRpcClient)
    requires
        asks_nodes(job@),
        k < network_of(job@).endpoints.len(),
    ensures
        r@.0@ == network_of(job@).endpoints[k as int],
{
    JsonRpcClient::new(endpoint_in(job, k))
}

fn first_poll<T>() -> (r: Poll<T>)
    ensures
        r.first is None,
        r.asked == 0,
{
    Poll { first: None, asked: 0 }
}

/// Goes on with checking the chain.
fn go_chain(
    job: Job,
    Ghost(made): Ghost<Option<NewWallet>>,
    Ghost(t): Ghost<Seq<EventView>>,
    key: PublicKey,
) -> (r: (Session, Action))
    requires
        feasible(job@),
        asks_nodes(job@),
        keyed(t, key@),
        t.len() == 1,
        made_for(job@, made, t),
        forall|v: Seq<EventView>|
            #![trigger decision(job@, made, t + v)]
            decision(job@, made, t + v) == chain_decision(job@, key@, v),
    ensures
        r.0.job() == job@,
        r.0.made() == made,
        r.0.transcript() == t,
        r.1@ == r.0.awaited(),
{
    let endpoint = endpoint_in(&job, 0);
    let request = client_in(&job, 0).chain_id_request();
    Session::entering(
        job,
        Ghost(made),
        Ghost(t),
        Stage::CheckingChain(key, first_poll()),
        Action::Ask { endpoint, request },
    )
}

/// Goes on with the job itself.
fn go_main(
    job: Job,
    Ghost(made): Ghost<Option<NewWallet>>,
    Ghost(t): Ghost<Seq<EventView>>,
    key: PublicKey,
) -> (r: (Session, Action))
    requires
        feasible(job@),
        asks_nodes(job@),
        keyed(t, key@),
        t.len() == 1 + network_of(job@).endpoints.len(),
        chain_confirmed(job@, t.skip(1)),
        made_for(job@, made, t),
        forall|v: Seq<EventView>|
            #![trigger decision(job@, made, t + v)]
            decision(job@, made, t + v) == main_decision(job@, key@, v),
    ensures
        r.0.job() == job@,
        r.0.made() == made,
        r.0.transcript() == t,
        r.1@ == r.0.awaited(),
{
    let endpoint = endpoint_in(&job, 0);
    let client = client_in(&job, 0);
    let address = address_from_public_key(&key);
    match &job {
        Job::Balance { .. } => {
            let request = client.balance_request(&address);
            Session::entering(
                job,
                Ghost(made),
                Ghost(t),
                Stage::CheckingBalance(key, first_poll()),
                Action::Ask { endpoint, request },
            )
        },
        Job::TokenBalance { token, .. } => {
            let data = construct_balance_of_data(&address);
            let request = client.call_contract_request(token, data.as_slice());
            Session::entering(
                job,
                Ghost(made),
                Ghost(t),
                Stage::CheckingToken(key, first_poll()),
                Action::Ask { endpoint, request },
            )
        },
        _ => {
            let request = client.transaction_count_request(&address);
            Session::entering(
                job,
                Ghost(made),
                Ghost(t),
                Stage::CheckingNonce(key, first_poll()),
                Action::Ask { endpoint, request },
            )
        },
    }
}

/// Goes on with asking for the fees.
fn go_fees(
    job: Job,
    Ghost(made): Ghost<Option<NewWallet>>,
    Ghost(t): Ghost<Seq<EventView>>,
    key: PublicKey,
    nonce: u64,
) -> (r: (Session, Action))
    requires
        feasible(job@),
        job@ is Send,
        stage_facts(job@, Stage::AskingFees(key, nonce), t),
        made_for(job@, made, t),
        forall|v: Seq<EventView>|
            #![trigger decision(job@, made, t + v)]
            decision(job@, made, t + v) == fee_decision(job@, key@, nonce as nat, v),
    ensures
        r.0.job() == job@,
        r.0.made() == made,
        r.0.transcript() == t,
        r.1@ == r.0.awaited(),
{
    let endpoint = endpoint_in(&job, 0);
    let request = client_in(&job, 0).fee_suggestion_request();
    Session::entering(
        job,
        Ghost(made),
        Ghost(t),
        Stage::AskingFees(key, nonce),
        Action::Ask { endpoint, request },
    )
}

/// Goes on with gathering the shares.
fn go_shares(
    job: Job,
    Ghost(made): Ghost<Option<NewWallet>>,
    Ghost(t): Ghost<Seq<EventView>>,
    key: PublicKey,
    tx: UnsignedEip1559Tx,
) -> (r: (Session, Action))
    requires
        feasible(job@),
        job@ is Send,
        tx.data@.len() <= 68,
        payment_confirmed(job@, t, key@, tx@),
        made_for(job@, made, t),
        forall|v: Seq<EventView>|
            #![trigger decision(job@, made, t + v)]
            decision(job@, made, t + v) == shares_decision(job@, key@, tx@, v),
    ensures
        r.0.job() == job@,
        r.0.made() == made,
        r.0.transcript() == t,
        r.1@ == r.0.awaited(),
{
    let action = match &job {
        Job::Send { signers: Signers::Stored { .. }, .. } => Action::ReadShare,
        _ => Action::GatherShares,
    };
    Session::entering(job, Ghost(made), Ghost(t), Stage::GatheringShares(key, tx), action)
}

/// Goes on with signing, and broadcasting what was signed.
fn go_signing(
    job: Job,
    Ghost(made): Ghost<Option<NewWallet>>,
    Ghost(t): Ghost<Seq<EventView>>,
    key: PublicKey,
    tx: UnsignedEip1559Tx,
    shares: Vec<Share>,
) -> (r: (Session, Action))
    requires
        feasible(job@),
        job@ is Send,
        tx.data@.len() <= 68,
        t.len() == 3 + 2 * network_of(job@).endpoints.len(),
        made_for(job@, made, t),
        forall|v: Seq<EventView>|
            #![trigger decision(job@, made, t + v)]
            decision(job@, made, t + v) == signing_decision(
                job@,
                key@,
                tx@,
                views(shares@),
                v,
            ),
    ensures
        r.0.job() == job@,
        r.0.made() == made,
        r.0.transcript() == t,
        r.1@ == r.0.awaited(),
        r.1@ is Ask ==> exists|raw: Seq<u8>|
            {
                &&& #[trigger] broadcasts(r.1@, raw)
                &&& signed_transaction(tx@, views(shares@), key@) == Ok::<_, EvmCeremonyError>(raw)
                &&& carries_valid_signature(raw, tx@, key@)
            },
{
    let raw = match sign_evm_transfer(tx, shares.as_slice(), &key) {
        Ok(raw) => raw,
        Err(e) => {
            assert(t + Seq::<EventView>::empty() =~= t);
            return Session::finished(job, Ghost(made), Ghost(t), Err(Refusal::Signing(e)));
        },
    };
    let endpoint = endpoint_in(&job, 0);
    let request = client_in(&job, 0).send_raw_transaction_request(raw.as_slice());
    assert(broadcasts(ActionView::Ask(endpoint.0@, request@), raw@));
    Session::entering(
        job,
        Ghost(made),
        Ghost(t),
        Stage::Broadcasting(raw),
        Action::Ask { endpoint, request },
    )
}

/// Goes on with writing the public key.
fn go_publishing(
    job: Job,
    Ghost(made): Ghost<Option<NewWallet>>,
    Ghost(t): Ghost<Seq<EventView>>,
    key: PublicKey,
    response: Response,
) -> (r: (Session, Action))
    requires
        feasible(job@),
        job@ is Create && made is Some || job@ is Import,
        made_for(job@, made, t),
        forall|v: Seq<EventView>|
            #![trigger decision(job@, made, t + v)]
            decision(job@, made, t + v) == publishing_decision(key@, response@, v),
    ensures
        r.0.job() == job@,
        r.0.made() == made,
        r.0.transcript() == t,
        r.1@ == r.0.awaited(),
{
    let bytes = key.to_sec1_bytes();
    Session::entering(
        job,
        Ghost(made),
        Ghost(t),
        Stage::Publishing(key, response),
        Action::WritePublicKey(bytes),
    )
}

/// The transaction of a job that sends, or why it cannot be built.
fn build(job: &Job, nonce: u64, fees: FeeSuggestion) -> (r: Result<UnsignedEip1559Tx, Refusal>)
    requires
        job@ is Send,
    ensures
        match r {
            Ok(tx) => {
                &&& fees.max_fee_per_gas <= MAX_FEE_PER_GAS
                &&& tx.data@.len() <= 68
                &&& tx@ == payment_transaction(
                    network_of(job@).chain_id,
                    job@->payment,
                    job@->gas_limit,
                    nonce as nat,
                    fees,
                )
            },
            Err(e) => {
                &&& fees.max_fee_per_gas > MAX_FEE_PER_GAS
                &&& e@ == RefusalView::Build(
                    EvmBuildError::FeeCapExceeded {
                        requested: fees.max_fee_per_gas,
                        ceiling: MAX_FEE_PER_GAS,
                    },
                )
            },
        },
{
    let (network, payment, gas_limit) = match job {
        Job::Send { network, payment, gas_limit, .. } => (network, payment, *gas_limit),
        _ => vstd::pervasive::unreached(),
    };
    let built = match payment {
        Payment::Native { to, value } => build_unsigned_transfer(
            network.chain_id,
            *to,
            *value,
            nonce,
            fees.max_fee_per_gas,
            fees.max_priority_fee_per_gas,
            gas_limit,
        ),
        Payment::Token { token, to, value } => {
            let data = construct_transfer_data(to, *value);
            build_unsigned_contract_call(
                network.chain_id,
                *token,
                0,
                data,
                nonce,
                fees.max_fee_per_gas,
                fees.max_priority_fee_per_gas,
                gas_limit,
            )
        },
    };
    match built {
        Ok(tx) => Ok(tx),
        Err(e) => Err(Refusal::Build(e)),
    }
}

impl Event {
    fn into_written(self) -> (r: Result<(), String>)
        requires
            self@ is Written,
        ensures
            self@ == EventView::Written(r),
    {
        match self {
            Event::Written(r) => r,
            _ => vstd::pervasive::unreached(),
        }
    }

    fn into_file(self) -> (r: Result<Vec<u8>, String>)
        requires
            self@ is File,
        ensures
            self@ == EventView::File(file_view(r)),
    {
        match self {
            Event::File(r) => r,
            _ => vstd::pervasive::unreached(),
        }
    }

    fn into_reply(self) -> (r: Result<RpcResponse, RpcError>)
        requires
            self@ is Reply,
        ensures
            self@ == EventView::Reply(outcome_view(r)),
    {
        match self {
            Event::Reply(r) => r,
            _ => vstd::pervasive::unreached(),
        }
    }

    fn into_shares(self) -> (r: Vec<Share>)
        requires
            self@ is Shares,
        ensures
            self@ == EventView::Shares(views(r@)),
    {
        match self {
            Event::Shares(r) => r,
            _ => vstd::pervasive::unreached(),
        }
    }
}

/// Takes a node's answer about the chain into account.
#[verifier::rlimit(40)]
fn on_chain_reply(
    job: Job,
    Ghost(made): Ghost<Option<NewWallet>>,
    Ghost(entry): Ghost<Seq<EventView>>,
    Ghost(seen): Ghost<Seq<EventView>>,
    key: PublicKey,
    poll: Poll<u64>,
    event: Event,
) -> (r: (Session, Action))
    requires
        feasible(job@),
        asks_nodes(job@),
        made_for(job@, made, entry + seen.push(event@)),
        fits(stage_decision(job@, Stage::CheckingChain(key, poll), seen), event@),
        poll.has_had(network_of(job@).endpoints, chain_answers(seen)),
        continues(job@, made, entry, Stage::CheckingChain(key, poll)),
        stage_facts(job@, Stage::CheckingChain(key, poll), entry),
    ensures
        r.0.job() == job@,
        r.0.made() == made,
        r.0.transcript() == entry + seen.push(event@),
        r.1@ == r.0.awaited(),
{
    let ghost now = seen.push(event@);
    let ghost endpoints = network_of(job@).endpoints;
    proof {
        lemma_poll_asks(poll, endpoints, chain_answers(seen));
    }
    let answer = match client_in(&job, poll.asked).chain_id(event.into_reply()) {
        Ok(u) => Ok(u.trust()),
        Err(e) => Err(e),
    };
    assert(chain_answers(now) =~= chain_answers(seen).push(answer_view(answer)));
    proof {
        lemma_continues(job@, made, entry, Stage::CheckingChain(key, poll), now);
    }
    match take_answer(poll, &network_in(&job).endpoints, answer, Ghost(chain_answers(seen))) {
        PollStep::Failed(e) => Session::finished(job, Ghost(made), Ghost(entry + now), Err(e)),
        PollStep::Next(next) => {
            proof {
                lemma_poll_asks(next, endpoints, chain_answers(now));
                lemma_same_stage(
                    job@,
                    made,
                    entry,
                    Stage::CheckingChain(key, poll),
                    Stage::CheckingChain(key, next),
                );
            }
            let endpoint = endpoint_in(&job, next.asked);
            let request = client_in(&job, next.asked).chain_id_request();
            let session = Session {
                job,
                stage: Stage::CheckingChain(key, next),
                made: Ghost(made),
                entry: Ghost(entry),
                seen: Ghost(now),
            };
            (session, Action::Ask { endpoint, request })
        },
        PollStep::Agreed(value) => {
            let requested: u64 = network_in(&job).chain_id;
            if value != requested {
                return Session::finished(
                    job,
                    Ghost(made),
                    Ghost(entry + now),
                    Err(Refusal::WrongChain { requested, reported: value }),
                );
            }
            proof {
                assert forall|v: Seq<EventView>|
                    #![trigger decision(job@, made, (entry + now) + v)]
                    decision(job@, made, (entry + now) + v) == main_decision(job@, key@, v) by {
                    lemma_later(job@, made, Stage::CheckingChain(key, poll), entry, now, v);
                    lemma_agreement_extends(
                        endpoints,
                        chain_answers(now),
                        chain_answers(now + v),
                        value as nat,
                    );
                }
            }
            proof {
                law_agreement_is_unanimous(endpoints, chain_answers(now), value as nat);
                assert((entry + now).skip(1) =~= now);
                assert forall|i: int| #![trigger now[i]] 0 <= i < endpoints.len() implies u64_result(
                    now[i]->Reply_0,
                    "eth_chainId"@,
                ) == Ok::<_, RpcErrorView>(value as nat) by {
                    assert(chain_answers(now)[i] == Ok::<_, RpcErrorView>(value as nat));
                }
            }
            go_main(job, Ghost(made), Ghost(entry + now), key)
        },
    }
}

/// Takes a node's answer about the balance into account.
#[verifier::rlimit(40)]
fn on_balance_reply(
    job: Job,
    Ghost(made): Ghost<Option<NewWallet>>,
    Ghost(entry): Ghost<Seq<EventView>>,
    Ghost(seen): Ghost<Seq<EventView>>,
    key: PublicKey,
    poll: Poll<u128>,
    event: Event,
) -> (r: (Session, Action))
    requires
        feasible(job@),
        job@ is Balance,
        made_for(job@, made, entry + seen.push(event@)),
        fits(stage_decision(job@, Stage::CheckingBalance(key, poll), seen), event@),
        poll.has_had(network_of(job@).endpoints, balance_answers(seen)),
        continues(job@, made, entry, Stage::CheckingBalance(key, poll)),
    ensures
        r.0.job() == job@,
        r.0.made() == made,
        r.0.transcript() == entry + seen.push(event@),
        r.1@ == r.0.awaited(),
{
    let ghost now = seen.push(event@);
    let ghost endpoints = network_of(job@).endpoints;
    proof {
        lemma_poll_asks(poll, endpoints, balance_answers(seen));
    }
    let answer = match client_in(&job, poll.asked).balance(event.into_reply()) {
        Ok(u) => Ok(u.trust()),
        Err(e) => Err(e),
    };
    assert(balance_answers(now) =~= balance_answers(seen).push(answer_view(answer)));
    proof {
        lemma_continues(job@, made, entry, Stage::CheckingBalance(key, poll), now);
    }
    match take_answer(poll, &network_in(&job).endpoints, answer, Ghost(balance_answers(seen))) {
        PollStep::Failed(e) => Session::finished(job, Ghost(made), Ghost(entry + now), Err(e)),
        PollStep::Next(next) => {
            proof {
                lemma_poll_asks(next, endpoints, balance_answers(now));
                lemma_same_stage(
                    job@,
                    made,
                    entry,
                    Stage::CheckingBalance(key, poll),
                    Stage::CheckingBalance(key, next),
                );
            }
            let endpoint = endpoint_in(&job, next.asked);
            let address = address_from_public_key(&key);
            let request = client_in(&job, next.asked).balance_request(&address);
            let session = Session {
                job,
                stage: Stage::CheckingBalance(key, next),
                made: Ghost(made),
                entry: Ghost(entry),
                seen: Ghost(now),
            };
            (session, Action::Ask { endpoint, request })
        },
        PollStep::Agreed(value) => {
            let response = Response::Balance { address: checksummed_address(&key), amount: value };
            Session::finished(job, Ghost(made), Ghost(entry + now), Ok(response))
        },
    }
}

/// Takes a node's answer about the token balance into account.
#[verifier::rlimit(40)]
fn on_token_reply(
    job: Job,
    Ghost(made): Ghost<Option<NewWallet>>,
    Ghost(entry): Ghost<Seq<EventView>>,
    Ghost(seen): Ghost<Seq<EventView>>,
    key: PublicKey,
    poll: Poll<Vec<u8>>,
    event: Event,
) -> (r: (Session, Action))
    requires
        feasible(job@),
        job@ is TokenBalance,
        made_for(job@, made, entry + seen.push(event@)),
        fits(stage_decision(job@, Stage::CheckingToken(key, poll), seen), event@),
        poll.has_had(network_of(job@).endpoints, call_answers(seen)),
        continues(job@, made, entry, Stage::CheckingToken(key, poll)),
    ensures
        r.0.job() == job@,
        r.0.made() == made,
        r.0.transcript() == entry + seen.push(event@),
        r.1@ == r.0.awaited(),
{
    let ghost now = seen.push(event@);
    let ghost endpoints = network_of(job@).endpoints;
    proof {
        lemma_poll_asks(poll, endpoints, call_answers(seen));
    }
    let answer = match client_in(&job, poll.asked).call_contract(event.into_reply()) {
        Ok(u) => Ok(u.trust()),
        Err(e) => Err(e),
    };
    assert(call_answers(now) =~= call_answers(seen).push(answer_view(answer)));
    proof {
        lemma_continues(job@, made, entry, Stage::CheckingToken(key, poll), now);
    }
    match take_answer(poll, &network_in(&job).endpoints, answer, Ghost(call_answers(seen))) {
        PollStep::Failed(e) => Session::finished(job, Ghost(made), Ghost(entry + now), Err(e)),
        PollStep::Next(next) => {
            proof {
                lemma_poll_asks(next, endpoints, call_answers(now));
                lemma_same_stage(
                    job@,
                    made,
                    entry,
                    Stage::CheckingToken(key, poll),
                    Stage::CheckingToken(key, next),
                );
            }
            let endpoint = endpoint_in(&job, next.asked);
            let address = address_from_public_key(&key);
            let data = construct_balance_of_data(&address);
            let client = client_in(&job, next.asked);
            let request = match &job {
                Job::TokenBalance { token, .. } => client.call_contract_request(
                    token,
                    data.as_slice(),
                ),
                _ => vstd::pervasive::unreached(),
            };
            let session = Session {
                job,
                stage: Stage::CheckingToken(key, next),
                made: Ghost(made),
                entry: Ghost(entry),
                seen: Ghost(now),
            };
            (session, Action::Ask { endpoint, request })
        },
        PollStep::Agreed(value) => {
            let result = match decode_uint256_result(value.as_slice()) {
                None => Err(Refusal::BalanceTooLarge),
                Some(amount) => Ok(
                    Response::Balance { address: checksummed_address(&key), amount },
                ),
            };
            Session::finished(job, Ghost(made), Ghost(entry + now), result)
        },
    }
}

/// Once all nodes agree on the nonce, chain and nonce are confirmed.
proof fn lemma_nonce_agreed(
    job: JobView,
    entry: Seq<EventView>,
    now: Seq<EventView>,
    nonce: nat,
)
    requires
        network_of(job).endpoints.len() > 0,
        entry.len() == 1 + network_of(job).endpoints.len(),
        now.len() == network_of(job).endpoints.len(),
        chain_confirmed(job, entry.skip(1)),
        standing(network_of(job).endpoints, nonce_answers(now)) == Standing::Agreed(nonce),
    ensures
        chain_confirmed(job, (entry + now).skip(1)),
        nonce_confirmed(job, (entry + now).skip(1 + network_of(job).endpoints.len() as int), nonce),
{
    let endpoints = network_of(job).endpoints;
    let m = endpoints.len() as int;
    law_agreement_is_unanimous(endpoints, nonce_answers(now), nonce);
    assert((entry + now).skip(1 + m) =~= now);
    assert((entry + now).skip(1) =~= entry.skip(1) + now);
    assert forall|i: int| #![trigger now[i]] 0 <= i < m implies u64_result(
        now[i]->Reply_0,
        "eth_getTransactionCount"@,
    ) == Ok::<_, RpcErrorView>(nonce) by {
        assert(nonce_answers(now)[i] == Ok::<_, RpcErrorView>(nonce));
    }
    lemma_chain_stays_confirmed(job, entry.skip(1), now);
}

/// Takes a node's answer about the nonce into account.
#[verifier::rlimit(40)]
fn on_nonce_reply(
    job: Job,
    Ghost(made): Ghost<Option<NewWallet>>,
    Ghost(entry): Ghost<Seq<EventView>>,
    Ghost(seen): Ghost<Seq<EventView>>,
    key: PublicKey,
    poll: Poll<u64>,
    event: Event,
) -> (r: (Session, Action))
    requires
        feasible(job@),
        job@ is Send,
        made_for(job@, made, entry + seen.push(event@)),
        fits(stage_decision(job@, Stage::CheckingNonce(key, poll), seen), event@),
        poll.has_had(network_of(job@).endpoints, nonce_answers(seen)),
        continues(job@, made, entry, Stage::CheckingNonce(key, poll)),
        stage_facts(job@, Stage::CheckingNonce(key, poll), entry),
    ensures
        r.0.job() == job@,
        r.0.made() == made,
        r.0.transcript() == entry + seen.push(event@),
        r.1@ == r.0.awaited(),
{
    let ghost now = seen.push(event@);
    let ghost endpoints = network_of(job@).endpoints;
    proof {
        lemma_poll_asks(poll, endpoints, nonce_answers(seen));
    }
    let answer = match client_in(&job, poll.asked).transaction_count(event.into_reply()) {
        Ok(u) => Ok(u.trust()),
        Err(e) => Err(e),
    };
    assert(nonce_answers(now) =~= nonce_answers(seen).push(answer_view(answer)));
    proof {
        lemma_continues(job@, made, entry, Stage::CheckingNonce(key, poll), now);
    }
    match take_answer(poll, &network_in(&job).endpoints, answer, Ghost(nonce_answers(seen))) {
        PollStep::Failed(e) => Session::finished(job, Ghost(made), Ghost(entry + now), Err(e)),
        PollStep::Next(next) => {
            proof {
                lemma_poll_asks(next, endpoints, nonce_answers(now));
                lemma_same_stage(
                    job@,
                    made,
                    entry,
                    Stage::CheckingNonce(key, poll),
                    Stage::CheckingNonce(key, next),
                );
            }
            let endpoint = endpoint_in(&job, next.asked);
            let address = address_from_public_key(&key);
            let request = client_in(&job, next.asked).transaction_count_request(&address);
            let session = Session {
                job,
                stage: Stage::CheckingNonce(key, next),
                made: Ghost(made),
                entry: Ghost(entry),
                seen: Ghost(now),
            };
            (session, Action::Ask { endpoint, request })
        },
        PollStep::Agreed(value) => {
            proof {
                assert forall|v: Seq<EventView>|
                    #![trigger decision(job@, made, (entry + now) + v)]
                    decision(job@, made, (entry + now) + v) == fee_decision(
                    job@,
                    key@,
                    value as nat,
                    v,
                ) by {
                    lemma_later(job@, made, Stage::CheckingNonce(key, poll), entry, now, v);
                    lemma_agreement_extends(
                        endpoints,
                        nonce_answers(now),
                        nonce_answers(now + v),
                        value as nat,
                    );
                }
            }
            proof {
                lemma_nonce_agreed(job@, entry, now, value as nat);
            }
            go_fees(job, Ghost(made), Ghost(entry + now), key, value)
        },
    }
}

fn checksummed_address(key: &PublicKey) -> (r: String)
    ensures
        r@ == address_text(key@),
{
    to_checksummed_hex(&address_from_public_key(key))
}

/// A transaction goes out when the shares have been gathered, and at no other stage.
proof fn lemma_broadcast_stage(
    job: JobView,
    made: Option<NewWallet>,
    entry: Seq<EventView>,
    stage: Stage,
    seen: Seq<EventView>,
    e: EventView,
    raw: Seq<u8>,
)
    requires
        feasible(job),
        job is Send,
        stage_holds(job, made, stage, seen),
        stage_facts(job, stage, entry),
        broadcasts(decision(job, None, (entry + seen).push(e)), raw),
    ensures
        stage is GatheringShares,
{
    let t = (entry + seen).push(e);
    law_nothing_is_broadcast_unconfirmed(job, t, raw);
    assert(t.len() == 3 + 2 * network_of(job).endpoints.len());
}

impl Session {
    /// Begins a job: the session, and what is to be done first.
    pub fn start(job: Job) -> (r: (Session, Action))
        requires
            feasible(job@),
        ensures
            r.0.job() == job@,
            r.0.made() is None,
            r.0.transcript() == Seq::<EventView>::empty(),
            r.1@ == r.0.awaited(),
            r.1@ == decision(job@, None, Seq::empty()),
    {
        let ghost none: Seq<EventView> = Seq::empty();
        proof {
            assert forall|v: Seq<EventView>|
                #![trigger decision(job@, None::<NewWallet>, none + v)]
                none + v == v by {
                assert(none + v =~= v);
            }
            reveal(decision);
        }
        let (stage, action) = match &job {
            Job::Create { .. } => {
                assert(none + none =~= none);
                let session = Session {
                    job,
                    stage: Stage::CreatingDir,
                    made: Ghost(None),
                    entry: Ghost(none),
                    seen: Ghost(none),
                };
                return (session, Action::CreateDir);
            },
            Job::Import { .. } => (Stage::ImportingDir, Action::CreateDir),
            Job::Unlock { .. } => (Stage::Unlocking, Action::ReadShare),
            Job::Status { endpoint, tx_hash } => {
                let request = JsonRpcClient::new(endpoint.clone()).transaction_receipt_request(
                    tx_hash,
                );
                (Stage::AskingReceipt, Action::Ask { endpoint: endpoint.clone(), request })
            },
            _ => (Stage::LoadingKey, Action::ReadPublicKey),
        };
        Session::entering(job, Ghost(None), Ghost(none), stage, action)
    }

    /// Takes into account what came of the last action, and says what is to be done next. A
    /// transaction that goes out is the confirmed payment, validly signed for the wallet's key.
    pub fn step(self, event: Event) -> (r: (Session, Action))
        requires
            fits(self.awaited(), event@),
        ensures
            r.0.job() == self.job(),
            r.0.transcript() == self.transcript().push(event@),
            made_for(r.0.job(), r.0.made(), r.0.transcript()),
            self.made() is Some ==> r.0.made() == self.made(),
            r.1@ == r.0.awaited(),
            r.1@ == decision(self.job(), r.0.made(), self.transcript().push(event@)),
            forall|raw: Seq<u8>| #[trigger]
                broadcasts(r.1@, raw) && self.job() is Send ==> is_signed_payment(
                    r.0.job(),
                    r.0.transcript(),
                    raw,
                ),
    {
        proof {
            use_type_invariant(&self);
        }
        let ghost e = event@;
        let ghost whole = self.transcript().push(e);
        let Session { job, stage, made, entry, seen } = self;
        proof {
            if stage !is Finished && stage !is CreatingDir {
                lemma_continues(job@, made@, entry@, stage, seen@);
                if seen@.len() == 0 {
                    assert(seen@ =~= Seq::<EventView>::empty());
                    assert(entry@.push(e) =~= whole);
                }
                assert(entry@ + seen@.push(e) =~= whole);
            }
            if stage is CreatingDir {
                assert(entry@ + seen@ =~= Seq::<EventView>::empty());
                assert(whole =~= seq![e]);
            }
        }
        let ghost (the_job, at) = (job@, stage);
        let r = match stage {
            Stage::CreatingDir => on_dir_created(job, made, event),
            Stage::SavingShare(wallet) => on_share_saved(job, made, entry, wallet, event),
            Stage::Publishing(key, response) => on_key_written(
                job,
                made,
                entry,
                key,
                response,
                event,
            ),
            Stage::ImportingDir => on_import_dir(job, made, entry, event),
            Stage::Unlocking => on_local_share(job, made, entry, event),
            Stage::LoadingKey => on_key_read(job, made, entry, event),
            Stage::CheckingChain(key, poll) => on_chain_reply(
                job,
                made,
                entry,
                seen,
                key,
                poll,
                event,
            ),
            Stage::CheckingBalance(key, poll) => on_balance_reply(
                job,
                made,
                entry,
                seen,
                key,
                poll,
                event,
            ),
            Stage::CheckingToken(key, poll) => on_token_reply(
                job,
                made,
                entry,
                seen,
                key,
                poll,
                event,
            ),
            Stage::CheckingNonce(key, poll) => on_nonce_reply(
                job,
                made,
                entry,
                seen,
                key,
                poll,
                event,
            ),
            Stage::AskingFees(key, nonce) => on_fees(job, made, entry, key, nonce, event),
            Stage::GatheringShares(key, tx) => on_shares(job, made, entry, key, tx, event),
            Stage::Broadcasting(raw) => on_broadcast(job, made, entry, raw, event),
            Stage::AskingReceipt => on_receipt(job, made, entry, event),
            Stage::AskingHeight(receipt) => on_height(job, made, entry, receipt, event),
            Stage::Finished => vstd::pervasive::unreached(),
        };
        proof {
            assert forall|raw: Seq<u8>| #[trigger]
                broadcasts(r.1@, raw) && the_job is Send implies is_signed_payment(
                the_job,
                whole,
                raw,
            ) by {
                lemma_broadcast_stage(the_job, made@, entry@, at, seen@, e, raw);
                let signed = choose|signed: Seq<u8>| #[trigger]
                    broadcasts(r.1@, signed) && is_signed_payment(the_job, whole, signed);
                lemma_broadcasts_one(r.1@, signed, raw);
            }
        }
        r
    }
}

/// A stage has just been entered, after the given events.
spec fn at_stage(
    job: JobView,
    made: Option<NewWallet>,
    entry: Seq<EventView>,
    stage: Stage,
) -> bool {
    &&& feasible(job)
    &&& stage_holds(job, made, stage, Seq::empty())
    &&& stage_facts(job, stage, entry)
    &&& continues(job, made, entry, stage)
}

/// Goes on once the local share of a new wallet is written.
fn on_share_saved(
    job: Job,
    Ghost(made): Ghost<Option<NewWallet>>,
    Ghost(entry): Ghost<Seq<EventView>>,
    wallet: NewWallet,
    event: Event,
) -> (r: (Session, Action))
    requires
        at_stage(job@, made, entry, Stage::SavingShare(wallet)),
        made_for(job@, made, entry.push(event@)),
        fits(stage_decision(job@, Stage::SavingShare(wallet), Seq::empty()), event@),
    ensures
        r.0.job() == job@,
        r.0.made() == made,
        r.0.transcript() == entry.push(event@),
        r.1@ == r.0.awaited(),
{
    let ghost t = entry.push(event@);
    proof {
        lemma_one_more(job@, made, Stage::SavingShare(wallet), entry, event@);
        assert(t + Seq::<EventView>::empty() =~= t);
        assert(decision(job@, made, t + Seq::<EventView>::empty()) == decision(job@, made, t));
    }
    match event.into_written() {
        Err(io) => Session::finished(
            job,
            Ghost(made),
            Ghost(t),
            Err(Refusal::Wallet(WalletError::Storage(StorageError::Io(io)))),
        ),
        Ok(_) => {
            let address = checksummed_address(&wallet.public_key);
            let NewWallet { public_key, external_shares, .. } = wallet;
            go_publishing(
                job,
                Ghost(made),
                Ghost(t),
                public_key,
                Response::Created { address, shares: external_shares },
            )
        },
    }
}

/// Answers once the public key is written.
fn on_key_written(
    job: Job,
    Ghost(made): Ghost<Option<NewWallet>>,
    Ghost(entry): Ghost<Seq<EventView>>,
    key: PublicKey,
    response: Response,
    event: Event,
) -> (r: (Session, Action))
    requires
        at_stage(job@, made, entry, Stage::Publishing(key, response)),
        made_for(job@, made, entry.push(event@)),
        fits(stage_decision(job@, Stage::Publishing(key, response), Seq::empty()), event@),
    ensures
        r.0.job() == job@,
        r.0.made() == made,
        r.0.transcript() == entry.push(event@),
        r.1@ == r.0.awaited(),
{
    let ghost t = entry.push(event@);
    proof {
        lemma_one_more(job@, made, Stage::Publishing(key, response), entry, event@);
        assert(t + Seq::<EventView>::empty() =~= t);
        assert(decision(job@, made, t + Seq::<EventView>::empty()) == decision(job@, made, t));
    }
    match event.into_written() {
        Err(io) => Session::finished(
            job,
            Ghost(made),
            Ghost(t),
            Err(Refusal::Wallet(WalletError::Io(io))),
        ),
        Ok(_) => Session::finished(job, Ghost(made), Ghost(t), Ok(response)),
    }
}

/// Imports the wallet once its directory is there.
fn on_import_dir(
    job: Job,
    Ghost(made): Ghost<Option<NewWallet>>,
    Ghost(entry): Ghost<Seq<EventView>>,
    event: Event,
) -> (r: (Session, Action))
    requires
        at_stage(job@, made, entry, Stage::ImportingDir),
        made_for(job@, made, entry.push(event@)),
        fits(stage_decision(job@, Stage::ImportingDir, Seq::empty()), event@),
    ensures
        r.0.job() == job@,
        r.0.made() == made,
        r.0.transcript() == entry.push(event@),
        r.1@ == r.0.awaited(),
{
    let ghost t = entry.push(event@);
    proof {
        lemma_one_more(job@, made, Stage::ImportingDir, entry, event@);
        assert(t + Seq::<EventView>::empty() =~= t);
        assert(decision(job@, made, t + Seq::<EventView>::empty()) == decision(job@, made, t));
    }
    if let Err(io) = event.into_written() {
        return Session::finished(
            job,
            Ghost(made),
            Ghost(t),
            Err(Refusal::Wallet(WalletError::Io(io))),
        );
    }
    let imported = match &job {
        Job::Import { passphrase, sealed } => import_wallet(passphrase.expose(), sealed),
        _ => vstd::pervasive::unreached(),
    };
    match imported {
        Err(e) => Session::finished(job, Ghost(made), Ghost(t), Err(Refusal::Wallet(e))),
        Ok(key) => {
            let address = checksummed_address(&key);
            go_publishing(job, Ghost(made), Ghost(t), key, Response::Address(address))
        },
    }
}

/// Goes on once the local share is read and the passphrase opens it.
fn on_local_share(
    job: Job,
    Ghost(made): Ghost<Option<NewWallet>>,
    Ghost(entry): Ghost<Seq<EventView>>,
    event: Event,
) -> (r: (Session, Action))
    requires
        at_stage(job@, made, entry, Stage::Unlocking),
        made_for(job@, made, entry.push(event@)),
        fits(stage_decision(job@, Stage::Unlocking, Seq::empty()), event@),
    ensures
        r.0.job() == job@,
        r.0.made() == made,
        r.0.transcript() == entry.push(event@),
        r.1@ == r.0.awaited(),
{
    let ghost t = entry.push(event@);
    proof {
        lemma_one_more(job@, made, Stage::Unlocking, entry, event@);
        assert(t + Seq::<EventView>::empty() =~= t);
        assert(decision(job@, made, t + Seq::<EventView>::empty()) == decision(job@, made, t));
    }
    let file = event.into_file();
    let loaded = match &job {
        Job::Unlock { passphrase } => load_share(passphrase.expose(), &file),
        _ => vstd::pervasive::unreached(),
    };
    match loaded {
        Err(e) => Session::finished(job, Ghost(made), Ghost(t), Err(Refusal::Wallet(e))),
        Ok(_) => Session::entering(
            job,
            Ghost(made),
            Ghost(t),
            Stage::LoadingKey,
            Action::ReadPublicKey,
        ),
    }
}

/// Goes on once the public key is read.
fn on_key_read(
    job: Job,
    Ghost(made): Ghost<Option<NewWallet>>,
    Ghost(entry): Ghost<Seq<EventView>>,
    event: Event,
) -> (r: (Session, Action))
    requires
        at_stage(job@, made, entry, Stage::LoadingKey),
        made_for(job@, made, entry.push(event@)),
        fits(stage_decision(job@, Stage::LoadingKey, Seq::empty()), event@),
    ensures
        r.0.job() == job@,
        r.0.made() == made,
        r.0.transcript() == entry.push(event@),
        r.1@ == r.0.awaited(),
{
    let ghost t = entry.push(event@);
    proof {
        lemma_one_more(job@, made, Stage::LoadingKey, entry, event@);
        assert(t + Seq::<EventView>::empty() =~= t);
        assert(decision(job@, made, t + Seq::<EventView>::empty()) == decision(job@, made, t));
    }
    match load_public_key(event.into_file()) {
        Err(e) => Session::finished(job, Ghost(made), Ghost(t), Err(Refusal::Wallet(e))),
        Ok(key) => {
            let networked = match &job {
                Job::Balance { .. } => true,
                Job::TokenBalance { .. } => true,
                Job::Send { .. } => true,
                _ => false,
            };
            if networked {
                go_chain(job, Ghost(made), Ghost(t), key)
            } else {
                let address = checksummed_address(&key);
                Session::finished(job, Ghost(made), Ghost(t), Ok(Response::Address(address)))
            }
        },
    }
}

/// Builds the transaction once the fees are known.
fn on_fees(
    job: Job,
    Ghost(made): Ghost<Option<NewWallet>>,
    Ghost(entry): Ghost<Seq<EventView>>,
    key: PublicKey,
    nonce: u64,
    event: Event,
) -> (r: (Session, Action))
    requires
        at_stage(job@, made, entry, Stage::AskingFees(key, nonce)),
        made_for(job@, made, entry.push(event@)),
        fits(stage_decision(job@, Stage::AskingFees(key, nonce), Seq::empty()), event@),
    ensures
        r.0.job() == job@,
        r.0.made() == made,
        r.0.transcript() == entry.push(event@),
        r.1@ == r.0.awaited(),
{
    let ghost t = entry.push(event@);
    proof {
        lemma_one_more(job@, made, Stage::AskingFees(key, nonce), entry, event@);
        assert(t + Seq::<EventView>::empty() =~= t);
        assert(decision(job@, made, t + Seq::<EventView>::empty()) == decision(job@, made, t));
    }
    let fees = match client_in(&job, 0).fee_suggestion(event.into_reply()) {
        Ok(u) => u.trust(),
        Err(e) => return Session::finished(job, Ghost(made), Ghost(t), Err(Refusal::Rpc(e))),
    };
    match build(&job, nonce, fees) {
        Err(e) => Session::finished(job, Ghost(made), Ghost(t), Err(e)),
        Ok(tx) => {
            proof {
                let m = network_of(job@).endpoints.len() as int;
                assert(t.skip(1) =~= entry.skip(1) + seq![event@]);
                lemma_chain_stays_confirmed(job@, entry.skip(1), seq![event@]);
                assert forall|i: int| #![trigger t.skip(1 + m)[i]] 0 <= i < m implies t.skip(
                    1 + m,
                )[i] == entry.skip(1 + m)[i] by {}
                assert(nonce_confirmed(job@, t.skip(1 + m), nonce as nat));
                assert(payment_confirmed(job@, t, key@, tx@));
            }
            go_shares(job, Ghost(made), Ghost(t), key, tx)
        },
    }
}

/// A confirmed payment that its shares have signed is cleared to go out.
proof fn lemma_cleared(
    job: JobView,
    entry: Seq<EventView>,
    e: EventView,
    key: Seq<u8>,
    tx: TxView,
    shares: Seq<ShareView>,
    action: ActionView,
)
    requires
        payment_confirmed(job, entry, key, tx),
        signing_shares(job, e) == Ok::<_, WalletError>(shares),
        exists|raw: Seq<u8>|
            {
                &&& #[trigger] broadcasts(action, raw)
                &&& signed_transaction(tx, shares, key) == Ok::<_, EvmCeremonyError>(raw)
                &&& carries_valid_signature(raw, tx, key)
            },
    ensures
        exists|raw: Seq<u8>|
            #[trigger] broadcasts(action, raw) && is_signed_payment(job, entry.push(e), raw),
{
    let m = network_of(job).endpoints.len() as int;
    let t = entry.push(e);
    let raw = choose|raw: Seq<u8>|
        {
            &&& #[trigger] broadcasts(action, raw)
            &&& signed_transaction(tx, shares, key) == Ok::<_, EvmCeremonyError>(raw)
            &&& carries_valid_signature(raw, tx, key)
        };
    let (nonce, fees) = choose|nonce: nat, fees: FeeSuggestion|
        {
            &&& nonce_confirmed(job, entry.skip(1 + m), nonce)
            &&& fee_result(entry[1 + 2 * m]->Reply_0) == Ok::<_, RpcErrorView>(fees)
            &&& fees.max_fee_per_gas <= MAX_FEE_PER_GAS
            &&& tx == #[trigger] payment_transaction(
                network_of(job).chain_id,
                job->payment,
                job->gas_limit,
                nonce,
                fees,
            )
        };
    assert(t.skip(1) =~= entry.skip(1) + seq![e]);
    lemma_chain_stays_confirmed(job, entry.skip(1), seq![e]);
    assert forall|i: int| #![trigger t.skip(1 + m)[i]] 0 <= i < m implies t.skip(1 + m)[i]
        == entry.skip(1 + m)[i] by {}
    assert(nonce_confirmed(job, t.skip(1 + m), nonce));
    assert(cleared_for_broadcast(job, t, key, nonce, fees, shares, raw));
    assert(is_signed_payment(job, t, raw));
}

/// Signs the transaction once the shares are there.
fn on_shares(
    job: Job,
    Ghost(made): Ghost<Option<NewWallet>>,
    Ghost(entry): Ghost<Seq<EventView>>,
    key: PublicKey,
    tx: UnsignedEip1559Tx,
    event: Event,
) -> (r: (Session, Action))
    requires
        at_stage(job@, made, entry, Stage::GatheringShares(key, tx)),
        made_for(job@, made, entry.push(event@)),
        fits(stage_decision(job@, Stage::GatheringShares(key, tx), Seq::empty()), event@),
    ensures
        r.0.job() == job@,
        r.0.made() == made,
        r.0.transcript() == entry.push(event@),
        r.1@ == r.0.awaited(),
        r.1@ is Ask ==> exists|raw: Seq<u8>|
            #[trigger] broadcasts(r.1@, raw) && is_signed_payment(
                job@,
                entry.push(event@),
                raw,
            ),
{
    let ghost t = entry.push(event@);
    proof {
        lemma_one_more(job@, made, Stage::GatheringShares(key, tx), entry, event@);
        assert(t + Seq::<EventView>::empty() =~= t);
        assert(decision(job@, made, t + Seq::<EventView>::empty()) == decision(job@, made, t));
    }
    let gathered = match &job {
        Job::Send { signers: Signers::Stored { passphrase, sealed }, .. } => {
            let file = event.into_file();
            gather_stored_shares(passphrase.expose(), &file, sealed)
        },
        _ => Ok(event.into_shares()),
    };
    match gathered {
        Err(e) => Session::finished(job, Ghost(made), Ghost(t), Err(Refusal::Wallet(e))),
        Ok(shares) => {
            let ghost gathered = views(shares@);
            let r = go_signing(job, Ghost(made), Ghost(t), key, tx, shares);
            proof {
                if r.1@ is Ask {
                    lemma_cleared(job@, entry, event@, key@, tx@, gathered, r.1@);
                }
            }
            r
        },
    }
}

/// Answers once the transaction is broadcast.
fn on_broadcast(
    job: Job,
    Ghost(made): Ghost<Option<NewWallet>>,
    Ghost(entry): Ghost<Seq<EventView>>,
    raw: Vec<u8>,
    event: Event,
) -> (r: (Session, Action))
    requires
        at_stage(job@, made, entry, Stage::Broadcasting(raw)),
        made_for(job@, made, entry.push(event@)),
        fits(stage_decision(job@, Stage::Broadcasting(raw), Seq::empty()), event@),
    ensures
        r.0.job() == job@,
        r.0.made() == made,
        r.0.transcript() == entry.push(event@),
        r.1@ == r.0.awaited(),
{
    let ghost t = entry.push(event@);
    proof {
        lemma_one_more(job@, made, Stage::Broadcasting(raw), entry, event@);
        assert(t + Seq::<EventView>::empty() =~= t);
        assert(decision(job@, made, t + Seq::<EventView>::empty()) == decision(job@, made, t));
    }
    match client_in(&job, 0).send_raw_transaction(event.into_reply()) {
        Err(e) => Session::finished(job, Ghost(made), Ghost(t), Err(Refusal::Rpc(e))),
        Ok(u) => Session::finished(job, Ghost(made), Ghost(t), Ok(Response::Sent(u.trust()))),
    }
}

/// Goes on once the receipt of a transaction is there.
fn on_receipt(
    job: Job,
    Ghost(made): Ghost<Option<NewWallet>>,
    Ghost(entry): Ghost<Seq<EventView>>,
    event: Event,
) -> (r: (Session, Action))
    requires
        at_stage(job@, made, entry, Stage::AskingReceipt),
        made_for(job@, made, entry.push(event@)),
        fits(stage_decision(job@, Stage::AskingReceipt, Seq::empty()), event@),
    ensures
        r.0.job() == job@,
        r.0.made() == made,
        r.0.transcript() == entry.push(event@),
        r.1@ == r.0.awaited(),
{
    let ghost t = entry.push(event@);
    proof {
        lemma_one_more(job@, made, Stage::AskingReceipt, entry, event@);
        assert(t + Seq::<EventView>::empty() =~= t);
        assert(decision(job@, made, t + Seq::<EventView>::empty()) == decision(job@, made, t));
    }
    let endpoint = match &job {
        Job::Status { endpoint, .. } => endpoint.clone(),
        _ => vstd::pervasive::unreached(),
    };
    let client = JsonRpcClient::new(endpoint.clone());
    match client.transaction_receipt(event.into_reply()) {
        Err(e) => Session::finished(job, Ghost(made), Ghost(t), Err(Refusal::Rpc(e))),
        Ok(u) => match u.trust() {
            None => Session::finished(job, Ghost(made), Ghost(t), Ok(Response::Pending)),
            Some(receipt) => Session::entering(
                job,
                Ghost(made),
                Ghost(t),
                Stage::AskingHeight(receipt),
                Action::Ask { endpoint, request: client.block_number_request() },
            ),
        },
    }
}

/// Answers once the height of the chain is known.
fn on_height(
    job: Job,
    Ghost(made): Ghost<Option<NewWallet>>,
    Ghost(entry): Ghost<Seq<EventView>>,
    receipt: TransactionReceipt,
    event: Event,
) -> (r: (Session, Action))
    requires
        at_stage(job@, made, entry, Stage::AskingHeight(receipt)),
        made_for(job@, made, entry.push(event@)),
        fits(stage_decision(job@, Stage::AskingHeight(receipt), Seq::empty()), event@),
    ensures
        r.0.job() == job@,
        r.0.made() == made,
        r.0.transcript() == entry.push(event@),
        r.1@ == r.0.awaited(),
{
    let ghost t = entry.push(event@);
    proof {
        lemma_one_more(job@, made, Stage::AskingHeight(receipt), entry, event@);
        assert(t + Seq::<EventView>::empty() =~= t);
        assert(decision(job@, made, t + Seq::<EventView>::empty()) == decision(job@, made, t));
    }
    let client = match &job {
        Job::Status { endpoint, .. } => JsonRpcClient::new(endpoint.clone()),
        _ => vstd::pervasive::unreached(),
    };
    match client.block_number(event.into_reply()) {
        Err(e) => Session::finished(job, Ghost(made), Ghost(t), Err(Refusal::Rpc(e))),
        Ok(u) => {
            let response = Response::Mined {
                block_number: receipt.block_number,
                confirmations: receipt.confirmations(u.trust()),
                success: receipt.success,
            };
            Session::finished(job, Ghost(made), Ghost(t), Ok(response))
        },
    }
}

/// Creates the wallet once its directory is there, and goes on with saving it.
fn on_dir_created(
    job: Job,
    Ghost(made): Ghost<Option<NewWallet>>,
    event: Event,
) -> (r: (Session, Action))
    requires
        feasible(job@),
        job@ is Create,
        fits(decision(job@, made, Seq::empty()), event@),
        made_for(job@, made, Seq::empty()),
        made is None,
    ensures
        r.0.job() == job@,
        r.0.transcript() == seq![event@],
        made_for(r.0.job(), r.0.made(), r.0.transcript()),
        r.1@ == r.0.awaited(),
{
    let ghost e = event@;
    let ghost t = seq![e];
    proof {
        reveal(decision);
    }
    if let Err(io) = event.into_written() {
        return Session::finished(
            job,
            Ghost(made),
            Ghost(t),
            Err(Refusal::Wallet(WalletError::Io(io))),
        );
    }
    let result = match &job {
        Job::Create { passphrase, threshold, n } => create_wallet(
            passphrase.expose(),
            *threshold,
            *n,
        ),
        _ => vstd::pervasive::unreached(),
    };
    match result {
        Err(error) => Session::finished(job, Ghost(made), Ghost(t), Err(Refusal::Wallet(error))),
        Ok(wallet) => {
            let blob = wallet.local_share.clone();
            proof {
                assert(blob@ =~= wallet.local_share@);
                assert forall|v: Seq<EventView>|
                    #![trigger decision(job@, Some(wallet), t + v)]
                    decision(job@, Some(wallet), t + v) == saving_decision(wallet, v) by {
                    assert((t + v).drop_first() =~= v);
                    assert((t + v)[0] == e);
                }
            }
            Session::entering(
                job,
                Ghost(Some(wallet)),
                Ghost(t),
                Stage::SavingShare(wallet),
                Action::WriteShare(blob),
            )
        },
    }
}

} // verus!
