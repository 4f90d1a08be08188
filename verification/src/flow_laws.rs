//! What holds of every job, whatever the nodes answer and whatever the files hold.

use vstd::prelude::*;

use crate::erc20::uint256_amount;
use crate::evm::{carries_valid_signature, signed_transaction, EvmCeremonyError, MAX_FEE_PER_GAS};
use crate::flow::{
    address_text, answered, balance_answers, balance_decision, broadcast_decision, call_answers,
    chain_answers, chain_decision, decision, fee_decision, key_decision, main_decision, network_of,
    nonce_answers, nonce_decision, payment_transaction, refused, shares_decision, signing_decision,
    token_decision, ActionView, EventView, ResponseView,
};
use crate::hex::law_hex_text_reads_back;
use crate::job::{JobView, SignersView};
use crate::poll::{law_agreement_is_unanimous, standing};
use crate::request::RefusalView;
use crate::rpc_evm::{
    bytes_request, call_result, fee_result, u128_result, u64_result, FeeSuggestion, RpcErrorView,
};
use crate::shamir::ShareView;
use crate::wallet::{
    blobs, creation_error, is_wallet, law_created_files_load, law_import_restores_the_wallet,
    public_key_loading, share_file_loading, stored_shares, NewWallet, WalletError,
};

verus! {

/// The action puts a transaction out.
pub open spec fn broadcasts(action: ActionView, raw: Seq<u8>) -> bool {
    action is Ask && action->Ask_1 == bytes_request("eth_sendRawTransaction"@, raw)
}

/// The replies begin with one from each node of the job, all of which claim to serve the
/// chain that was asked for.
pub open spec fn chain_confirmed(job: JobView, replies: Seq<EventView>) -> bool {
    &&& network_of(job).endpoints.len() <= replies.len()
    &&& forall|i: int|
        #![trigger replies[i]]
        0 <= i < network_of(job).endpoints.len() ==> u64_result(
            replies[i]->Reply_0,
            "eth_chainId"@,
        ) == Ok::<_, RpcErrorView>(network_of(job).chain_id)
}

/// The replies begin with one from each node of the job, all of which give this nonce.
pub open spec fn nonce_confirmed(job: JobView, replies: Seq<EventView>, nonce: nat) -> bool {
    &&& network_of(job).endpoints.len() <= replies.len()
    &&& forall|i: int|
        #![trigger replies[i]]
        0 <= i < network_of(job).endpoints.len() ==> u64_result(
            replies[i]->Reply_0,
            "eth_getTransactionCount"@,
        ) == Ok::<_, RpcErrorView>(nonce)
}

/// The shares that a job signs with, given what came of gathering them.
pub open spec fn signing_shares(job: JobView, e: EventView) -> Result<Seq<ShareView>, WalletError> {
    match job->signers {
        SignersView::Stored { passphrase, sealed } => stored_shares(passphrase, e->File_0, sealed),
        SignersView::Holders => Ok(e->Shares_0),
    }
}

/// The events after which a job puts a transaction out: the wallet's public key, the same
/// chain from every node, the same nonce from every node, a fee that is not too high, and
/// shares that sign for the public key.
pub open spec fn cleared_for_broadcast(
    job: JobView,
    t: Seq<EventView>,
    key: Seq<u8>,
    nonce: nat,
    fees: FeeSuggestion,
    shares: Seq<ShareView>,
    raw: Seq<u8>,
) -> bool {
    let m = network_of(job).endpoints.len() as int;
    &&& t.len() == 2 * m + 3
    &&& public_key_loading(t[0]->File_0) == Ok::<_, WalletError>(key)
    &&& chain_confirmed(job, t.skip(1))
    &&& nonce_confirmed(job, t.skip(1 + m), nonce)
    &&& fee_result(t[1 + 2 * m]->Reply_0) == Ok::<_, RpcErrorView>(fees)
    &&& fees.max_fee_per_gas <= MAX_FEE_PER_GAS
    &&& signing_shares(job, t[2 + 2 * m]) == Ok::<_, WalletError>(shares)
    &&& signed_transaction(
        payment_transaction(
            network_of(job).chain_id,
            job->payment,
            job->gas_limit,
            nonce,
            fees,
        ),
        shares,
        key,
    ) == Ok::<_, EvmCeremonyError>(raw)
}

/// What goes out after these events is the payment that was asked for, confirmed by all nodes,
/// with a signature in it that verifies under the wallet's public key and recovers to it.
pub open spec fn is_signed_payment(job: JobView, t: Seq<EventView>, raw: Seq<u8>) -> bool {
    exists|key: Seq<u8>, nonce: nat, fees: FeeSuggestion, shares: Seq<ShareView>|
        {
            &&& #[trigger] cleared_for_broadcast(job, t, key, nonce, fees, shares, raw)
            &&& carries_valid_signature(
                raw,
                payment_transaction(
                    network_of(job).chain_id,
                    job->payment,
                    job->gas_limit,
                    nonce,
                    fees,
                ),
                key,
            )
        }
}

proof fn lemma_methods_differ()
    ensures
        "eth_sendRawTransaction"@ != "eth_chainId"@,
        "eth_sendRawTransaction"@ != "eth_getTransactionCount"@,
        "eth_sendRawTransaction"@ != "eth_getBlockByNumber"@,
{
    reveal_strlit("eth_sendRawTransaction");
    reveal_strlit("eth_chainId");
    reveal_strlit("eth_getTransactionCount");
    reveal_strlit("eth_getBlockByNumber");
    assert("eth_sendRawTransaction"@.len() == 22);
    assert("eth_chainId"@.len() == 11);
    assert("eth_getTransactionCount"@.len() == 23);
    assert("eth_getBlockByNumber"@.len() == 20);
}

proof fn lemma_broadcast_after_key(job: JobView, t: Seq<EventView>, raw: Seq<u8>) -> (key: Seq<u8>)
    requires
        job is Send,
        broadcasts(key_decision(job, t), raw),
    ensures
        t.len() > 0,
        public_key_loading(t[0]->File_0) == Ok::<_, WalletError>(key),
        broadcasts(chain_decision(job, key, t.skip(1)), raw),
{
    assert(t.skip(1) =~= t.drop_first());
    public_key_loading(t[0]->File_0)->Ok_0
}

proof fn lemma_broadcast_after_chain(job: JobView, key: Seq<u8>, t: Seq<EventView>, raw: Seq<u8>)
    requires
        job is Send,
        network_of(job).endpoints.len() > 0,
        broadcasts(chain_decision(job, key, t), raw),
    ensures
        chain_confirmed(job, t),
        broadcasts(nonce_decision(job, key, t.skip(network_of(job).endpoints.len() as int)), raw),
{
    lemma_methods_differ();
    let endpoints = network_of(job).endpoints;
    let chain = standing(endpoints, chain_answers(t))->Agreed_0;
    law_agreement_is_unanimous(endpoints, chain_answers(t), chain);
    assert forall|i: int| #![trigger t[i]] 0 <= i < endpoints.len() implies u64_result(
        t[i]->Reply_0,
        "eth_chainId"@,
    ) == Ok::<_, RpcErrorView>(chain) by {
        assert(chain_answers(t)[i] == Ok::<_, RpcErrorView>(chain));
    }
}

proof fn lemma_broadcast_after_nonce(
    job: JobView,
    key: Seq<u8>,
    t: Seq<EventView>,
    raw: Seq<u8>,
) -> (nonce: nat)
    requires
        job is Send,
        network_of(job).endpoints.len() > 0,
        broadcasts(nonce_decision(job, key, t), raw),
    ensures
        nonce_confirmed(job, t, nonce),
        broadcasts(
            fee_decision(job, key, nonce, t.skip(network_of(job).endpoints.len() as int)),
            raw,
        ),
{
    lemma_methods_differ();
    let endpoints = network_of(job).endpoints;
    let nonce = standing(endpoints, nonce_answers(t))->Agreed_0;
    law_agreement_is_unanimous(endpoints, nonce_answers(t), nonce);
    assert forall|i: int| #![trigger t[i]] 0 <= i < endpoints.len() implies u64_result(
        t[i]->Reply_0,
        "eth_getTransactionCount"@,
    ) == Ok::<_, RpcErrorView>(nonce) by {
        assert(nonce_answers(t)[i] == Ok::<_, RpcErrorView>(nonce));
    }
    nonce
}

proof fn lemma_broadcast_after_fees(
    job: JobView,
    key: Seq<u8>,
    nonce: nat,
    t: Seq<EventView>,
    raw: Seq<u8>,
)
    requires
        job is Send,
        broadcasts(fee_decision(job, key, nonce, t), raw),
    ensures
        t.len() == 2,
        fee_result(t[0]->Reply_0) is Ok,
        (fee_result(t[0]->Reply_0)->Ok_0).max_fee_per_gas <= MAX_FEE_PER_GAS,
        signing_shares(job, t[1]) is Ok,
        signed_transaction(
            payment_transaction(
                network_of(job).chain_id,
                job->payment,
                job->gas_limit,
                nonce,
                fee_result(t[0]->Reply_0)->Ok_0,
            ),
            signing_shares(job, t[1])->Ok_0,
            key,
        ) == Ok::<_, EvmCeremonyError>(raw),
{
    lemma_methods_differ();
    let fees = fee_result(t[0]->Reply_0)->Ok_0;
    let tx = payment_transaction(
        network_of(job).chain_id,
        job->payment,
        job->gas_limit,
        nonce,
        fees,
    );
    let rest = t.drop_first();
    assert(broadcasts(shares_decision(job, key, tx, rest), raw));
    let shares = signing_shares(job, rest[0])->Ok_0;
    let last = rest.drop_first();
    assert(broadcasts(signing_decision(job, key, tx, shares, last), raw));
    let signed = signed_transaction(tx, shares, key)->Ok_0;
    assert(broadcasts(broadcast_decision(job, signed, last), signed));
    lemma_broadcasts_one(broadcast_decision(job, signed, last), signed, raw);
}

/// An action puts out no more than one transaction.
pub proof fn lemma_broadcasts_one(action: ActionView, raw: Seq<u8>, other: Seq<u8>)
    requires
        broadcasts(action, raw),
        broadcasts(action, other),
    ensures
        raw == other,
{
    assert(bytes_request("eth_sendRawTransaction"@, raw).params[0] == bytes_request(
        "eth_sendRawTransaction"@,
        other,
    ).params[0]);
    law_hex_text_reads_back(raw);
    law_hex_text_reads_back(other);
}

/// No transaction goes out unless every node serves the chain that was asked for and gives
/// one and the same nonce, and the fee is not above the ceiling; and what goes out is the
/// payment that was asked for, on that chain and with that nonce, signed for the wallet's
/// public key.
pub proof fn law_nothing_is_broadcast_unconfirmed(job: JobView, t: Seq<EventView>, raw: Seq<u8>)
    requires
        job is Send,
        network_of(job).endpoints.len() > 0,
        broadcasts(decision(job, None, t), raw),
    ensures
        exists|key: Seq<u8>, nonce: nat, fees: FeeSuggestion, shares: Seq<ShareView>|
            cleared_for_broadcast(job, t, key, nonce, fees, shares, raw),
{
    let m = network_of(job).endpoints.len() as int;
    assert(broadcasts(key_decision(job, t), raw)) by {
        reveal(decision);
    }
    let key = lemma_broadcast_after_key(job, t, raw);
    lemma_broadcast_after_chain(job, key, t.skip(1), raw);
    assert(t.skip(1).skip(m) =~= t.skip(1 + m));
    let nonce = lemma_broadcast_after_nonce(job, key, t.skip(1 + m), raw);
    let rest = t.skip(1 + 2 * m);
    assert(t.skip(1 + m).skip(m) =~= rest);
    lemma_broadcast_after_fees(job, key, nonce, rest, raw);
    assert(rest[0] == t[1 + 2 * m] && rest[1] == t[2 + 2 * m]);
    let fees = fee_result(rest[0]->Reply_0)->Ok_0;
    let shares = signing_shares(job, rest[1])->Ok_0;
    assert(cleared_for_broadcast(job, t, key, nonce, fees, shares, raw));
}

/// The replies begin with one from each node of the job, all of which give this balance.
pub open spec fn balance_confirmed(job: JobView, replies: Seq<EventView>, amount: nat) -> bool {
    &&& network_of(job).endpoints.len() <= replies.len()
    &&& forall|i: int|
        #![trigger replies[i]]
        0 <= i < network_of(job).endpoints.len() ==> u128_result(
            replies[i]->Reply_0,
            "eth_getBalance"@,
        ) == Ok::<_, RpcErrorView>(amount)
}

/// The replies begin with one from each node of the job, all of which give this result.
pub open spec fn result_confirmed(job: JobView, replies: Seq<EventView>, result: Seq<u8>) -> bool {
    &&& network_of(job).endpoints.len() <= replies.len()
    &&& forall|i: int|
        #![trigger replies[i]]
        0 <= i < network_of(job).endpoints.len() ==> call_result(replies[i]->Reply_0) == Ok::<
            _,
            RpcErrorView,
        >(result)
}

proof fn lemma_balance_after_chain(job: JobView, key: Seq<u8>, t: Seq<EventView>, r: ResponseView)
    requires
        job is Balance || job is TokenBalance,
        network_of(job).endpoints.len() > 0,
        chain_decision(job, key, t) == answered(r),
    ensures
        chain_confirmed(job, t),
        main_decision(job, key, t.skip(network_of(job).endpoints.len() as int)) == answered(r),
{
    let endpoints = network_of(job).endpoints;
    let chain = standing(endpoints, chain_answers(t))->Agreed_0;
    law_agreement_is_unanimous(endpoints, chain_answers(t), chain);
    assert forall|i: int| #![trigger t[i]] 0 <= i < endpoints.len() implies u64_result(
        t[i]->Reply_0,
        "eth_chainId"@,
    ) == Ok::<_, RpcErrorView>(chain) by {
        assert(chain_answers(t)[i] == Ok::<_, RpcErrorView>(chain));
    }
}

/// A balance is reported only if every node serves the chain that was asked for and gives
/// that balance, and it is reported together with the address of the wallet's public key.
pub proof fn law_balances_are_confirmed(
    job: JobView,
    t: Seq<EventView>,
    address: Seq<char>,
    amount: nat,
)
    requires
        job is Balance,
        network_of(job).endpoints.len() > 0,
        decision(job, None, t) == answered(ResponseView::Balance(address, amount)),
    ensures
        t.len() > 0,
        public_key_loading(t[0]->File_0) matches Ok(key) && address == address_text(key),
        chain_confirmed(job, t.skip(1)),
        balance_confirmed(job, t.skip(1 + network_of(job).endpoints.len() as int), amount),
{
    let endpoints = network_of(job).endpoints;
    let m = endpoints.len() as int;
    let response = ResponseView::Balance(address, amount);
    assert(key_decision(job, t) == answered(response)) by {
        reveal(decision);
    }
    let key = public_key_loading(t[0]->File_0)->Ok_0;
    assert(t.skip(1) =~= t.drop_first());
    lemma_balance_after_chain(job, key, t.skip(1), response);
    let rest = t.skip(1 + m);
    assert(t.skip(1).skip(m) =~= rest);
    assert(balance_decision(network_of(job), key, rest) == answered(response));
    law_agreement_is_unanimous(endpoints, balance_answers(rest), amount);
    assert forall|i: int| #![trigger rest[i]] 0 <= i < m implies u128_result(
        rest[i]->Reply_0,
        "eth_getBalance"@,
    ) == Ok::<_, RpcErrorView>(amount) by {
        assert(balance_answers(rest)[i] == Ok::<_, RpcErrorView>(amount));
    }
}

/// The converse: a balance that every node gives, on the chain that was asked for, is the one
/// that is reported.
pub proof fn law_confirmed_balances_are_reported(
    job: JobView,
    t: Seq<EventView>,
    key: Seq<u8>,
    amount: nat,
)
    requires
        job is Balance,
        network_of(job).endpoints.len() > 0,
        t.len() > 0,
        public_key_loading(t[0]->File_0) == Ok::<_, WalletError>(key),
        chain_confirmed(job, t.skip(1)),
        balance_confirmed(job, t.skip(1 + network_of(job).endpoints.len() as int), amount),
    ensures
        decision(job, None, t) == answered(ResponseView::Balance(address_text(key), amount)),
{
    let endpoints = network_of(job).endpoints;
    let m = endpoints.len() as int;
    lemma_chain_passes(job, key, t.skip(1));
    let rest = t.skip(1 + m);
    assert(t.skip(1) =~= t.drop_first());
    assert(t.skip(1).skip(m) =~= rest);
    let answers = balance_answers(rest);
    assert forall|i: int| #![trigger answers[i]] 0 <= i < m implies answers[i] == Ok::<
        _,
        RpcErrorView,
    >(amount) by {
        assert(u128_result(rest[i]->Reply_0, "eth_getBalance"@) == Ok::<_, RpcErrorView>(amount));
    }
    law_agreement_is_unanimous(endpoints, answers, amount);
    reveal(decision);
}

/// Once every node serves the chain that was asked for, the job itself goes on.
pub proof fn lemma_chain_passes(job: JobView, key: Seq<u8>, t: Seq<EventView>)
    requires
        network_of(job).endpoints.len() > 0,
        chain_confirmed(job, t),
    ensures
        chain_decision(job, key, t) == main_decision(
            job,
            key,
            t.skip(network_of(job).endpoints.len() as int),
        ),
{
    let network = network_of(job);
    let answers = chain_answers(t);
    assert forall|i: int|
        #![trigger answers[i]]
        0 <= i < network.endpoints.len() implies answers[i] == Ok::<_, RpcErrorView>(
        network.chain_id,
    ) by {
        assert(u64_result(t[i]->Reply_0, "eth_chainId"@) == Ok::<_, RpcErrorView>(
            network.chain_id,
        ));
    }
    law_agreement_is_unanimous(network.endpoints, answers, network.chain_id);
}

/// A token balance is reported only if every node serves the chain that was asked for and
/// gives the same result of `balanceOf`, which says that amount.
pub proof fn law_token_balances_are_confirmed(
    job: JobView,
    t: Seq<EventView>,
    address: Seq<char>,
    amount: nat,
)
    requires
        job is TokenBalance,
        network_of(job).endpoints.len() > 0,
        decision(job, None, t) == answered(ResponseView::Balance(address, amount)),
    ensures
        t.len() > 0,
        public_key_loading(t[0]->File_0) matches Ok(key) && address == address_text(key),
        chain_confirmed(job, t.skip(1)),
        exists|result: Seq<u8>|
            uint256_amount(result) == Some(amount) && #[trigger] result_confirmed(
                job,
                t.skip(1 + network_of(job).endpoints.len() as int),
                result,
            ),
{
    let endpoints = network_of(job).endpoints;
    let m = endpoints.len() as int;
    let response = ResponseView::Balance(address, amount);
    assert(key_decision(job, t) == answered(response)) by {
        reveal(decision);
    }
    let key = public_key_loading(t[0]->File_0)->Ok_0;
    assert(t.skip(1) =~= t.drop_first());
    lemma_balance_after_chain(job, key, t.skip(1), response);
    let rest = t.skip(1 + m);
    assert(t.skip(1).skip(m) =~= rest);
    assert(token_decision(network_of(job), job->TokenBalance_token, key, rest) == answered(
        response,
    ));
    let result = standing(endpoints, call_answers(rest))->Agreed_0;
    law_agreement_is_unanimous(endpoints, call_answers(rest), result);
    assert forall|i: int| #![trigger rest[i]] 0 <= i < m implies call_result(rest[i]->Reply_0)
        == Ok::<_, RpcErrorView>(result) by {
        assert(call_answers(rest)[i] == Ok::<_, RpcErrorView>(result));
    }
    assert(result_confirmed(job, rest, result));
}

/// The converse: a result of `balanceOf` that every node gives, on the chain that was asked
/// for, is the one that is reported, unless it says more than is handled.
pub proof fn law_confirmed_token_balances_are_reported(
    job: JobView,
    t: Seq<EventView>,
    key: Seq<u8>,
    result: Seq<u8>,
)
    requires
        job is TokenBalance,
        network_of(job).endpoints.len() > 0,
        t.len() > 0,
        public_key_loading(t[0]->File_0) == Ok::<_, WalletError>(key),
        chain_confirmed(job, t.skip(1)),
        result_confirmed(job, t.skip(1 + network_of(job).endpoints.len() as int), result),
    ensures
        decision(job, None, t) == match uint256_amount(result) {
            Some(amount) => answered(ResponseView::Balance(address_text(key), amount)),
            None => refused(RefusalView::BalanceTooLarge),
        },
{
    let endpoints = network_of(job).endpoints;
    let m = endpoints.len() as int;
    lemma_chain_passes(job, key, t.skip(1));
    let rest = t.skip(1 + m);
    assert(t.skip(1) =~= t.drop_first());
    assert(t.skip(1).skip(m) =~= rest);
    let answers = call_answers(rest);
    assert forall|i: int| #![trigger answers[i]] 0 <= i < m implies answers[i] == Ok::<
        _,
        RpcErrorView,
    >(result) by {
        assert(call_result(rest[i]->Reply_0) == Ok::<_, RpcErrorView>(result));
    }
    law_agreement_is_unanimous(endpoints, answers, result);
    reveal(decision);
}

/// A payment that is cleared goes out: with the chain and the nonce confirmed by every node, a
/// fee that is not too high and shares that sign for the wallet's key, the signed payment is
/// what is broadcast.
pub proof fn law_cleared_payments_go_out(
    job: JobView,
    t: Seq<EventView>,
    key: Seq<u8>,
    nonce: nat,
    fees: FeeSuggestion,
    shares: Seq<ShareView>,
    raw: Seq<u8>,
)
    requires
        job is Send,
        network_of(job).endpoints.len() > 0,
        cleared_for_broadcast(job, t, key, nonce, fees, shares, raw),
    ensures
        broadcasts(decision(job, None, t), raw),
{
    let endpoints = network_of(job).endpoints;
    let m = endpoints.len() as int;
    let t1 = t.skip(1);
    let t2 = t.skip(1 + m);
    let t3 = t.skip(1 + 2 * m);
    assert(t1 =~= t.drop_first());
    assert(t1.skip(m) =~= t2);
    assert(t2.skip(m) =~= t3);
    lemma_chain_passes(job, key, t1);
    let answers = nonce_answers(t2);
    assert forall|i: int| #![trigger answers[i]] 0 <= i < m implies answers[i] == Ok::<
        _,
        RpcErrorView,
    >(nonce) by {
        assert(u64_result(t2[i]->Reply_0, "eth_getTransactionCount"@) == Ok::<_, RpcErrorView>(
            nonce,
        ));
    }
    law_agreement_is_unanimous(endpoints, answers, nonce);
    assert(t3[0] == t[1 + 2 * m]);
    let t4 = t3.drop_first();
    assert(t4[0] == t[2 + 2 * m]);
    assert(key_decision(job, t) == fee_decision(job, key, nonce, t3));
    assert(t4.drop_first() =~= Seq::<EventView>::empty());
    reveal(decision);
}

/// The action is one of those that get the shares to sign with.
pub open spec fn touches_shares(action: ActionView) -> bool {
    action is ReadShare || action is GatherShares
}

proof fn lemma_shares_after_chain(job: JobView, key: Seq<u8>, t: Seq<EventView>)
    requires
        job is Send,
        network_of(job).endpoints.len() > 0,
        touches_shares(chain_decision(job, key, t)),
    ensures
        chain_confirmed(job, t),
        touches_shares(nonce_decision(job, key, t.skip(network_of(job).endpoints.len() as int))),
{
    let endpoints = network_of(job).endpoints;
    let chain = standing(endpoints, chain_answers(t))->Agreed_0;
    law_agreement_is_unanimous(endpoints, chain_answers(t), chain);
    assert forall|i: int| #![trigger t[i]] 0 <= i < endpoints.len() implies u64_result(
        t[i]->Reply_0,
        "eth_chainId"@,
    ) == Ok::<_, RpcErrorView>(chain) by {
        assert(chain_answers(t)[i] == Ok::<_, RpcErrorView>(chain));
    }
}

proof fn lemma_shares_after_nonce(job: JobView, key: Seq<u8>, t: Seq<EventView>) -> (nonce: nat)
    requires
        job is Send,
        network_of(job).endpoints.len() > 0,
        touches_shares(nonce_decision(job, key, t)),
    ensures
        nonce_confirmed(job, t, nonce),
        touches_shares(
            fee_decision(job, key, nonce, t.skip(network_of(job).endpoints.len() as int)),
        ),
{
    let endpoints = network_of(job).endpoints;
    let nonce = standing(endpoints, nonce_answers(t))->Agreed_0;
    law_agreement_is_unanimous(endpoints, nonce_answers(t), nonce);
    assert forall|i: int| #![trigger t[i]] 0 <= i < endpoints.len() implies u64_result(
        t[i]->Reply_0,
        "eth_getTransactionCount"@,
    ) == Ok::<_, RpcErrorView>(nonce) by {
        assert(nonce_answers(t)[i] == Ok::<_, RpcErrorView>(nonce));
    }
    nonce
}

proof fn lemma_shares_after_fees(job: JobView, key: Seq<u8>, nonce: nat, t: Seq<EventView>)
    requires
        job is Send,
        touches_shares(fee_decision(job, key, nonce, t)),
    ensures
        t.len() == 1,
        fee_result(t[0]->Reply_0) matches Ok(fees) && fees.max_fee_per_gas <= MAX_FEE_PER_GAS,
{
    let fees = fee_result(t[0]->Reply_0)->Ok_0;
    let tx = payment_transaction(
        network_of(job).chain_id,
        job->payment,
        job->gas_limit,
        nonce,
        fees,
    );
    let rest = t.drop_first();
    assert(shares_decision(job, key, tx, rest) == fee_decision(job, key, nonce, t));
    if rest.len() > 0 {
        let shares = signing_shares(job, rest[0])->Ok_0;
        let last = rest.drop_first();
        let signed = signed_transaction(tx, shares, key)->Ok_0;
        assert(broadcast_decision(job, signed, last) is Ask || broadcast_decision(
            job,
            signed,
            last,
        ) is Finish);
    }
}

/// Shares are touched last: before every node has confirmed the chain and the nonce, and
/// before the fee is known and is not above the ceiling, no share is read and none is asked
/// for.
pub proof fn law_shares_are_touched_last(job: JobView, t: Seq<EventView>)
    requires
        job is Send,
        network_of(job).endpoints.len() > 0,
        touches_shares(decision(job, None, t)),
    ensures
        chain_confirmed(job, t.skip(1)),
        exists|nonce: nat| #[trigger]
            nonce_confirmed(job, t.skip(1 + network_of(job).endpoints.len() as int), nonce),
        t.len() == 2 + 2 * network_of(job).endpoints.len(),
        fee_result(t[1 + 2 * network_of(job).endpoints.len() as int]->Reply_0) matches Ok(fees)
            && fees.max_fee_per_gas <= MAX_FEE_PER_GAS,
{
    let m = network_of(job).endpoints.len() as int;
    assert(touches_shares(key_decision(job, t))) by {
        reveal(decision);
    }
    let key = public_key_loading(t[0]->File_0)->Ok_0;
    assert(t.skip(1) =~= t.drop_first());
    lemma_shares_after_chain(job, key, t.skip(1));
    assert(t.skip(1).skip(m) =~= t.skip(1 + m));
    let nonce = lemma_shares_after_nonce(job, key, t.skip(1 + m));
    let rest = t.skip(1 + 2 * m);
    assert(t.skip(1 + m).skip(m) =~= rest);
    lemma_shares_after_fees(job, key, nonce, rest);
    assert(rest[0] == t[1 + 2 * m]);
}

/// Creating a wallet saves it: the local share and the public key of the new wallet are
/// written, and the answer is its address and the shares for their holders.
pub proof fn law_creating_saves_the_wallet(
    w: NewWallet,
    passphrase: Seq<char>,
    threshold: u8,
    n: u8,
)
    requires
        creation_error(passphrase, threshold, n) is None,
    ensures
        ({
            let job = JobView::Create { passphrase, threshold, n };
            let ok = EventView::Written(Ok(()));
            &&& decision(job, Some(w), seq![ok]) == ActionView::WriteShare(w.local_share@)
            &&& decision(job, Some(w), seq![ok, ok]) == ActionView::WritePublicKey(w.public_key@)
            &&& decision(job, Some(w), seq![ok, ok, ok]) == answered(
                ResponseView::Created(address_text(w.public_key@), blobs(w.external_shares@)),
            )
        }),
{
    reveal(decision);
    let ok = EventView::Written(Ok(()));
    assert(seq![ok].drop_first() =~= Seq::<EventView>::empty());
    assert(seq![ok, ok].drop_first() =~= seq![ok]);
    assert(seq![ok, ok, ok].drop_first() =~= seq![ok, ok]);
}

proof fn lemma_files_unlock(passphrase: Seq<char>, share: Seq<u8>, key: Seq<u8>)
    requires
        public_key_loading(Ok(key)) == Ok::<_, WalletError>(key),
        share_file_loading(passphrase, Ok(share)) is Ok,
    ensures
        decision(
            JobView::Unlock { passphrase },
            None,
            seq![EventView::File(Ok(share)), EventView::File(Ok(key))],
        ) == answered(ResponseView::Address(address_text(key))),
        decision(JobView::Address, None, seq![EventView::File(Ok(key))]) == answered(
            ResponseView::Address(address_text(key)),
        ),
{
    reveal(decision);
    assert(seq![EventView::File(Ok(share)), EventView::File(Ok(key))].drop_first() =~= seq![
        EventView::File(Ok(key)),
    ]);
}

/// A wallet that was created can be opened again: with the files that were written, its
/// passphrase unlocks it, and the address is the one that creating it gave.
pub proof fn law_created_wallet_unlocks(
    w: NewWallet,
    passphrase: Seq<char>,
    threshold: u8,
    n: u8,
)
    requires
        is_wallet(w, passphrase, threshold, n),
    ensures
        decision(
            JobView::Unlock { passphrase },
            None,
            seq![EventView::File(Ok(w.local_share@)), EventView::File(Ok(w.public_key@))],
        ) == answered(ResponseView::Address(address_text(w.public_key@))),
        decision(JobView::Address, None, seq![EventView::File(Ok(w.public_key@))]) == answered(
            ResponseView::Address(address_text(w.public_key@)),
        ),
{
    law_created_files_load(w, passphrase, threshold, n);
    lemma_files_unlock(passphrase, w.local_share@, w.public_key@);
}

/// A wallet that was created can be restored on another device: from exactly `threshold` of
/// the sealed shares that were handed out, in any order, importing gives the same address.
pub proof fn law_created_wallet_is_restored(
    w: NewWallet,
    passphrase: Seq<char>,
    threshold: u8,
    n: u8,
    chosen: Seq<int>,
)
    requires
        creation_error(passphrase, threshold, n) is None,
        is_wallet(w, passphrase, threshold, n),
        chosen.len() == threshold,
        chosen.no_duplicates(),
        forall|i: int|
            #![trigger chosen[i]]
            0 <= i < chosen.len() ==> 0 <= chosen[i] < w.external_shares@.len(),
    ensures
        decision(
            JobView::Import {
                passphrase,
                sealed: Seq::new(chosen.len(), |i: int| w.external_shares@[chosen[i]]@),
            },
            None,
            seq![EventView::Written(Ok(())), EventView::Written(Ok(()))],
        ) == answered(ResponseView::Address(address_text(w.public_key@))),
{
    reveal(decision);
    law_import_restores_the_wallet(w, passphrase, threshold, n, chosen);
    let ok = EventView::Written(Ok(()));
    assert(seq![ok, ok].drop_first() =~= seq![ok]);
}

} // verus!
