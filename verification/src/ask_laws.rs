//! What is asked of whom on each job, and what every answer comes to.

use vstd::prelude::*;

use crate::bytes::be_bytes;
use crate::erc20::{
    balance_of_data, law_balance_of_data_names_the_owner, law_transfer_data_by_bytes,
    transfer_data,
};
use crate::evm::{
    address_of, checksummed_text, law_address_is_the_end_of_the_digest, signed_transaction,
    EvmBuildError,
};
use crate::evm_codec::TxView;
use crate::flow::{
    address_text, balance_answers, broadcast_decision, call_answers, chain_answers, chain_decision,
    decision, fee_decision, key_decision, main_decision, network_of, nonce_answers, nonce_decision,
    payment_transaction, shares_decision, signing_decision, ActionView, EventView, ResponseView,
};
use crate::flow_laws::{chain_confirmed, lemma_chain_passes, nonce_confirmed, signing_shares};
use crate::hash::keccak256_digest;
use crate::hex::{hex_text, quantity_reading};
use crate::job::{JobView, NetworkView, PaymentView, SignersView};
use crate::keys::sec1_uncompressed;
use crate::poll::{
    law_agreement_is_unanimous, law_first_failure_is_named, law_nodes_are_asked_in_turn, standing,
    Standing,
};
use crate::request::RefusalView;
use crate::rpc_evm::{
    broadcast_result, call_result, fee_result, law_question_forms, law_receipts_say_what_became,
    member, receipt_result, u128_result, u64_result, FeeSuggestion, OutcomeView, ParamView,
    RequestView, RpcErrorView, TransactionReceipt, ValueView,
};
use crate::storage::StorageError;
use crate::wallet::{
    creation_error, imported_key, public_key_loading, share_file_loading, NewWallet, WalletError,
};

verus! {

/// The first `n` answers are one and the same.
pub open spec fn same_answers<M>(answers: Seq<Result<M, RpcErrorView>>, n: int) -> bool {
    forall|i: int|
        #![trigger answers[i]]
        0 <= i < n ==> answers[i] is Ok && answers[i] == answers[0]
}

/// The action is the one that a round of asking all nodes comes to after these answers, as long
/// as the round is not through: the next node is asked as long as all before gave the same
/// answer; the first node that fails, or that gives another answer, ends the job and is named.
pub open spec fn goes_round<M>(
    nodes: Seq<Seq<char>>,
    question: RequestView,
    answers: Seq<Result<M, RpcErrorView>>,
    action: ActionView,
) -> bool {
    &&& answers.len() < nodes.len() && same_answers(answers, answers.len() as int) ==> action
        == ActionView::Ask(nodes[answers.len() as int], question)
    &&& forall|k: int|
        #![trigger answers[k]]
        0 <= k < nodes.len() && k < answers.len() && same_answers(answers, k) ==> match answers[k] {
            Err(e) => action == ActionView::Finish(
                Err(
                    if k == 0 {
                        RefusalView::Rpc(e)
                    } else {
                        RefusalView::Query(nodes[k], e)
                    },
                ),
            ),
            Ok(v) => k > 0 && v != answers[0]->Ok_0 ==> action == ActionView::Finish(
                Err(RefusalView::Disagreement(nodes[0], nodes[k])),
            ),
        }
}

/// A question that is put as long as the poll asks, in a job that ends as the poll fails.
proof fn lemma_goes_round<M>(
    nodes: Seq<Seq<char>>,
    question: RequestView,
    answers: Seq<Result<M, RpcErrorView>>,
    action: ActionView,
)
    requires
        nodes.len() > 0,
        standing(nodes, answers) matches Standing::Asking(k) ==> action == ActionView::Ask(
            nodes[k as int],
            question,
        ),
        standing(nodes, answers) matches Standing::Failed(e) ==> action == ActionView::Finish(
            Err(e),
        ),
    ensures
        goes_round(nodes, question, answers, action),
{
    law_nodes_are_asked_in_turn(nodes, answers, answers.len());
    assert forall|k: int|
        #![trigger answers[k]]
        0 <= k < nodes.len() && k < answers.len() && same_answers(
            answers,
            k,
        ) implies match answers[k] {
        Err(e) => action == ActionView::Finish(
            Err(
                if k == 0 {
                    RefusalView::Rpc(e)
                } else {
                    RefusalView::Query(nodes[k], e)
                },
            ),
        ),
        Ok(v) => k > 0 && v != answers[0]->Ok_0 ==> action == ActionView::Finish(
            Err(RefusalView::Disagreement(nodes[0], nodes[k])),
        ),
    } by {
        if k > 0 {
            assert(answers[0] is Ok);
        }
        law_first_failure_is_named(nodes, answers, answers[0]->Ok_0, k);
    }
}

/// The job is one that works with these nodes.
pub open spec fn works_with(job: JobView, network: NetworkView) -> bool {
    match job {
        JobView::Balance { network: n } => n == network,
        JobView::TokenBalance { network: n, .. } => n == network,
        JobView::Send { network: n, .. } => n == network,
        _ => false,
    }
}

/// Every job that works with nodes, and asking for the address, begins with the public key; a
/// key that does not load ends it.
pub proof fn law_the_key_is_read_first(job: JobView, network: NetworkView, t: Seq<EventView>)
    requires
        works_with(job, network) || job is Address,
    ensures
        t.len() == 0 ==> decision(job, None, t) == ActionView::ReadPublicKey,
        t.len() > 0 ==> (public_key_loading(t[0]->File_0) matches Err(e) ==> decision(job, None, t)
            == ActionView::Finish(Err(RefusalView::Wallet(e)))),
        t.len() > 0 && job is Address ==> (public_key_loading(t[0]->File_0) matches Ok(key)
            ==> decision(job, None, t) == ActionView::Finish(
            Ok(ResponseView::Address(address_text(key))),
        )),
{
    reveal(decision);
}

/// Next, every node is asked in turn for its chain. Where all give one and the same chain that
/// is not the one of the job, the job ends.
pub proof fn law_every_node_is_asked_for_its_chain(
    job: JobView,
    network: NetworkView,
    t: Seq<EventView>,
)
    requires
        works_with(job, network),
        network.endpoints.len() > 0,
        t.len() > 0,
        public_key_loading(t[0]->File_0) is Ok,
    ensures
        ({
            let answers = Seq::new(
                (t.len() - 1) as nat,
                |i: int| u64_result(t[i + 1]->Reply_0, "eth_chainId"@),
            );
            &&& goes_round(
                network.endpoints,
                RequestView { method: "eth_chainId"@, params: Seq::empty() },
                answers,
                decision(job, None, t),
            )
            &&& answers.len() >= network.endpoints.len() && same_answers(
                answers,
                network.endpoints.len() as int,
            ) && answers[0]->Ok_0 != network.chain_id ==> decision(job, None, t)
                == ActionView::Finish(
                Err(RefusalView::WrongChain(network.chain_id, answers[0]->Ok_0)),
            )
        }),
{
    let answers = Seq::new(
        (t.len() - 1) as nat,
        |i: int| u64_result(t[i + 1]->Reply_0, "eth_chainId"@),
    );
    let key = public_key_loading(t[0]->File_0)->Ok_0;
    let rest = t.drop_first();
    let action = decision(job, None, t);
    assert(answers =~= chain_answers(rest));
    assert(action == chain_decision(job, key, rest)) by {
        reveal(decision);
    }
    law_question_forms("eth_chainId"@, Seq::empty(), Seq::empty(), 0);
    lemma_goes_round(
        network.endpoints,
        RequestView { method: "eth_chainId"@, params: Seq::empty() },
        answers,
        action,
    );
    if answers.len() >= network.endpoints.len() && same_answers(
        answers,
        network.endpoints.len() as int,
    ) {
        assert(answers[0] is Ok);
        law_agreement_is_unanimous(network.endpoints, answers, answers[0]->Ok_0);
    }
}

proof fn lemma_past_the_chain(job: JobView, network: NetworkView, key: Seq<u8>, t: Seq<EventView>)
    requires
        works_with(job, network),
        network.endpoints.len() > 0,
        t.len() > 0,
        public_key_loading(t[0]->File_0) == Ok::<_, WalletError>(key),
        chain_confirmed(job, t.skip(1)),
    ensures
        decision(job, None, t) == main_decision(
            job,
            key,
            t.skip(1 + network.endpoints.len() as int),
        ),
{
    reveal(decision);
    assert(t.skip(1) =~= t.drop_first());
    assert(t.skip(1).skip(network.endpoints.len() as int) =~= t.skip(
        1 + network.endpoints.len() as int,
    ));
    lemma_chain_passes(job, key, t.skip(1));
}

/// For a balance, once the chain is confirmed, every node is asked in turn for the balance of
/// the wallet's own address.
pub proof fn law_every_node_is_asked_for_the_balance(
    network: NetworkView,
    key: Seq<u8>,
    t: Seq<EventView>,
)
    requires
        network.endpoints.len() > 0,
        t.len() > 0,
        public_key_loading(t[0]->File_0) == Ok::<_, WalletError>(key),
        chain_confirmed(JobView::Balance { network }, t.skip(1)),
    ensures
        ({
            let m = network.endpoints.len();
            goes_round(
                network.endpoints,
                RequestView {
                    method: "eth_getBalance"@,
                    params: seq![
                        ParamView::Text(hex_text(address_of(key))),
                        ParamView::Text("latest"@),
                    ],
                },
                Seq::new(
                    (t.len() - 1 - m) as nat,
                    |i: int| u128_result(t[1 + m + i]->Reply_0, "eth_getBalance"@),
                ),
                decision(JobView::Balance { network }, None, t),
            )
        }),
{
    let m = network.endpoints.len();
    let job = JobView::Balance { network };
    lemma_past_the_chain(job, network, key, t);
    let rest = t.skip(1 + m as int);
    let answers = Seq::new(
        (t.len() - 1 - m) as nat,
        |i: int| u128_result(t[1 + m + i]->Reply_0, "eth_getBalance"@),
    );
    assert(answers =~= balance_answers(rest));
    law_question_forms("eth_getBalance"@, address_of(key), Seq::empty(), 0);
    lemma_goes_round(
        network.endpoints,
        RequestView {
            method: "eth_getBalance"@,
            params: seq![ParamView::Text(hex_text(address_of(key))), ParamView::Text("latest"@)],
        },
        answers,
        decision(job, None, t),
    );
}

/// For a token balance, once the chain is confirmed, every node is asked in turn to call the
/// token with `balanceOf` of the wallet's own address: the four bytes of the function, twelve
/// zeros and the address.
pub proof fn law_every_node_is_asked_for_the_token_balance(
    network: NetworkView,
    token: Seq<u8>,
    key: Seq<u8>,
    t: Seq<EventView>,
)
    requires
        network.endpoints.len() > 0,
        t.len() > 0,
        public_key_loading(t[0]->File_0) == Ok::<_, WalletError>(key),
        chain_confirmed(JobView::TokenBalance { network, token }, t.skip(1)),
    ensures
        ({
            let m = network.endpoints.len();
            goes_round(
                network.endpoints,
                RequestView {
                    method: "eth_call"@,
                    params: seq![
                        ParamView::Call(
                            hex_text(token),
                            hex_text(
                                seq![
                                    0x70u8,
                                    0xa0,
                                    0x82,
                                    0x31,
                                    0,
                                    0,
                                    0,
                                    0,
                                    0,
                                    0,
                                    0,
                                    0,
                                    0,
                                    0,
                                    0,
                                    0,
                                ] + address_of(key),
                            ),
                        ),
                        ParamView::Text("latest"@),
                    ],
                },
                Seq::new(
                    (t.len() - 1 - m) as nat,
                    |i: int| call_result(t[1 + m + i]->Reply_0),
                ),
                decision(JobView::TokenBalance { network, token }, None, t),
            )
        }),
{
    let m = network.endpoints.len();
    let job = JobView::TokenBalance { network, token };
    lemma_past_the_chain(job, network, key, t);
    let rest = t.skip(1 + m as int);
    let answers = Seq::new((t.len() - 1 - m) as nat, |i: int| call_result(t[1 + m + i]->Reply_0));
    assert(answers =~= call_answers(rest));
    let data = seq![0x70u8, 0xa0, 0x82, 0x31, 0, 0, 0, 0, 0, 0, 0, 0, 0, 0, 0, 0] + address_of(key);
    law_balance_of_data_names_the_owner(address_of(key));
    law_question_forms("eth_call"@, token, data, 0);
    lemma_goes_round(
        network.endpoints,
        RequestView {
            method: "eth_call"@,
            params: seq![
                ParamView::Call(hex_text(token), hex_text(data)),
                ParamView::Text("latest"@),
            ],
        },
        answers,
        decision(job, None, t),
    );
}

/// For a payment, once the chain is confirmed, every node is asked in turn for the nonce of the
/// wallet's own address, whoever is paid.
pub proof fn law_every_node_is_asked_for_the_nonce(
    network: NetworkView,
    payment: PaymentView,
    gas_limit: nat,
    signers: SignersView,
    key: Seq<u8>,
    t: Seq<EventView>,
)
    requires
        network.endpoints.len() > 0,
        t.len() > 0,
        public_key_loading(t[0]->File_0) == Ok::<_, WalletError>(key),
        chain_confirmed(JobView::Send { network, payment, gas_limit, signers }, t.skip(1)),
    ensures
        ({
            let m = network.endpoints.len();
            goes_round(
                network.endpoints,
                RequestView {
                    method: "eth_getTransactionCount"@,
                    params: seq![
                        ParamView::Text(hex_text(address_of(key))),
                        ParamView::Text("latest"@),
                    ],
                },
                Seq::new(
                    (t.len() - 1 - m) as nat,
                    |i: int| u64_result(t[1 + m + i]->Reply_0, "eth_getTransactionCount"@),
                ),
                decision(JobView::Send { network, payment, gas_limit, signers }, None, t),
            )
        }),
{
    let m = network.endpoints.len();
    let job = JobView::Send { network, payment, gas_limit, signers };
    lemma_past_the_chain(job, network, key, t);
    let rest = t.skip(1 + m as int);
    let answers = Seq::new(
        (t.len() - 1 - m) as nat,
        |i: int| u64_result(t[1 + m + i]->Reply_0, "eth_getTransactionCount"@),
    );
    assert(answers =~= nonce_answers(rest));
    law_question_forms("eth_getTransactionCount"@, address_of(key), Seq::empty(), 0);
    lemma_goes_round(
        network.endpoints,
        RequestView {
            method: "eth_getTransactionCount"@,
            params: seq![ParamView::Text(hex_text(address_of(key))), ParamView::Text("latest"@)],
        },
        answers,
        decision(job, None, t),
    );
}

proof fn lemma_method_lengths()
    ensures
        "eth_chainId"@.len() == 11,
        "eth_call"@.len() == 8,
        "eth_getTransactionCount"@.len() == 23,
        "eth_getBlockByNumber"@.len() == 20,
        "eth_sendRawTransaction"@.len() == 22,
{
    reveal_strlit("eth_chainId");
    reveal_strlit("eth_call");
    reveal_strlit("eth_getTransactionCount");
    reveal_strlit("eth_getBlockByNumber");
    reveal_strlit("eth_sendRawTransaction");
}

/// Whenever a nonce is asked for, it is that of the wallet's own address, at the latest block:
/// the address of the public key that was read first, whatever is paid and to whom.
pub proof fn law_nonces_are_those_of_the_wallet(job: JobView, t: Seq<EventView>)
    requires
        job is Send,
        decision(job, None, t) is Ask,
        (decision(job, None, t)->Ask_1).method == "eth_getTransactionCount"@,
    ensures
        t.len() > 0,
        public_key_loading(t[0]->File_0) is Ok,
        (decision(job, None, t)->Ask_1).params == seq![
            ParamView::Text(hex_text(address_of(public_key_loading(t[0]->File_0)->Ok_0))),
            ParamView::Text("latest"@),
        ],
{
    lemma_method_lengths();
    let action = decision(job, None, t);
    assert(action == key_decision(job, t)) by {
        reveal(decision);
    }
    let key = public_key_loading(t[0]->File_0)->Ok_0;
    let network = network_of(job);
    let t1 = t.drop_first();
    assert(action == chain_decision(job, key, t1));
    let t2 = t1.skip(network.endpoints.len() as int);
    assert(action == nonce_decision(job, key, t2));
    match standing(network.endpoints, nonce_answers(t2)) {
        Standing::Agreed(nonce) => {
            let t3 = t2.skip(network.endpoints.len() as int);
            assert(action == fee_decision(job, key, nonce, t3));
            lemma_late_questions(job, key, nonce, t3);
        },
        _ => {},
    }
    law_question_forms("eth_getTransactionCount"@, address_of(key), Seq::empty(), 0);
}

/// From the fees on, what is asked is the latest block, and that a transaction be put out.
proof fn lemma_late_questions(job: JobView, key: Seq<u8>, nonce: nat, t: Seq<EventView>)
    requires
        job is Send,
        fee_decision(job, key, nonce, t) is Ask,
    ensures
        (fee_decision(job, key, nonce, t)->Ask_1).method == "eth_getBlockByNumber"@ || (
        fee_decision(job, key, nonce, t)->Ask_1).method == "eth_sendRawTransaction"@,
{
    if t.len() > 0 {
        let fees = fee_result(t[0]->Reply_0)->Ok_0;
        let tx = payment_transaction(
            network_of(job).chain_id,
            job->payment,
            job->gas_limit,
            nonce,
            fees,
        );
        let rest = t.drop_first();
        assert(fee_decision(job, key, nonce, t) == shares_decision(job, key, tx, rest));
        let shares = signing_shares(job, rest[0])->Ok_0;
        let raw = signed_transaction(tx, shares, key)->Ok_0;
        assert(fee_decision(job, key, nonce, t) == broadcast_decision(job, raw, rest.drop_first()));
    }
}

/// Whenever a contract is called for a token balance, it is the token of the job, and what is
/// called is `balanceOf` with the wallet's own address: bytes `70a08231`, twelve zeros, and the
/// address of the public key that was read first.
pub proof fn law_token_balances_are_those_of_the_wallet(
    network: NetworkView,
    token: Seq<u8>,
    t: Seq<EventView>,
)
    requires
        decision(JobView::TokenBalance { network, token }, None, t) is Ask,
        (decision(JobView::TokenBalance { network, token }, None, t)->Ask_1).method == "eth_call"@,
    ensures
        t.len() > 0,
        public_key_loading(t[0]->File_0) is Ok,
        (decision(JobView::TokenBalance { network, token }, None, t)->Ask_1).params == seq![
            ParamView::Call(
                hex_text(token),
                hex_text(
                    seq![0x70u8, 0xa0, 0x82, 0x31] + Seq::new(12, |i: int| 0u8) + address_of(
                        public_key_loading(t[0]->File_0)->Ok_0,
                    ),
                ),
            ),
            ParamView::Text("latest"@),
        ],
{
    lemma_method_lengths();
    let job = JobView::TokenBalance { network, token };
    let action = decision(job, None, t);
    assert(action == key_decision(job, t)) by {
        reveal(decision);
    }
    let key = public_key_loading(t[0]->File_0)->Ok_0;
    let t1 = t.drop_first();
    assert(action == chain_decision(job, key, t1));
    let data = seq![0x70u8, 0xa0, 0x82, 0x31] + Seq::new(12, |i: int| 0u8) + address_of(key);
    law_balance_of_data_names_the_owner(address_of(key));
    assert(balance_of_data(address_of(key)) =~= data);
    law_question_forms("eth_call"@, token, data, 0);
}

/// The transaction of a payment: native currency goes to the recipient, with nothing else in
/// it; for a token the token is called, with no native currency, to transfer the amount to the
/// recipient. Chain, nonce, fees and gas are the ones that were given.
pub proof fn law_payments_become_transactions(
    chain_id: nat,
    gas_limit: nat,
    nonce: nat,
    fees: FeeSuggestion,
    token: Seq<u8>,
    to: Seq<u8>,
    value: nat,
)
    ensures
        payment_transaction(
            chain_id,
            PaymentView::Native { to, value },
            gas_limit,
            nonce,
            fees,
        ) == (TxView {
            chain_id,
            nonce,
            max_priority_fee_per_gas: fees.max_priority_fee_per_gas as nat,
            max_fee_per_gas: fees.max_fee_per_gas as nat,
            gas_limit,
            to,
            value,
            data: Seq::empty(),
        }),
        payment_transaction(
            chain_id,
            PaymentView::Token { token, to, value },
            gas_limit,
            nonce,
            fees,
        ) == (TxView {
            chain_id,
            nonce,
            max_priority_fee_per_gas: fees.max_priority_fee_per_gas as nat,
            max_fee_per_gas: fees.max_fee_per_gas as nat,
            gas_limit,
            to: token,
            value: 0,
            data: seq![0xa9u8, 0x05, 0x9c, 0xbb] + Seq::new(12, |i: int| 0u8) + to + be_bytes(
                value,
                32,
            ),
        }),
{
    law_transfer_data_by_bytes(to, value);
    assert(transfer_data(to, value) =~= seq![0xa9u8, 0x05, 0x9c, 0xbb] + Seq::new(
        12,
        |i: int| 0u8,
    ) + to + be_bytes(value, 32));
}

proof fn lemma_past_the_nonce(
    job: JobView,
    network: NetworkView,
    key: Seq<u8>,
    nonce: nat,
    t: Seq<EventView>,
)
    requires
        job is Send,
        works_with(job, network),
        network.endpoints.len() > 0,
        t.len() > 0,
        public_key_loading(t[0]->File_0) == Ok::<_, WalletError>(key),
        chain_confirmed(job, t.skip(1)),
        nonce_confirmed(job, t.skip(1 + network.endpoints.len() as int), nonce),
    ensures
        decision(job, None, t) == fee_decision(
            job,
            key,
            nonce,
            t.skip(1 + 2 * network.endpoints.len() as int),
        ),
{
    let m = network.endpoints.len() as int;
    lemma_past_the_chain(job, network, key, t);
    let rest = t.skip(1 + m);
    let answers = nonce_answers(rest);
    assert forall|i: int| #![trigger answers[i]] 0 <= i < m implies answers[i] == Ok::<
        _,
        RpcErrorView,
    >(nonce) by {
        assert(u64_result(rest[i]->Reply_0, "eth_getTransactionCount"@) == Ok::<_, RpcErrorView>(
            nonce,
        ));
    }
    law_agreement_is_unanimous(network.endpoints, answers, nonce);
    assert(rest.skip(m) =~= t.skip(1 + 2 * m));
}

/// Once the nonce is confirmed, the first node is asked for the latest block, without its
/// transactions. A fee cap above ten thousand gwei ends the job; else the shares are got, from
/// where the job says.
#[verifier::rlimit(40)]
pub proof fn law_fees_are_asked_of_the_first_node(
    network: NetworkView,
    payment: PaymentView,
    gas_limit: nat,
    signers: SignersView,
    key: Seq<u8>,
    nonce: nat,
    t: Seq<EventView>,
)
    requires
        network.endpoints.len() > 0,
        t.len() > 0,
        public_key_loading(t[0]->File_0) == Ok::<_, WalletError>(key),
        ({
            let job = JobView::Send { network, payment, gas_limit, signers };
            &&& chain_confirmed(job, t.skip(1))
            &&& nonce_confirmed(job, t.skip(1 + network.endpoints.len() as int), nonce)
        }),
    ensures
        ({
            let m = network.endpoints.len() as int;
            let action = decision(JobView::Send { network, payment, gas_limit, signers }, None, t);
            let fees = fee_result(t[1 + 2 * m]->Reply_0);
            &&& t.len() == 1 + 2 * m ==> action == ActionView::Ask(
                network.endpoints[0],
                RequestView {
                    method: "eth_getBlockByNumber"@,
                    params: seq![ParamView::Text("latest"@), ParamView::Flag(false)],
                },
            )
            &&& t.len() >= 2 + 2 * m && fees is Err ==> action == ActionView::Finish(
                Err(RefusalView::Rpc(fees->Err_0)),
            )
            &&& t.len() >= 2 + 2 * m && fees is Ok && (fees->Ok_0).max_fee_per_gas
                > 10_000_000_000_000 ==> action == ActionView::Finish(
                Err(
                    RefusalView::Build(
                        EvmBuildError::FeeCapExceeded {
                            requested: (fees->Ok_0).max_fee_per_gas,
                            ceiling: 10_000_000_000_000,
                        },
                    ),
                ),
            )
            &&& t.len() == 2 + 2 * m && fees is Ok && (fees->Ok_0).max_fee_per_gas
                <= 10_000_000_000_000 ==> action == (if signers is Holders {
                ActionView::GatherShares
            } else {
                ActionView::ReadShare
            })
        }),
{
    let m = network.endpoints.len() as int;
    let job = JobView::Send { network, payment, gas_limit, signers };
    lemma_past_the_nonce(job, network, key, nonce, t);
    let rest = t.skip(1 + 2 * m);
    law_question_forms("eth_getBlockByNumber"@, Seq::empty(), Seq::empty(), 0);
    if rest.len() > 0 {
        assert(rest[0] == t[1 + 2 * m]);
    }
}

/// With the fees at hand and the shares got, the payment is signed with those shares for the
/// wallet's key, and the first node is asked to put it out; what that node says is the end of
/// the job. Shares that do not load or that do not sign end it before.
#[verifier::rlimit(40)]
pub proof fn law_payments_are_signed_and_put_out(
    network: NetworkView,
    payment: PaymentView,
    gas_limit: nat,
    signers: SignersView,
    key: Seq<u8>,
    nonce: nat,
    fees: FeeSuggestion,
    t: Seq<EventView>,
)
    requires
        network.endpoints.len() > 0,
        public_key_loading(t[0]->File_0) == Ok::<_, WalletError>(key),
        t.len() >= 3 + 2 * network.endpoints.len(),
        ({
            let m = network.endpoints.len() as int;
            let job = JobView::Send { network, payment, gas_limit, signers };
            &&& chain_confirmed(job, t.skip(1))
            &&& nonce_confirmed(job, t.skip(1 + m), nonce)
            &&& fee_result(t[1 + 2 * m]->Reply_0) == Ok::<_, RpcErrorView>(fees)
            &&& fees.max_fee_per_gas <= 10_000_000_000_000
        }),
    ensures
        ({
            let m = network.endpoints.len() as int;
            let job = JobView::Send { network, payment, gas_limit, signers };
            let action = decision(job, None, t);
            let shares = signing_shares(job, t[2 + 2 * m]);
            let tx = payment_transaction(network.chain_id, payment, gas_limit, nonce, fees);
            let raw = signed_transaction(tx, shares->Ok_0, key);
            let hash = broadcast_result(t[3 + 2 * m]->Reply_0);
            &&& shares is Err ==> action == ActionView::Finish(
                Err(RefusalView::Wallet(shares->Err_0)),
            )
            &&& shares is Ok && raw is Err ==> action == ActionView::Finish(
                Err(RefusalView::Signing(raw->Err_0)),
            )
            &&& shares is Ok && raw is Ok && t.len() == 3 + 2 * m ==> action == ActionView::Ask(
                network.endpoints[0],
                RequestView {
                    method: "eth_sendRawTransaction"@,
                    params: seq![ParamView::Text(hex_text(raw->Ok_0))],
                },
            )
            &&& shares is Ok && raw is Ok && t.len() == 4 + 2 * m ==> action == ActionView::Finish(
                match hash {
                    Ok(h) => Ok(ResponseView::Sent(h)),
                    Err(e) => Err(RefusalView::Rpc(e)),
                },
            )
        }),
{
    let m = network.endpoints.len() as int;
    let job = JobView::Send { network, payment, gas_limit, signers };
    lemma_past_the_nonce(job, network, key, nonce, t);
    let rest = t.skip(1 + 2 * m);
    assert(rest[0] == t[1 + 2 * m] && rest[1] == t[2 + 2 * m]);
    let tx = payment_transaction(network.chain_id, payment, gas_limit, nonce, fees);
    let rest1 = rest.drop_first();
    let action = decision(job, None, t);
    assert(action == shares_decision(job, key, tx, rest1));
    assert(rest1[0] == t[2 + 2 * m]);
    let shares = signing_shares(job, rest1[0]);
    let rest2 = rest1.drop_first();
    if shares is Ok {
        assert(action == signing_decision(job, key, tx, shares->Ok_0, rest2));
        let raw = signed_transaction(tx, shares->Ok_0, key);
        if raw is Ok {
            assert(action == broadcast_decision(job, raw->Ok_0, rest2));
            law_question_forms("eth_sendRawTransaction"@, Seq::empty(), raw->Ok_0, 0);
            if t.len() == 4 + 2 * m {
                assert(rest2[0] == t[3 + 2 * m]);
            }
        }
    }
}

/// Looking after a transaction asks one node for its receipt, and only where there is one for
/// the height of the chain.
#[verifier::rlimit(40)]
pub proof fn law_receipt_before_height(
    endpoint: Seq<char>,
    tx_hash: Seq<u8>,
    t: Seq<EventView>,
)
    ensures
        ({
            let action = decision(JobView::Status { endpoint, tx_hash }, None, t);
            let receipt = receipt_result(t[0]->Reply_0);
            let height = u64_result(t[1]->Reply_0, "eth_blockNumber"@);
            &&& t.len() == 0 ==> action == ActionView::Ask(
                endpoint,
                RequestView {
                    method: "eth_getTransactionReceipt"@,
                    params: seq![ParamView::Text(hex_text(tx_hash))],
                },
            )
            &&& t.len() > 0 && receipt is Err ==> action == ActionView::Finish(
                Err(RefusalView::Rpc(receipt->Err_0)),
            )
            &&& t.len() > 0 && receipt is Ok && receipt->Ok_0 is None ==> action
                == ActionView::Finish(Ok(ResponseView::Pending))
            &&& t.len() == 1 && receipt is Ok && receipt->Ok_0 is Some ==> action
                == ActionView::Ask(
                endpoint,
                RequestView { method: "eth_blockNumber"@, params: Seq::empty() },
            )
            &&& t.len() > 1 && receipt is Ok && receipt->Ok_0 is Some && height is Err ==> action
                == ActionView::Finish(Err(RefusalView::Rpc(height->Err_0)))
            &&& t.len() > 1 && receipt is Ok && receipt->Ok_0 is Some && height is Ok ==> action
                is Finish && action->Finish_0 is Ok && action->Finish_0->Ok_0 is Mined
        }),
{
    reveal(decision);
    law_question_forms("eth_getTransactionReceipt"@, Seq::empty(), tx_hash, 0);
    law_question_forms("eth_blockNumber"@, Seq::empty(), Seq::empty(), 0);
    if t.len() > 1 {
        assert(t.drop_first()[0] == t[1]);
    }
}

/// A transaction is reported as successful exactly if the receipt's status reads as 1, whatever
/// the height of the chain; as mined in the block that the receipt names; and as confirmed by
/// the blocks from that one up to the height, both counted, or by one block where the node's
/// height is below it. The count ends at 64 bits.
#[verifier::rlimit(40)]
pub proof fn law_mined_is_what_the_receipt_says(
    endpoint: Seq<char>,
    tx_hash: Seq<u8>,
    receipt: OutcomeView,
    height: OutcomeView,
    block: nat,
    confirmations: nat,
    success: bool,
)
    requires
        decision(
            JobView::Status { endpoint, tx_hash },
            None,
            seq![EventView::Reply(receipt), EventView::Reply(height)],
        ) == ActionView::Finish(Ok(ResponseView::Mined(block, confirmations, success))),
    ensures
        receipt is Result && receipt->Result_0 is Some,
        ({
            let v = receipt->Result_0->0;
            let status = quantity_reading(
                member(v, "status"@)->0,
                u64::MAX as nat,
                "invalid hex u64 "@,
            );
            let top = u64_result(height, "eth_blockNumber"@);
            &&& member(v, "status"@) is Some && status is Ok
            &&& success <==> status->Ok_0 == 1
            &&& member(v, "blockNumber"@) is Some
            &&& quantity_reading(
                member(v, "blockNumber"@)->0,
                u64::MAX as nat,
                "invalid hex u64 "@,
            ) == Ok::<_, Seq<char>>(block)
            &&& top is Ok
            &&& top->Ok_0 < block ==> confirmations == 1
            &&& top->Ok_0 >= block && top->Ok_0 - block < u64::MAX ==> confirmations == top->Ok_0
                - block + 1
            &&& top->Ok_0 >= block && top->Ok_0 - block >= u64::MAX ==> confirmations == u64::MAX
        }),
{
    reveal(decision);
    let t = seq![EventView::Reply(receipt), EventView::Reply(height)];
    let got = receipt_result(receipt);
    assert(t[0] == EventView::Reply(receipt));
    assert(t.drop_first()[0] == EventView::Reply(height));
    assert(got is Ok && got->Ok_0 is Some);
    law_receipts_say_what_became(receipt, got->Ok_0->0);
}

/// A transaction counts as pending exactly if the node answers `null`.
pub proof fn law_pending_is_no_receipt(endpoint: Seq<char>, tx_hash: Seq<u8>, t: Seq<EventView>)
    requires
        t.len() > 0,
    ensures
        decision(JobView::Status { endpoint, tx_hash }, None, t) == ActionView::Finish(
            Ok(ResponseView::Pending),
        ) <==> t[0]->Reply_0 == OutcomeView::Result(Some(ValueView::Null)),
{
    reveal(decision);
    law_receipts_say_what_became(t[0]->Reply_0, TransactionReceipt {
        success: true,
        block_number: 0,
    });
}

/// Creating a wallet makes the directory first; whatever cannot be written ends the job with
/// the system's words, and what cannot be created is refused before anything is written into
/// the directory.
pub proof fn law_creation_step_by_step(
    passphrase: Seq<char>,
    threshold: u8,
    n: u8,
    made: Option<NewWallet>,
    t: Seq<EventView>,
    words: String,
)
    ensures
        ({
            let action = decision(JobView::Create { passphrase, threshold, n }, made, t);
            let ok = EventView::Written(Ok(()));
            let failed = EventView::Written(Err(words));
            &&& t.len() == 0 ==> action == ActionView::CreateDir
            &&& t.len() > 0 && t[0] == failed ==> action == ActionView::Finish(
                Err(RefusalView::Wallet(WalletError::Io(words))),
            )
            &&& t.len() > 0 && t[0] == ok && creation_error(passphrase, threshold, n) is Some
                ==> action == ActionView::Finish(
                Err(RefusalView::Wallet(creation_error(passphrase, threshold, n)->0)),
            )
            &&& creation_error(passphrase, threshold, n) is None && t.len() > 1 && t[0] == ok
                && t[1] == failed ==> action == ActionView::Finish(
                Err(RefusalView::Wallet(WalletError::Storage(StorageError::Io(words)))),
            )
            &&& creation_error(passphrase, threshold, n) is None && t.len() > 2 && t[0] == ok
                && t[1] == ok && t[2] == failed ==> action == ActionView::Finish(
                Err(RefusalView::Wallet(WalletError::Io(words))),
            )
        }),
{
    reveal(decision);
    if t.len() > 1 {
        assert(t.drop_first()[0] == t[1]);
        if t.len() > 2 {
            assert(t.drop_first().drop_first()[0] == t[2]);
        }
    }
}

/// Importing a wallet makes the directory, puts the shares together, and writes the public key
/// that they give and nothing else; the answer is the address of that key.
pub proof fn law_import_step_by_step(
    passphrase: Seq<char>,
    sealed: Seq<Seq<u8>>,
    t: Seq<EventView>,
    words: String,
)
    ensures
        ({
            let action = decision(JobView::Import { passphrase, sealed }, None, t);
            let ok = EventView::Written(Ok(()));
            let failed = EventView::Written(Err(words));
            let key = imported_key(passphrase, sealed);
            &&& t.len() == 0 ==> action == ActionView::CreateDir
            &&& t.len() > 0 && t[0] == failed ==> action == ActionView::Finish(
                Err(RefusalView::Wallet(WalletError::Io(words))),
            )
            &&& t.len() > 0 && t[0] == ok && key is Err ==> action == ActionView::Finish(
                Err(RefusalView::Wallet(key->Err_0)),
            )
            &&& t.len() == 1 && t[0] == ok && key is Ok ==> action == ActionView::WritePublicKey(
                key->Ok_0,
            )
            &&& t.len() == 2 && t[0] == ok && key is Ok && t[1] == failed ==> action
                == ActionView::Finish(Err(RefusalView::Wallet(WalletError::Io(words))))
            &&& t.len() == 2 && t[0] == ok && key is Ok && t[1] == ok ==> action
                == ActionView::Finish(Ok(ResponseView::Address(address_text(key->Ok_0))))
        }),
{
    reveal(decision);
    if t.len() > 1 {
        assert(t.drop_first()[0] == t[1]);
    }
}

/// Unlocking a wallet reads the local share, which the passphrase must open, and only then the
/// public key; the answer is the address of that key.
pub proof fn law_unlocking_step_by_step(passphrase: Seq<char>, t: Seq<EventView>)
    ensures
        ({
            let action = decision(JobView::Unlock { passphrase }, None, t);
            let share = share_file_loading(passphrase, t[0]->File_0);
            let key = public_key_loading(t[1]->File_0);
            &&& t.len() == 0 ==> action == ActionView::ReadShare
            &&& t.len() > 0 && share is Err ==> action == ActionView::Finish(
                Err(RefusalView::Wallet(share->Err_0)),
            )
            &&& t.len() == 1 && share is Ok ==> action == ActionView::ReadPublicKey
            &&& t.len() > 1 && share is Ok && key is Err ==> action == ActionView::Finish(
                Err(RefusalView::Wallet(key->Err_0)),
            )
            &&& t.len() > 1 && share is Ok && key is Ok ==> action == ActionView::Finish(
                Ok(ResponseView::Address(address_text(key->Ok_0))),
            )
        }),
{
    reveal(decision);
    if t.len() > 1 {
        assert(t.drop_first()[0] == t[1]);
    }
}

/// The address that is answered is that of the key: the checksummed text of the last 20 bytes
/// of the digest of its two coordinates.
pub proof fn law_answered_addresses_are_checksummed(key: Seq<u8>)
    ensures
        address_text(key) == checksummed_text(
            keccak256_digest(sec1_uncompressed(key).skip(1)).subrange(12, 32),
        ),
{
    law_address_is_the_end_of_the_digest(key);
}

} // verus!
