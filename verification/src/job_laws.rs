//! What a request has to say for each job, and what the job then is.

use vstd::prelude::*;
use vstd::utf8::encode_utf8;

use crate::encoding::base64_bytes;
use crate::hex::address_reading;
use crate::job::{
    import_shares_field, job_reading, named_method, opening_reading, share_element, share_elements,
    share_list, signing_shares_field, text_opening, texts, Job, JobView, Method, Network, NetworkView,
    OpeningView, Payment, PaymentView, Signers, SignersView,
};
use crate::request::{request_reading, FieldError, ParamsView, RefusalView};
use crate::rpc::Endpoint;
use crate::secret::SecretText;
use crate::text::{text_number, NumberError};

verus! {

/// Each method of a wallet goes by one name, and no other name is one.
pub proof fn law_methods_by_name(name: Seq<char>)
    ensures
        named_method(name) == Some(Method::CreateWallet) <==> name == "create_wallet"@,
        named_method(name) == Some(Method::GetAddress) <==> name == "get_address"@,
        named_method(name) == Some(Method::GetBalance) <==> name == "get_balance"@,
        named_method(name) == Some(Method::UnlockWallet) <==> name == "unlock_wallet"@,
        named_method(name) == Some(Method::ImportWallet) <==> name == "import_wallet"@,
        named_method(name) == Some(Method::GetErc20Balance) <==> name == "get_erc20_balance"@,
        named_method(name) == Some(Method::SendTransaction) <==> name == "send_transaction"@,
        named_method(name) == Some(Method::SendErc20Transaction) <==> name
            == "send_erc20_transaction"@,
{
    reveal_strlit("create_wallet");
    reveal_strlit("get_address");
    reveal_strlit("get_balance");
    reveal_strlit("unlock_wallet");
    reveal_strlit("import_wallet");
    reveal_strlit("get_erc20_balance");
    reveal_strlit("send_transaction");
    reveal_strlit("send_erc20_transaction");
    assert("create_wallet"@[0] == 'c');
    assert("get_address"@[4] == 'a');
    assert("get_balance"@[4] == 'b');
    assert("unlock_wallet"@[0] == 'u');
    assert("import_wallet"@[0] == 'i');
    assert("get_erc20_balance"@.len() == 17);
    assert("send_transaction"@.len() == 16);
    assert("send_erc20_transaction"@.len() == 22);
}

/// A request is refused at once exactly if its method is unknown or its directory is missing or
/// empty; the two methods without a wallet need no directory.
pub proof fn law_requests_are_opened_by_name(method: Seq<char>, params: ParamsView)
    ensures
        ({
            let r = opening_reading(method, params);
            let plain = method == "ping"@ || method == "get_version"@;
            let dir = params.dir;
            &&& method == "ping"@ ==> r == Ok::<_, RefusalView>(OpeningView::Pong)
            &&& method == "get_version"@ ==> r == Ok::<_, RefusalView>(OpeningView::Version)
            &&& !plain && named_method(method) is None ==> r == Err::<OpeningView, _>(
                RefusalView::UnknownMethod(method),
            )
            &&& !plain && named_method(method) is Some && (dir is None || dir->0.len() == 0) ==> r
                == Err::<OpeningView, _>(RefusalView::Field(FieldError::MissingDir))
            &&& !plain && named_method(method) is Some && dir is Some && dir->0.len() > 0 ==> r
                == Ok::<_, RefusalView>(OpeningView::Enter(named_method(method)->0, dir->0))
        }),
{
    reveal_strlit("ping");
    reveal_strlit("get_version");
    assert("ping"@.len() == 4);
    assert("get_version"@.len() == 11);
}

/// The nodes of a request are the texts of its list, in their order, without what is no text.
pub proof fn law_nodes_are_the_texts(list: Seq<Option<Seq<char>>>)
    ensures
        texts(list) == list.filter(|e: Option<Seq<char>>| e is Some).map_values(
            |e: Option<Seq<char>>| e->0,
        ),
    decreases list.len(),
{
    reveal(Seq::filter);
    let is_text = |e: Option<Seq<char>>| e is Some;
    let text_of = |e: Option<Seq<char>>| e->0;
    if list.len() > 0 {
        law_nodes_are_the_texts(list.drop_last());
        let before = list.drop_last().filter(is_text);
        if list.last() is Some {
            assert(before.push(list.last()).map_values(text_of) =~= before.map_values(
                text_of,
            ).push(list.last()->0));
        }
    } else {
        assert(list.filter(is_text).map_values(text_of) =~= Seq::empty());
    }
}

/// The element of a list of shares is a text of at most 1024 bytes that is base64 for this.
pub open spec fn is_share_text(element: Option<Seq<char>>, sealed: Seq<u8>) -> bool {
    element is Some && encode_utf8(element->0).len() <= 1024 && base64_bytes(element->0) == Some(
        sealed,
    )
}

/// A list of shares is taken exactly if there are at most 255, each a base64 text of at most
/// 1024 bytes; the sealed shares are what they stand for, in the same order.
pub proof fn law_lists_of_shares(list: Seq<Option<Seq<char>>>, sealed: Seq<Seq<u8>>)
    ensures
        share_list(list) == Ok::<_, FieldError>(sealed) <==> {
            &&& list.len() <= 255
            &&& sealed.len() == list.len()
            &&& forall|i: int|
                #![trigger list[i]]
                0 <= i < list.len() ==> is_share_text(list[i], sealed[i])
        },
{
    if list.len() <= 255 {
        lemma_share_elements(list, list.len(), sealed);
    }
}

proof fn lemma_share_elements(list: Seq<Option<Seq<char>>>, k: nat, sealed: Seq<Seq<u8>>)
    requires
        k <= list.len(),
    ensures
        share_elements(list, k) == Ok::<_, FieldError>(sealed) <==> {
            &&& sealed.len() == k
            &&& forall|i: int| #![trigger list[i]] 0 <= i < k ==> is_share_text(list[i], sealed[i])
        },
    decreases k,
{
    if k == 0 {
        assert(sealed.len() == 0 ==> sealed =~= Seq::empty());
    } else {
        let n = (k - 1) as nat;
        let last = share_element(list[k - 1]);
        if share_elements(list, k) == Ok::<_, FieldError>(sealed) {
            let before = share_elements(list, n)->Ok_0;
            lemma_share_elements(list, n, before);
            assert(sealed =~= before.push(last->Ok_0));
        }
        if sealed.len() == k && forall|i: int|
            #![trigger list[i]]
            0 <= i < k ==> is_share_text(list[i], sealed[i]) {
            let before = sealed.drop_last();
            assert forall|i: int| #![trigger list[i]] 0 <= i < n implies is_share_text(
                list[i],
                before[i],
            ) by {
                assert(is_share_text(list[i], sealed[i]));
            }
            lemma_share_elements(list, n, before);
            assert(is_share_text(list[k - 1], sealed[k - 1]));
            assert(sealed =~= before.push(sealed.last()));
        }
    }
}

/// More than 255 shares are refused by their number; else the first element that is no share
/// is what the list is refused for.
pub proof fn law_refused_lists_of_shares(
    list: Seq<Option<Seq<char>>>,
    sealed: Seq<Seq<u8>>,
    k: int,
)
    requires
        list.len() <= usize::MAX,
        0 <= k < list.len(),
        sealed.len() == k,
        forall|i: int| #![trigger list[i]] 0 <= i < k ==> is_share_text(list[i], sealed[i]),
    ensures
        list.len() > 255 ==> share_list(list) == Err::<Seq<Seq<u8>>, _>(
            FieldError::TooManyShares(list.len() as usize),
        ),
        list.len() <= 255 && list[k] is None ==> share_list(list) == Err::<Seq<Seq<u8>>, _>(
            FieldError::ShareNotText,
        ),
        list.len() <= 255 && list[k] is Some && encode_utf8(list[k]->0).len() > 1024 ==> share_list(
            list,
        ) == Err::<Seq<Seq<u8>>, _>(
            FieldError::ShareTooLarge(encode_utf8(list[k]->0).len() as usize),
        ),
        list.len() <= 255 && list[k] is Some && encode_utf8(list[k]->0).len() <= 1024
            && base64_bytes(list[k]->0) is None ==> share_list(list) == Err::<Seq<Seq<u8>>, _>(
            FieldError::ShareNotBase64,
        ),
{
    lemma_share_elements(list, k as nat, sealed);
    if share_element(list[k]) is Err {
        assert(share_elements(list, (k + 1) as nat) == Err::<Seq<Seq<u8>>, _>(
            share_element(list[k])->Err_0,
        ));
        lemma_first_share_error(list, (k + 1) as nat, list.len());
    }
}

proof fn lemma_first_share_error(list: Seq<Option<Seq<char>>>, m: nat, n: nat)
    requires
        m <= n,
        share_elements(list, m) is Err,
    ensures
        share_elements(list, n) == share_elements(list, m),
    decreases n,
{
    if m < n {
        lemma_first_share_error(list, m, (n - 1) as nat);
    }
}

/// The shares to sign with may be missing, which counts as none; those to import must be there,
/// and be two at least.
pub proof fn law_shares_of_requests(params: ParamsView)
    ensures
        params.shares is None ==> signing_shares_field(params) == Ok::<_, FieldError>(
            Seq::<Seq<u8>>::empty(),
        ),
        params.shares is Some ==> signing_shares_field(params) == share_list(params.shares->0),
        params.shares is None ==> import_shares_field(params) == Err::<Seq<Seq<u8>>, _>(
            FieldError::MissingShares,
        ),
        params.shares is Some && params.shares->0.len() < 2 ==> import_shares_field(params)
            == Err::<Seq<Seq<u8>>, _>(FieldError::TooFewShares),
        params.shares is Some && params.shares->0.len() >= 2 ==> import_shares_field(params)
            == share_list(params.shares->0),
{
}

/// The request names this chain and these nodes.
pub open spec fn names_network(params: ParamsView, network: NetworkView) -> bool {
    &&& params.chain_id is Some && params.chain_id->0 as nat == network.chain_id
    &&& params.rpc_urls is Some && texts(params.rpc_urls->0) == network.endpoints
    &&& network.endpoints.len() > 0
}

/// A request for a wallet to be created names a passphrase, and a threshold and a number of
/// shares of at most 255; the first of them that is missing or too high is what it is refused
/// for.
pub proof fn law_creation_requests(params: ParamsView)
    ensures
        ({
            let r = job_reading(Method::CreateWallet, params);
            let passphrase = params.passphrase;
            let threshold_fits = params.threshold is Some && params.threshold->0 <= 255;
            let n_fits = params.n is Some && params.n->0 <= 255;
            &&& passphrase is None ==> r == Err::<JobView, _>(FieldError::MissingPassphrase)
            &&& passphrase is Some && !threshold_fits ==> r == Err::<JobView, _>(
                FieldError::BadThreshold,
            )
            &&& passphrase is Some && threshold_fits && !n_fits ==> r == Err::<JobView, _>(
                FieldError::BadShareCount,
            )
            &&& passphrase is Some && threshold_fits && n_fits ==> {
                &&& r is Ok && r->Ok_0 is Create
                &&& r->Ok_0->Create_passphrase == passphrase->0
                &&& r->Ok_0->threshold as int == params.threshold->0 as int
                &&& r->Ok_0->n as int == params.n->0 as int
            }
        }),
{
}

/// A request for the address asks for nothing more; one to unlock names the passphrase; one to
/// import names the passphrase and the shares.
pub proof fn law_requests_on_one_wallet(params: ParamsView)
    ensures
        job_reading(Method::GetAddress, params) == Ok::<_, FieldError>(JobView::Address),
        params.passphrase is None ==> job_reading(Method::UnlockWallet, params) == Err::<
            JobView,
            _,
        >(FieldError::MissingPassphrase),
        params.passphrase matches Some(passphrase) ==> job_reading(Method::UnlockWallet, params)
            == Ok::<_, FieldError>(JobView::Unlock { passphrase }),
        params.passphrase is None ==> job_reading(Method::ImportWallet, params) == Err::<
            JobView,
            _,
        >(FieldError::MissingPassphrase),
        params.passphrase matches Some(passphrase) ==> job_reading(Method::ImportWallet, params)
            == match import_shares_field(params) {
            Ok(sealed) => Ok::<JobView, FieldError>(JobView::Import { passphrase, sealed }),
            Err(e) => Err(e),
        },
{
}

/// A request for a balance names the nodes and the chain, looked for in this order.
pub proof fn law_balance_requests(params: ParamsView, network: NetworkView)
    ensures
        ({
            let r = job_reading(Method::GetBalance, params);
            let urls = params.rpc_urls;
            &&& r == Ok::<_, FieldError>(JobView::Balance { network }) <==> names_network(
                params,
                network,
            )
            &&& r is Ok ==> r->Ok_0 is Balance
            &&& urls is None ==> r == Err::<JobView, _>(FieldError::MissingRpcUrls)
            &&& urls is Some && texts(urls->0).len() == 0 ==> r == Err::<JobView, _>(
                FieldError::NoRpcUrls,
            )
            &&& urls is Some && texts(urls->0).len() > 0 && params.chain_id is None ==> r == Err::<
                JobView,
                _,
            >(FieldError::BadChainId)
        }),
{
}

/// A request for a token balance names, behind the nodes and the chain, the token.
pub proof fn law_token_balance_requests(params: ParamsView, network: NetworkView, token: Seq<u8>)
    ensures
        ({
            let r = job_reading(Method::GetErc20Balance, params);
            let urls = params.rpc_urls;
            let address = params.token_address;
            &&& r == Ok::<_, FieldError>(JobView::TokenBalance { network, token })
                <==> names_network(params, network) && address is Some && address_reading(
                address->0,
            ) == Some(token)
            &&& r is Ok ==> r->Ok_0 is TokenBalance
            &&& urls is None ==> r == Err::<JobView, _>(FieldError::MissingRpcUrls)
            &&& urls is Some && texts(urls->0).len() == 0 ==> r == Err::<JobView, _>(
                FieldError::NoRpcUrls,
            )
            &&& urls is Some && texts(urls->0).len() > 0 && params.chain_id is None ==> r == Err::<
                JobView,
                _,
            >(FieldError::BadChainId)
            &&& names_network(params, network) && address is None ==> r == Err::<JobView, _>(
                FieldError::MissingToken,
            )
            &&& names_network(params, network) && address is Some && address_reading(
                address->0,
            ) is None ==> r == Err::<JobView, _>(FieldError::BadToken)
        }),
{
}

/// The amount of a request is what its decimal text says, up to 128 bits.
pub open spec fn names_value(params: ParamsView, value: nat) -> bool {
    params.value_wei is Some && text_number(
        encode_utf8(params.value_wei->0),
        10,
        0xFFFF_FFFF_FFFF_FFFF_FFFF_FFFF_FFFF_FFFF,
    ) == Ok::<_, NumberError>(value)
}

/// A request to send native currency comes to a job exactly if it names a passphrase, a chain,
/// nodes, a recipient, an amount and, if any, good shares. The gas limit is the one that it
/// names, or 21000.
pub proof fn law_sending_requests(
    params: ParamsView,
    network: NetworkView,
    to: Seq<u8>,
    value: nat,
    passphrase: Seq<char>,
    sealed: Seq<Seq<u8>>,
    gas_limit: nat,
)
    ensures
        job_reading(Method::SendTransaction, params) == Ok::<_, FieldError>(
            JobView::Send {
                network,
                payment: PaymentView::Native { to, value },
                gas_limit,
                signers: SignersView::Stored { passphrase, sealed },
            },
        ) <==> {
            &&& params.passphrase == Some(passphrase)
            &&& names_network(params, network)
            &&& params.to is Some && address_reading(params.to->0) == Some(to)
            &&& names_value(params, value)
            &&& signing_shares_field(params) == Ok::<_, FieldError>(sealed)
            &&& params.gas_limit is Some ==> gas_limit == params.gas_limit->0
            &&& params.gas_limit is None ==> gas_limit == 21000
        },
{
}

/// A request to send a token names the token besides, and has a gas limit of 100000 where it
/// names none.
pub proof fn law_token_sending_requests(
    params: ParamsView,
    network: NetworkView,
    token: Seq<u8>,
    to: Seq<u8>,
    value: nat,
    passphrase: Seq<char>,
    sealed: Seq<Seq<u8>>,
    gas_limit: nat,
)
    ensures
        job_reading(Method::SendErc20Transaction, params) == Ok::<_, FieldError>(
            JobView::Send {
                network,
                payment: PaymentView::Token { token, to, value },
                gas_limit,
                signers: SignersView::Stored { passphrase, sealed },
            },
        ) <==> {
            &&& params.passphrase == Some(passphrase)
            &&& names_network(params, network)
            &&& params.token_address is Some && address_reading(params.token_address->0) == Some(
                token,
            )
            &&& params.to is Some && address_reading(params.to->0) == Some(to)
            &&& names_value(params, value)
            &&& signing_shares_field(params) == Ok::<_, FieldError>(sealed)
            &&& params.gas_limit is Some ==> gas_limit == params.gas_limit->0
            &&& params.gas_limit is None ==> gas_limit == 100000
        },
{
}

/// What a request to send is refused for is the first thing that is missing or wrong, in this
/// order: passphrase, chain, nodes, token if one is sent, recipient, amount, shares.
pub proof fn law_refused_sending_requests(method: Method, params: ParamsView, network: NetworkView)
    requires
        method is SendTransaction || method is SendErc20Transaction,
    ensures
        ({
            let r = job_reading(method, params);
            let urls = params.rpc_urls;
            let token = params.token_address;
            let to = params.to;
            let with_token = method is SendErc20Transaction;
            let begun = params.passphrase is Some && names_network(params, network);
            let token_fine = !with_token || (token is Some && address_reading(token->0) is Some);
            let to_fine = to is Some && address_reading(to->0) is Some;
            let value_fine = params.value_wei is Some && text_number(
                encode_utf8(params.value_wei->0),
                10,
                0xFFFF_FFFF_FFFF_FFFF_FFFF_FFFF_FFFF_FFFF,
            ) is Ok;
            &&& params.passphrase is None ==> r == Err::<JobView, _>(FieldError::MissingPassphrase)
            &&& params.passphrase is Some && params.chain_id is None ==> r == Err::<JobView, _>(
                FieldError::BadChainId,
            )
            &&& params.passphrase is Some && params.chain_id is Some && urls is None ==> r == Err::<
                JobView,
                _,
            >(FieldError::MissingRpcUrls)
            &&& params.passphrase is Some && params.chain_id is Some && urls is Some && texts(
                urls->0,
            ).len() == 0 ==> r == Err::<JobView, _>(FieldError::NoRpcUrls)
            &&& begun && with_token && token is None ==> r == Err::<JobView, _>(
                FieldError::MissingToken,
            )
            &&& begun && with_token && token is Some && address_reading(token->0) is None ==> r
                == Err::<JobView, _>(FieldError::BadToken)
            &&& begun && token_fine && to is None ==> r == Err::<JobView, _>(
                FieldError::MissingRecipient,
            )
            &&& begun && token_fine && to is Some && address_reading(to->0) is None ==> r == Err::<
                JobView,
                _,
            >(FieldError::BadRecipient)
            &&& begun && token_fine && to_fine && !value_fine ==> r == Err::<JobView, _>(
                FieldError::BadValue,
            )
            &&& begun && token_fine && to_fine && value_fine ==> (signing_shares_field(
                params,
            ) matches Err(e) ==> r == Err::<JobView, _>(e))
        }),
{
}

/// A job says what stands in it: the same passphrase, numbers, addresses, bytes and nodes.
pub proof fn law_jobs_say_their_fields(
    network: Network,
    to: [u8; 20],
    token: [u8; 20],
    value: u128,
    gas_limit: u64,
    passphrase: SecretText,
    sealed: Vec<Vec<u8>>,
    endpoint: Endpoint,
    tx_hash: [u8; 32],
    i: int,
)
    ensures
        network@.chain_id == network.chain_id,
        network@.endpoints.len() == network.endpoints@.len(),
        0 <= i < network.endpoints@.len() ==> network@.endpoints[i] == network.endpoints@[i].0@,
        (Payment::Native { to, value })@ == (PaymentView::Native { to: to@, value: value as nat }),
        (Payment::Token { token, to, value })@ == (PaymentView::Token {
            token: token@,
            to: to@,
            value: value as nat,
        }),
        (Job::Import { passphrase, sealed })@ is Import,
        (Job::Import { passphrase, sealed })@->Import_passphrase == passphrase@,
        (Job::Import { passphrase, sealed })@->Import_sealed.len() == sealed@.len(),
        0 <= i < sealed@.len() ==> (Job::Import { passphrase, sealed })@->Import_sealed[i]
            == sealed@[i]@,
        (Job::TokenBalance { network, token })@ == (JobView::TokenBalance {
            network: network@,
            token: token@,
        }),
        (Job::Send {
            network,
            payment: Payment::Native { to, value },
            gas_limit,
            signers: Signers::Stored { passphrase, sealed },
        })@ == (JobView::Send {
            network: network@,
            payment: PaymentView::Native { to: to@, value: value as nat },
            gas_limit: gas_limit as nat,
            signers: (Signers::Stored { passphrase, sealed })@,
        }),
        (Job::Status { endpoint, tx_hash })@ == (JobView::Status {
            endpoint: endpoint.0@,
            tx_hash: tx_hash@,
        }),
{
}

/// A request text comes to what its method and its fields come to, and the fields go with it.
pub proof fn law_texts_are_opened(text: Seq<char>)
    ensures
        request_reading(text) matches Err(e) ==> text_opening(text) == Err::<
            (OpeningView, ParamsView),
            _,
        >(e),
        request_reading(text) matches Ok((method, params)) ==> {
            &&& opening_reading(method, params) matches Err(e) ==> text_opening(text) == Err::<
                (OpeningView, ParamsView),
                _,
            >(e)
            &&& opening_reading(method, params) matches Ok(opening) ==> text_opening(text) == Ok::<
                _,
                RefusalView,
            >((opening, params))
        },
{
}

} // verus!
