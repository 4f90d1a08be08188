//! What the frontend may ask for, and how a request is refused.
//!
//! A request arrives as JSON text and is taken apart into plain fields. No refusal ever
//! repeats a passphrase.

use vstd::prelude::*;
use vstd::utf8::encode_utf8;

use crate::bytes::bytes_equal;
use crate::ceremony::CeremonyError;
use crate::evm::{build_error_text, EvmBuildError, EvmCeremonyError};
use crate::json::{
    find_list, find_number, find_text, json_members, list_view, members_view, named_list,
    named_number, named_text, parse_members, text_view, Member, MemberView,
};
use crate::rpc::CrossCheckError;
use crate::rpc_evm::{rpc_error_text, RpcError, RpcErrorView};
use crate::shamir::ShamirError;
use crate::storage::StorageError;
use crate::text::{decimal, number_text, push_decimal, text2, text3};
use crate::wallet::{blobs, WalletError};

verus! {

/// The longest request that is looked at, in bytes.
pub const MAX_REQUEST_LEN: usize = 65536;

/// The highest number of shares in one request.
pub const MAX_SHARES: usize = 255;

/// The longest base64 text of a share that is looked at, in bytes.
pub const MAX_SHARE_B64_LEN: usize = 1024;

/// The gas limit of a native transfer where the request names none.
pub const TRANSFER_GAS: u64 = 21_000;

/// The gas limit of a token transfer where the request names none.
pub const TOKEN_TRANSFER_GAS: u64 = 100_000;

/// The fields of a request. A field that is missing, or of another type than expected, is
/// `None`.
#[derive(Default)]
pub struct Params {
    pub dir: Option<String>,
    pub passphrase: Option<String>,
    pub threshold: Option<u64>,
    pub n: Option<u64>,
    /// The elements of the list, `None` for one that is no text.
    pub rpc_urls: Option<Vec<Option<String>>>,
    pub chain_id: Option<u64>,
    pub token_address: Option<String>,
    pub to: Option<String>,
    pub value_wei: Option<String>,
    pub gas_limit: Option<u64>,
    /// The elements of the list, `None` for one that is no text.
    pub shares: Option<Vec<Option<String>>>,
}

/// What the fields of a request say.
#[verifier::ext_equal]
pub ghost struct ParamsView {
    pub dir: Option<Seq<char>>,
    pub passphrase: Option<Seq<char>>,
    pub threshold: Option<u64>,
    pub n: Option<u64>,
    pub rpc_urls: Option<Seq<Option<Seq<char>>>>,
    pub chain_id: Option<u64>,
    pub token_address: Option<Seq<char>>,
    pub to: Option<Seq<char>>,
    pub value_wei: Option<Seq<char>>,
    pub gas_limit: Option<u64>,
    pub shares: Option<Seq<Option<Seq<char>>>>,
}

/// What an optional list says.
pub open spec fn optional_list_view(list: Option<Vec<Option<String>>>) -> Option<
    Seq<Option<Seq<char>>>,
> {
    match list {
        Some(list) => Some(list_view(list@)),
        None => None,
    }
}

impl Params {
    pub open spec fn view(&self) -> ParamsView {
        ParamsView {
            dir: text_view(self.dir),
            passphrase: text_view(self.passphrase),
            threshold: self.threshold,
            n: self.n,
            rpc_urls: optional_list_view(self.rpc_urls),
            chain_id: self.chain_id,
            token_address: text_view(self.token_address),
            to: text_view(self.to),
            value_wei: text_view(self.value_wei),
            gas_limit: self.gas_limit,
            shares: optional_list_view(self.shares),
        }
    }
}

/// The fields that the members of an object give: each the member of its name, where that has
/// the type of the field.
pub open spec fn params_reading(members: Seq<(Seq<char>, MemberView)>) -> ParamsView {
    ParamsView {
        dir: named_text(members, "dir"@),
        passphrase: named_text(members, "passphrase"@),
        threshold: named_number(members, "threshold"@),
        n: named_number(members, "n"@),
        rpc_urls: named_list(members, "rpc_urls"@),
        chain_id: named_number(members, "chain_id"@),
        token_address: named_text(members, "token_address"@),
        to: named_text(members, "to"@),
        value_wei: named_text(members, "value_wei"@),
        gas_limit: named_number(members, "gas_limit"@),
        shares: named_list(members, "shares"@),
    }
}

/// The method that the members of a request name: empty where they name none.
pub open spec fn method_reading(members: Seq<(Seq<char>, MemberView)>) -> Seq<char> {
    match named_text(members, "method"@) {
        Some(method) => method,
        None => ""@,
    }
}

/// The fields that the members of an object give.
pub fn params_of(members: &[(String, Member)]) -> (p: Params)
    ensures
        p@ == params_reading(members_view(members@)),
{
    Params {
        dir: find_text(members, "dir"),
        passphrase: find_text(members, "passphrase"),
        threshold: find_number(members, "threshold"),
        n: find_number(members, "n"),
        rpc_urls: find_list(members, "rpc_urls"),
        chain_id: find_number(members, "chain_id"),
        token_address: find_text(members, "token_address"),
        to: find_text(members, "to"),
        value_wei: find_text(members, "value_wei"),
        gas_limit: find_number(members, "gas_limit"),
        shares: find_list(members, "shares"),
    }
}

/// The method that the members of a request name: empty where they name none.
pub fn method_of(members: &[(String, Member)]) -> (r: String)
    ensures
        r@ == method_reading(members_view(members@)),
{
    match find_text(members, "method") {
        Some(method) => method,
        None => "".to_owned(),
    }
}

/// What a request text comes to: the method and the fields, or why it is refused. One that is
/// too long is not parsed.
pub open spec fn request_reading(text: Seq<char>) -> Result<(Seq<char>, ParamsView), RefusalView> {
    if encode_utf8(text).len() > MAX_REQUEST_LEN {
        Err(RefusalView::TooLarge(encode_utf8(text).len()))
    } else {
        match json_members(text, ""@) {
            Err(e) => Err(RefusalView::Malformed(e)),
            Ok(request) => match json_members(text, "/params"@) {
                Err(e) => Err(RefusalView::Malformed(e)),
                Ok(params) => Ok((method_reading(request), params_reading(params))),
            },
        }
    }
}

/// Takes a request text apart into the method and the fields.
pub fn receive(text: &str) -> (r: Result<(String, Params), Refusal>)
    ensures
        match r {
            Ok((method, params)) => request_reading(text@) == Ok::<_, RefusalView>(
                (method@, params@),
            ),
            Err(e) => request_reading(text@) == Err::<(Seq<char>, ParamsView), _>(e@),
        },
{
    if let Err(e) = check_request_len(text.as_bytes().len()) {
        return Err(e);
    }
    let request = match parse_members(text, "") {
        Ok(members) => members,
        Err(e) => return Err(Refusal::Malformed(e)),
    };
    match parse_members(text, "/params") {
        Ok(members) => Ok((method_of(request.as_slice()), params_of(members.as_slice()))),
        Err(e) => Err(Refusal::Malformed(e)),
    }
}

/// Something is wrong with a field of a request.
#[derive(Debug, Clone, Copy, PartialEq, Eq, Structural)]
pub enum FieldError {
    MissingDir,
    MissingPassphrase,
    BadThreshold,
    BadShareCount,
    MissingRpcUrls,
    NoRpcUrls,
    BadChainId,
    MissingToken,
    BadToken,
    MissingRecipient,
    BadRecipient,
    BadValue,
    MissingShares,
    TooFewShares,
    /// How many there are.
    TooManyShares(usize),
    ShareNotText,
    /// How many bytes it has.
    ShareTooLarge(usize),
    ShareNotBase64,
}

/// A directory may not be used.
#[derive(Debug)]
pub enum SandboxError {
    /// No base directory was set.
    NoBaseDir,
    /// The directory cannot be resolved, with the system's words.
    InvalidPath(String),
    /// The base directory cannot be resolved, with the system's words.
    InvalidBasePath(String),
    /// The directory does not lie under the base directory.
    Escapes,
}

/// Why a request was not carried out.
#[derive(Debug)]
pub enum Refusal {
    /// The request is too long, with its length.
    TooLarge(usize),
    /// The request is no JSON, with the parser's words.
    Malformed(String),
    /// Carrying the request out came to a panic, with its message.
    Panicked(String),
    /// There is no such method.
    UnknownMethod(String),
    /// A field is missing or wrong.
    Field(FieldError),
    /// The directory may not be used.
    Sandbox(SandboxError),
    /// The wallet could not be created, imported or loaded.
    Wallet(WalletError),
    /// The first node gave no usable answer.
    Rpc(RpcError),
    /// The other nodes did not confirm an answer.
    CrossCheck(CrossCheckError<RpcError>),
    /// The nodes serve another chain.
    WrongChain {
        requested: u64,
        reported: u64,
    },
    /// The transaction could not be built.
    Build(EvmBuildError),
    /// The transaction could not be signed.
    Signing(EvmCeremonyError),
    /// The token balance is above what is handled.
    BalanceTooLarge,
}

/// What a sandbox error says.
#[verifier::ext_equal]
pub ghost enum SandboxErrorView {
    NoBaseDir,
    InvalidPath(Seq<char>),
    InvalidBasePath(Seq<char>),
    Escapes,
}

/// What a refusal says.
#[verifier::ext_equal]
pub ghost enum RefusalView {
    TooLarge(nat),
    Malformed(Seq<char>),
    Panicked(Seq<char>),
    UnknownMethod(Seq<char>),
    Field(FieldError),
    Sandbox(SandboxErrorView),
    Wallet(WalletError),
    Rpc(RpcErrorView),
    /// A node gave no usable answer.
    Query(Seq<char>, RpcErrorView),
    /// The first node and another one gave different answers.
    Disagreement(Seq<char>, Seq<char>),
    WrongChain(nat, nat),
    Build(EvmBuildError),
    Signing(EvmCeremonyError),
    BalanceTooLarge,
}

impl SandboxError {
    pub open spec fn view(&self) -> SandboxErrorView {
        match self {
            SandboxError::NoBaseDir => SandboxErrorView::NoBaseDir,
            SandboxError::InvalidPath(e) => SandboxErrorView::InvalidPath(e@),
            SandboxError::InvalidBasePath(e) => SandboxErrorView::InvalidBasePath(e@),
            SandboxError::Escapes => SandboxErrorView::Escapes,
        }
    }
}

impl Refusal {
    pub open spec fn view(&self) -> RefusalView {
        match self {
            Refusal::TooLarge(n) => RefusalView::TooLarge(*n as nat),
            Refusal::Malformed(e) => RefusalView::Malformed(e@),
            Refusal::Panicked(m) => RefusalView::Panicked(m@),
            Refusal::UnknownMethod(m) => RefusalView::UnknownMethod(m@),
            Refusal::Field(e) => RefusalView::Field(*e),
            Refusal::Sandbox(e) => RefusalView::Sandbox(e@),
            Refusal::Wallet(e) => RefusalView::Wallet(*e),
            Refusal::Rpc(e) => RefusalView::Rpc(e@),
            Refusal::CrossCheck(e) => cross_check_view(*e),
            Refusal::WrongChain { requested, reported } => RefusalView::WrongChain(
                *requested as nat,
                *reported as nat,
            ),
            Refusal::Build(e) => RefusalView::Build(*e),
            Refusal::Signing(e) => RefusalView::Signing(*e),
            Refusal::BalanceTooLarge => RefusalView::BalanceTooLarge,
        }
    }
}

/// What a failed cross-check says.
pub open spec fn cross_check_view(e: CrossCheckError<RpcError>) -> RefusalView {
    match e {
        CrossCheckError::Query(endpoint, e) => RefusalView::Query(endpoint.0@, e@),
        CrossCheckError::Disagreement(d) => RefusalView::Disagreement(
            d.primary.0@,
            d.disagreeing.0@,
        ),
    }
}

/// A field error in words.
pub open spec fn field_error_text(e: FieldError) -> Seq<char> {
    match e {
        FieldError::MissingDir => "missing or empty required field: dir"@,
        FieldError::MissingPassphrase => "missing required field: passphrase"@,
        FieldError::BadThreshold => "missing or out-of-range field: threshold"@,
        FieldError::BadShareCount => "missing or out-of-range field: n"@,
        FieldError::MissingRpcUrls => "missing required field: rpc_urls"@,
        FieldError::NoRpcUrls => "rpc_urls must contain at least one endpoint"@,
        FieldError::BadChainId => "missing or out-of-range field: chain_id"@,
        FieldError::MissingToken => "missing required field: token_address"@,
        FieldError::BadToken => "`token_address` must be a 0x-prefixed 20-byte address"@,
        FieldError::MissingRecipient => "missing required field: to"@,
        FieldError::BadRecipient => "`to` must be a 0x-prefixed 20-byte address"@,
        FieldError::BadValue => "missing or invalid field: value_wei (must be a decimal string)"@,
        FieldError::MissingShares => "missing required field: shares"@,
        FieldError::TooFewShares => "at least 2 shares are required to import a wallet"@,
        FieldError::TooManyShares(n) => "too many shares: "@ + decimal(n as nat)
            + " exceeds limit of "@ + decimal(MAX_SHARES as nat),
        FieldError::ShareNotText => "each share must be a base64-encoded string"@,
        FieldError::ShareTooLarge(n) => "share string too large: "@ + decimal(n as nat)
            + " bytes exceeds limit of "@ + decimal(MAX_SHARE_B64_LEN as nat),
        FieldError::ShareNotBase64 => "a share was not valid base64"@,
    }
}

/// A sandbox error in words.
pub open spec fn sandbox_error_text(e: SandboxErrorView) -> Seq<char> {
    match e {
        SandboxErrorView::NoBaseDir => "base directory not set — call set_base_dir first"@,
        SandboxErrorView::InvalidPath(e) => "invalid path: "@ + e,
        SandboxErrorView::InvalidBasePath(e) => "invalid base path: "@ + e,
        SandboxErrorView::Escapes => "path escapes the wallet sandbox"@,
    }
}

/// A storage error in words for the user, without any secret.
pub open spec fn storage_error_text(e: StorageError) -> Seq<char> {
    match e {
        StorageError::DecryptionFailed => "wrong passphrase — the passphrase you entered does not match the one used to create this wallet"@,
        StorageError::WeakPassphrase => "passphrase too short — must be at least 12 characters"@,
        StorageError::Truncated => "wallet file is corrupted or truncated"@,
        StorageError::InvalidKeyBytes => "wallet file contains invalid key data"@,
        StorageError::UnsupportedVersion(v) => "wallet file uses unsupported format version "@
            + decimal(v as nat),
        StorageError::Io(e) => "filesystem error: "@ + e@,
    }
}

/// A wallet error in words for the user, without any secret.
pub open spec fn wallet_error_text(e: WalletError) -> Seq<char> {
    match e {
        WalletError::Ceremony(_) => "invalid threshold/share configuration"@,
        WalletError::Storage(e) => storage_error_text(e),
        WalletError::Io(e) => "filesystem error: "@ + e@,
        WalletError::InvalidPublicKey => "internal error: generated an invalid public key"@,
    }
}

/// A signing error in words for the user.
pub open spec fn ceremony_error_text(e: EvmCeremonyError) -> Seq<char> {
    match e {
        EvmCeremonyError::Ceremony(_) => "signing failed: invalid or insufficient shares"@,
        EvmCeremonyError::UnrepresentableRecoveryId => "signing failed: unrepresentable recovery id (astronomically unlikely — try again)"@,
    }
}

/// A refusal in words for the user.
pub open spec fn refusal_text(e: RefusalView) -> Seq<char> {
    match e {
        RefusalView::TooLarge(n) => "request too large: "@ + decimal(n) + " bytes exceeds "@
            + decimal(MAX_REQUEST_LEN as nat) + " byte limit"@,
        RefusalView::Malformed(e) => "Failed to parse JSON: "@ + e,
        RefusalView::Panicked(m) => "internal error: "@ + m,
        RefusalView::UnknownMethod(m) => "Unknown method: "@ + m,
        RefusalView::Field(e) => field_error_text(e),
        RefusalView::Sandbox(e) => sandbox_error_text(e),
        RefusalView::Wallet(e) => wallet_error_text(e),
        RefusalView::Rpc(e) => "RPC error: "@ + rpc_error_text(e),
        RefusalView::Query(endpoint, e) => "RPC query to "@ + endpoint + " failed: "@
            + rpc_error_text(e),
        RefusalView::Disagreement(primary, other) => "RPC endpoints disagree: "@ + primary
            + " and "@ + other
            + " returned different values for the same query — refusing to proceed"@,
        RefusalView::WrongChain(requested, reported) => "chain_id "@ + decimal(requested)
            + " was requested, but the RPC endpoint(s) report chain ID "@ + decimal(reported),
        RefusalView::Build(e) => "transaction build error: "@ + build_error_text(e),
        RefusalView::Signing(e) => ceremony_error_text(e),
        RefusalView::BalanceTooLarge => "balance exceeds u128 capacity"@,
    }
}

impl FieldError {
    /// The error in words.
    pub fn text(&self) -> (r: String)
        ensures
            r@ == field_error_text(*self),
    {
        match self {
            FieldError::MissingDir => "missing or empty required field: dir".to_owned(),
            FieldError::MissingPassphrase => "missing required field: passphrase".to_owned(),
            FieldError::BadThreshold => "missing or out-of-range field: threshold".to_owned(),
            FieldError::BadShareCount => "missing or out-of-range field: n".to_owned(),
            FieldError::MissingRpcUrls => "missing required field: rpc_urls".to_owned(),
            FieldError::NoRpcUrls => "rpc_urls must contain at least one endpoint".to_owned(),
            FieldError::BadChainId => "missing or out-of-range field: chain_id".to_owned(),
            FieldError::MissingToken => "missing required field: token_address".to_owned(),
            FieldError::BadToken =>
                "`token_address` must be a 0x-prefixed 20-byte address".to_owned(),
            FieldError::MissingRecipient => "missing required field: to".to_owned(),
            FieldError::BadRecipient => "`to` must be a 0x-prefixed 20-byte address".to_owned(),
            FieldError::BadValue =>
                "missing or invalid field: value_wei (must be a decimal string)".to_owned(),
            FieldError::MissingShares => "missing required field: shares".to_owned(),
            FieldError::TooFewShares =>
                "at least 2 shares are required to import a wallet".to_owned(),
            FieldError::TooManyShares(n) => {
                let mut out = "too many shares: ".to_owned();
                push_decimal(&mut out, *n as u128);
                out.append(" exceeds limit of ");
                push_decimal(&mut out, MAX_SHARES as u128);
                out
            },
            FieldError::ShareNotText => "each share must be a base64-encoded string".to_owned(),
            FieldError::ShareTooLarge(n) => {
                let mut out = "share string too large: ".to_owned();
                push_decimal(&mut out, *n as u128);
                out.append(" bytes exceeds limit of ");
                push_decimal(&mut out, MAX_SHARE_B64_LEN as u128);
                out
            },
            FieldError::ShareNotBase64 => "a share was not valid base64".to_owned(),
        }
    }
}

impl SandboxError {
    /// The error in words.
    pub fn text(&self) -> (r: String)
        ensures
            r@ == sandbox_error_text(self@),
    {
        match self {
            SandboxError::NoBaseDir =>
                "base directory not set — call set_base_dir first".to_owned(),
            SandboxError::InvalidPath(e) => text2("invalid path: ", e.as_str()),
            SandboxError::InvalidBasePath(e) => text2("invalid base path: ", e.as_str()),
            SandboxError::Escapes => "path escapes the wallet sandbox".to_owned(),
        }
    }
}

/// A storage error in words for the user, without any secret.
pub fn describe_storage_error(e: &StorageError) -> (r: String)
    ensures
        r@ == storage_error_text(*e),
{
    match e {
        StorageError::DecryptionFailed => "wrong passphrase — the passphrase you entered does not match the one used to create this wallet".to_owned(),
        StorageError::WeakPassphrase =>
            "passphrase too short — must be at least 12 characters".to_owned(),
        StorageError::Truncated => "wallet file is corrupted or truncated".to_owned(),
        StorageError::InvalidKeyBytes => "wallet file contains invalid key data".to_owned(),
        StorageError::UnsupportedVersion(v) => {
            let mut out = "wallet file uses unsupported format version ".to_owned();
            push_decimal(&mut out, *v as u128);
            out
        },
        StorageError::Io(e) => text2("filesystem error: ", e.as_str()),
    }
}

/// A wallet error in words for the user, without any secret.
pub fn describe_wallet_error(e: &WalletError) -> (r: String)
    ensures
        r@ == wallet_error_text(*e),
{
    match e {
        WalletError::Ceremony(_) => "invalid threshold/share configuration".to_owned(),
        WalletError::Storage(e) => describe_storage_error(e),
        WalletError::Io(e) => text2("filesystem error: ", e.as_str()),
        WalletError::InvalidPublicKey =>
            "internal error: generated an invalid public key".to_owned(),
    }
}

/// A signing error in words for the user.
pub fn describe_ceremony_error(e: &EvmCeremonyError) -> (r: String)
    ensures
        r@ == ceremony_error_text(*e),
{
    match e {
        EvmCeremonyError::Ceremony(_) =>
            "signing failed: invalid or insufficient shares".to_owned(),
        EvmCeremonyError::UnrepresentableRecoveryId => "signing failed: unrepresentable recovery id (astronomically unlikely — try again)".to_owned(),
    }
}

/// A failed cross-check in words for the user.
pub fn describe_cross_check_error(e: &CrossCheckError<RpcError>) -> (r: String)
    ensures
        r@ == refusal_text(cross_check_view(*e)),
{
    match e {
        CrossCheckError::Query(endpoint, e) => {
            let mut out = text3("RPC query to ", endpoint.0.as_str(), " failed: ");
            out.append(e.text().as_str());
            out
        },
        CrossCheckError::Disagreement(d) => {
            let mut out = text3("RPC endpoints disagree: ", d.primary.0.as_str(), " and ");
            out.append(d.disagreeing.0.as_str());
            out.append(" returned different values for the same query — refusing to proceed");
            out
        },
    }
}

impl Refusal {
    /// The refusal in words for the user.
    pub fn text(&self) -> (r: String)
        ensures
            r@ == refusal_text(self@),
    {
        match self {
            Refusal::TooLarge(n) => {
                let mut out = "request too large: ".to_owned();
                push_decimal(&mut out, *n as u128);
                out.append(" bytes exceeds ");
                push_decimal(&mut out, MAX_REQUEST_LEN as u128);
                out.append(" byte limit");
                out
            },
            Refusal::Malformed(e) => text2("Failed to parse JSON: ", e.as_str()),
            Refusal::Panicked(m) => text2("internal error: ", m.as_str()),
            Refusal::UnknownMethod(m) => text2("Unknown method: ", m.as_str()),
            Refusal::Field(e) => e.text(),
            Refusal::Sandbox(e) => e.text(),
            Refusal::Wallet(e) => describe_wallet_error(e),
            Refusal::Rpc(e) => text2("RPC error: ", e.text().as_str()),
            Refusal::CrossCheck(e) => describe_cross_check_error(e),
            Refusal::WrongChain { requested, reported } => {
                let mut out = "chain_id ".to_owned();
                push_decimal(&mut out, *requested as u128);
                out.append(" was requested, but the RPC endpoint(s) report chain ID ");
                push_decimal(&mut out, *reported as u128);
                out
            },
            Refusal::Build(e) => text2("transaction build error: ", e.text().as_str()),
            Refusal::Signing(e) => describe_ceremony_error(e),
            Refusal::BalanceTooLarge => "balance exceeds u128 capacity".to_owned(),
        }
    }
}

/// The message of a panic, given its payload as each of the two types that it usually has.
/// Anything else is described by a fixed text.
pub fn describe_panic(as_str: Option<&str>, as_string: Option<&String>) -> (r: String)
    ensures
        r@ == match (as_str, as_string) {
            (Some(s), _) => s@,
            (None, Some(s)) => s@,
            (None, None) => "panicked with a non-string payload"@,
        },
{
    match as_str {
        Some(s) => s.to_owned(),
        None => match as_string {
            Some(s) => s.clone(),
            None => "panicked with a non-string payload".to_owned(),
        },
    }
}

/// Refuses a request that is too long to be looked at.
pub fn check_request_len(len: usize) -> (r: Result<(), Refusal>)
    ensures
        match r {
            Ok(_) => len <= MAX_REQUEST_LEN,
            Err(e) => len > MAX_REQUEST_LEN && e@ == RefusalView::TooLarge(len as nat),
        },
{
    if len > MAX_REQUEST_LEN {
        Err(Refusal::TooLarge(len))
    } else {
        Ok(())
    }
}

/// A resolved path as its components, or why it could not be resolved.
pub type ResolvedPath = Result<Vec<Vec<u8>>, String>;

/// The path lies under the base: it begins with the base's components.
pub open spec fn lies_under(base: Seq<Seq<u8>>, path: Seq<Seq<u8>>) -> bool {
    base.len() <= path.len() && path.take(base.len() as int) == base
}

/// Why a directory may not be used, if it may not, given the directory and the base directory
/// as they were resolved.
pub open spec fn sandbox_verdict(resolved: Option<(ResolvedPath, ResolvedPath)>) -> Option<
    SandboxErrorView,
> {
    match resolved {
        None => Some(SandboxErrorView::NoBaseDir),
        Some((Err(e), _)) => Some(SandboxErrorView::InvalidPath(e@)),
        Some((Ok(_), Err(e))) => Some(SandboxErrorView::InvalidBasePath(e@)),
        Some((Ok(dir), Ok(base))) => if lies_under(blobs(base@), blobs(dir@)) {
            None
        } else {
            Some(SandboxErrorView::Escapes)
        },
    }
}

/// Refuses a directory that does not lie under the base directory. `resolved` is what
/// resolving the directory and the base directory came to, or `None` if no base directory is
/// set.
pub fn validate_dir(resolved: Option<(ResolvedPath, ResolvedPath)>) -> (r: Result<(), Refusal>)
    ensures
        match r {
            Ok(_) => sandbox_verdict(resolved) is None,
            Err(e) => sandbox_verdict(resolved) matches Some(v) && e@ == RefusalView::Sandbox(v),
        },
{
    let (dir, base) = match resolved {
        None => return Err(Refusal::Sandbox(SandboxError::NoBaseDir)),
        Some((Err(e), _)) => return Err(Refusal::Sandbox(SandboxError::InvalidPath(e))),
        Some((Ok(_), Err(e))) => return Err(Refusal::Sandbox(SandboxError::InvalidBasePath(e))),
        Some((Ok(dir), Ok(base))) => (dir, base),
    };
    if base.len() > dir.len() {
        return Err(Refusal::Sandbox(SandboxError::Escapes));
    }
    let ghost b = blobs(base@);
    let ghost d = blobs(dir@);
    let mut i: usize = 0;
    while i < base.len()
        invariant
            i <= base@.len() <= dir@.len(),
            b == blobs(base@),
            d == blobs(dir@),
            resolved == Some((Ok::<_, String>(dir), Ok::<_, String>(base))),
            forall|j: int| 0 <= j < i ==> b[j] == d[j],
        decreases base.len() - i,
    {
        if !bytes_equal(base[i].as_slice(), dir[i].as_slice()) {
            assert(b[i as int] != d.take(b.len() as int)[i as int]);
            return Err(Refusal::Sandbox(SandboxError::Escapes));
        }
        i = i + 1;
    }
    assert(d.take(b.len() as int) =~= b);
    Ok(())
}

/// Every field of a request is the member of its own name.
pub proof fn law_fields_by_name(members: Seq<(Seq<char>, MemberView)>)
    ensures
        ({
            let p = params_reading(members);
            &&& p.dir == named_text(members, "dir"@)
            &&& p.passphrase == named_text(members, "passphrase"@)
            &&& p.threshold == named_number(members, "threshold"@)
            &&& p.n == named_number(members, "n"@)
            &&& p.rpc_urls == named_list(members, "rpc_urls"@)
            &&& p.chain_id == named_number(members, "chain_id"@)
            &&& p.token_address == named_text(members, "token_address"@)
            &&& p.to == named_text(members, "to"@)
            &&& p.value_wei == named_text(members, "value_wei"@)
            &&& p.gas_limit == named_number(members, "gas_limit"@)
            &&& p.shares == named_list(members, "shares"@)
        }),
{
}

/// A request of more than 65536 bytes is refused for its length, whatever it says; any other is
/// refused exactly if it is no JSON, and else read from its members and those of `params`.
pub proof fn law_requests_are_read(text: Seq<char>)
    ensures
        encode_utf8(text).len() > 65536 ==> request_reading(text) == Err::<
            (Seq<char>, ParamsView),
            _,
        >(RefusalView::TooLarge(encode_utf8(text).len())),
        encode_utf8(text).len() <= 65536 ==> (json_members(text, ""@) matches Err(e)
            ==> request_reading(text) == Err::<(Seq<char>, ParamsView), _>(
            RefusalView::Malformed(e),
        )),
        encode_utf8(text).len() <= 65536 && json_members(text, ""@) is Ok && json_members(
            text,
            "/params"@,
        ) is Ok ==> ({
            let request = json_members(text, ""@)->Ok_0;
            let params = json_members(text, "/params"@)->Ok_0;
            let r = request_reading(text);
            &&& r is Ok
            &&& r->Ok_0.1 == params_reading(params)
            &&& named_text(request, "method"@) matches Some(method) ==> r->Ok_0.0 == method
            &&& named_text(request, "method"@) is None ==> r->Ok_0.0.len() == 0
        }),
{
    reveal_strlit("");
}

/// A directory may be used exactly if it and the base were resolved and every component of the
/// base is the component of the directory at the same place.
pub proof fn law_only_directories_under_the_base(dir: Vec<Vec<u8>>, base: Vec<Vec<u8>>)
    ensures
        sandbox_verdict(Some((Ok(dir), Ok(base)))) is None <==> {
            &&& base@.len() <= dir@.len()
            &&& forall|i: int|
                #![trigger base@[i]]
                0 <= i < base@.len() ==> base@[i]@ == dir@[i]@
        },
        sandbox_verdict(Some((Ok(dir), Ok(base)))) is Some ==> sandbox_verdict(
            Some((Ok(dir), Ok(base))),
        ) == Some(SandboxErrorView::Escapes),
{
    let b = blobs(base@);
    let d = blobs(dir@);
    if base@.len() <= dir@.len() {
        if lies_under(b, d) {
            assert forall|i: int| #![trigger base@[i]] 0 <= i < base@.len() implies base@[i]@
                == dir@[i]@ by {
                assert(b[i] == d.take(b.len() as int)[i]);
            }
        }
        if forall|i: int| #![trigger base@[i]] 0 <= i < base@.len() ==> base@[i]@ == dir@[i]@ {
            assert(d.take(b.len() as int) =~= b);
        }
    }
}

/// A directory that does not resolve, a base that does not, and a base that is not set are
/// refused, each for what it is; the directory comes first.
pub proof fn law_unresolved_directories(words: String, base: ResolvedPath, dir: Vec<Vec<u8>>)
    ensures
        sandbox_verdict(None) == Some(SandboxErrorView::NoBaseDir),
        sandbox_verdict(Some((Err(words), base))) == Some(SandboxErrorView::InvalidPath(words@)),
        sandbox_verdict(Some((Ok(dir), Err(words)))) == Some(
            SandboxErrorView::InvalidBasePath(words@),
        ),
{
}

/// The refusals that say numbers, nodes or chains, in words.
pub proof fn law_refusals_say_what_was_wrong(
    n: nat,
    count: usize,
    first: Seq<char>,
    second: Seq<char>,
    requested: nat,
    reported: nat,
    e: RpcErrorView,
    version: u8,
)
    ensures
        refusal_text(RefusalView::TooLarge(n)) == "request too large: "@ + number_text(n, 10)
            + " bytes exceeds "@ + number_text(65536, 10) + " byte limit"@,
        refusal_text(RefusalView::Malformed(first)) == "Failed to parse JSON: "@ + first,
        refusal_text(RefusalView::Panicked(first)) == "internal error: "@ + first,
        refusal_text(RefusalView::UnknownMethod(first)) == "Unknown method: "@ + first,
        refusal_text(RefusalView::Field(FieldError::TooManyShares(count))) == "too many shares: "@
            + number_text(count as nat, 10) + " exceeds limit of "@ + number_text(255, 10),
        refusal_text(RefusalView::Field(FieldError::ShareTooLarge(count)))
            == "share string too large: "@ + number_text(count as nat, 10)
            + " bytes exceeds limit of "@ + number_text(1024, 10),
        refusal_text(RefusalView::Sandbox(SandboxErrorView::InvalidPath(first)))
            == "invalid path: "@ + first,
        refusal_text(RefusalView::Sandbox(SandboxErrorView::InvalidBasePath(first)))
            == "invalid base path: "@ + first,
        refusal_text(
            RefusalView::Wallet(WalletError::Storage(StorageError::UnsupportedVersion(version))),
        ) == "wallet file uses unsupported format version "@ + number_text(version as nat, 10),
        refusal_text(RefusalView::Rpc(e)) == "RPC error: "@ + rpc_error_text(e),
        refusal_text(RefusalView::Query(first, e)) == "RPC query to "@ + first + " failed: "@
            + rpc_error_text(e),
        refusal_text(RefusalView::Disagreement(first, second)) == "RPC endpoints disagree: "@
            + first + " and "@ + second
            + " returned different values for the same query — refusing to proceed"@,
        refusal_text(RefusalView::WrongChain(requested, reported)) == "chain_id "@ + number_text(
            requested,
            10,
        ) + " was requested, but the RPC endpoint(s) report chain ID "@ + number_text(reported, 10),
{
}

/// The refusals that say the same each time, in words.
pub proof fn law_refusals_in_fixed_words(e: ShamirError, c: CeremonyError, words: String)
    ensures
        field_error_text(FieldError::MissingDir) == "missing or empty required field: dir"@,
        field_error_text(FieldError::MissingPassphrase) == "missing required field: passphrase"@,
        field_error_text(FieldError::BadThreshold) == "missing or out-of-range field: threshold"@,
        field_error_text(FieldError::BadShareCount) == "missing or out-of-range field: n"@,
        field_error_text(FieldError::MissingRpcUrls) == "missing required field: rpc_urls"@,
        field_error_text(FieldError::NoRpcUrls) == "rpc_urls must contain at least one endpoint"@,
        field_error_text(FieldError::BadChainId) == "missing or out-of-range field: chain_id"@,
        field_error_text(FieldError::MissingToken) == "missing required field: token_address"@,
        field_error_text(FieldError::BadToken)
            == "`token_address` must be a 0x-prefixed 20-byte address"@,
        field_error_text(FieldError::MissingRecipient) == "missing required field: to"@,
        field_error_text(FieldError::BadRecipient) == "`to` must be a 0x-prefixed 20-byte address"@,
        field_error_text(FieldError::BadValue)
            == "missing or invalid field: value_wei (must be a decimal string)"@,
        field_error_text(FieldError::MissingShares) == "missing required field: shares"@,
        field_error_text(FieldError::TooFewShares)
            == "at least 2 shares are required to import a wallet"@,
        field_error_text(FieldError::ShareNotText) == "each share must be a base64-encoded string"@,
        field_error_text(FieldError::ShareNotBase64) == "a share was not valid base64"@,
        sandbox_error_text(SandboxErrorView::NoBaseDir)
            == "base directory not set — call set_base_dir first"@,
        sandbox_error_text(SandboxErrorView::Escapes) == "path escapes the wallet sandbox"@,
        storage_error_text(StorageError::DecryptionFailed)
            == "wrong passphrase — the passphrase you entered does not match the one used to create this wallet"@,
        storage_error_text(StorageError::WeakPassphrase)
            == "passphrase too short — must be at least 12 characters"@,
        storage_error_text(StorageError::Truncated) == "wallet file is corrupted or truncated"@,
        storage_error_text(StorageError::InvalidKeyBytes)
            == "wallet file contains invalid key data"@,
        wallet_error_text(WalletError::InvalidPublicKey)
            == "internal error: generated an invalid public key"@,
        ceremony_error_text(EvmCeremonyError::UnrepresentableRecoveryId)
            == "signing failed: unrepresentable recovery id (astronomically unlikely — try again)"@,
        wallet_error_text(WalletError::Ceremony(e)) == "invalid threshold/share configuration"@,
        wallet_error_text(WalletError::Io(words)) == "filesystem error: "@ + words@,
        storage_error_text(StorageError::Io(words)) == "filesystem error: "@ + words@,
        ceremony_error_text(EvmCeremonyError::Ceremony(c))
            == "signing failed: invalid or insufficient shares"@,
        refusal_text(RefusalView::BalanceTooLarge) == "balance exceeds u128 capacity"@,
{
}

/// A refusal is told in the words of what it was for.
pub proof fn law_refusals_are_told_in_full(
    field: FieldError,
    sandbox: SandboxErrorView,
    storage: StorageError,
    wallet: WalletError,
    build: EvmBuildError,
    signing: EvmCeremonyError,
)
    ensures
        refusal_text(RefusalView::Field(field)) == field_error_text(field),
        refusal_text(RefusalView::Sandbox(sandbox)) == sandbox_error_text(sandbox),
        refusal_text(RefusalView::Wallet(wallet)) == wallet_error_text(wallet),
        wallet_error_text(WalletError::Storage(storage)) == storage_error_text(storage),
        refusal_text(RefusalView::Build(build)) == "transaction build error: "@ + build_error_text(
            build,
        ),
        refusal_text(RefusalView::Signing(signing)) == ceremony_error_text(signing),
{
}

} // verus!
