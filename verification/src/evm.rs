//! EVM addresses, and building and signing of EIP-1559 transactions.
//!
//! A wallet has one key and so one address.

use vstd::prelude::*;

use crate::ceremony::{ceremony_recoverable_signature, sign_with_shares_recoverable, CeremonyError};
use crate::decoder::{DecodedTransaction, TransferView};
use crate::evm_codec::{
    encode_signed, encode_unsigned, law_decode_inverts_encode, law_wire_forms, numbers_fit,
    signed_decoding, signed_encoding, transfer_items, unsigned_encoding, SignedEip1559Tx,
    SignedTxView, TxView, UnsignedEip1559Tx,
};
use crate::hash::{keccak256, keccak256_digest};
use crate::keys::{
    ecdsa_recoverable_signature, ecdsa_recovered, ecdsa_verifies, sec1_uncompressed, PublicKey,
};
use crate::policy::{
    after_approval, verdict, DenialReason, PolicyDecision, PolicyEngine, PolicyState, Verdict,
};
use crate::rlp::{rlp_list, rlp_string, rlp_uint};
use crate::shamir::{verified_reconstruction, views, Share, ShareView};
use crate::text::{digit_char, digit_value, to_digit_char};
use crate::time::Timestamp;

verus! {

/// The address of a public key: the last 20 bytes of the Keccak-256 digest of its two
/// coordinates.
pub open spec fn address_of(public_key: Seq<u8>) -> Seq<u8> {
    keccak256_digest(sec1_uncompressed(public_key).skip(1)).subrange(12, 32)
}

/// The address of a public key.
pub fn address_from_public_key(public_key: &PublicKey) -> (r: [u8; 20])
    ensures
        r@ == address_of(public_key@),
        r@ == keccak256_digest(sec1_uncompressed(public_key@).skip(1)).subrange(12, 32),
{
    let uncompressed = public_key.to_uncompressed_sec1_bytes();
    let coordinates: [u8; 64] = crate::bytes::array_at::<64>(&uncompressed, 1);
    assert(coordinates@ =~= uncompressed@.skip(1));
    let hash = keccak256(&coordinates);
    crate::bytes::array_at::<20>(&hash, 12)
}

/// The hexadecimal digits of an address in lower case, as ASCII.
pub open spec fn lower_digits(address: Seq<u8>) -> Seq<u8> {
    Seq::new(40, |i: int| digit_char(nibble(address, i)) as u8)
}

/// The `i`-th group of four bits, the high one of each byte first.
pub open spec fn nibble(bytes: Seq<u8>, i: int) -> int {
    if i % 2 == 0 {
        bytes[i / 2] as int / 16
    } else {
        bytes[i / 2] as int % 16
    }
}

/// A digit below 16, with a letter in upper case.
pub open spec fn upper_digit_char(d: int) -> char {
    if d < 10 {
        (48 + d) as char
    } else {
        (55 + d) as char
    }
}

/// The EIP-55 text of an address: its hexadecimal digits, where the letter in place `i` is in
/// upper case if the `i`-th four bits of the digest of the lower-case digits are 8 or more.
pub open spec fn checksummed_text(address: Seq<u8>) -> Seq<char> {
    seq!['0', 'x'] + Seq::new(
        40,
        |i: int|
            if nibble(keccak256_digest(lower_digits(address)), i) >= 8 {
                upper_digit_char(nibble(address, i))
            } else {
                digit_char(nibble(address, i))
            },
    )
}

/// The `i`-th group of four bits.
fn nibble_at(bytes: &[u8], i: usize) -> (r: u8)
    requires
        i / 2 < bytes@.len(),
    ensures
        r == nibble(bytes@, i as int),
        r < 16,
{
    let b: u8 = bytes[i / 2];
    if i % 2 == 0 {
        b / 16
    } else {
        b % 16
    }
}

/// The address with a checksum in the case of its letters: a mistyped address is very
/// likely to have a wrong one.
pub fn to_checksummed_hex(address: &[u8; 20]) -> (r: String)
    ensures
        r@ == checksummed_text(address@),
{
    let mut lower: [u8; 40] = [0u8; 40];
    let mut i: usize = 0;
    while i < 40
        invariant
            i <= 40,
            forall|j: int| 0 <= j < i ==> lower@[j] == digit_char(nibble(address@, j)) as u8,
        decreases 40 - i,
    {
        let d: u8 = nibble_at(address, i);
        lower[i] = if d < 10 {
            48 + d
        } else {
            87 + d
        };
        i = i + 1;
    }
    assert(lower@ =~= lower_digits(address@));
    let hash = keccak256(&lower);
    let mut out = String::new();
    out.push('0');
    out.push('x');
    let mut i: usize = 0;
    proof {
        assert(out@ =~= checksummed_text(address@).take(2));
    }
    while i < 40
        invariant
            i <= 40,
            hash@ == keccak256_digest(lower_digits(address@)),
            out@ == checksummed_text(address@).take(2 + i),
        decreases 40 - i,
    {
        let d: u8 = nibble_at(address, i);
        let c: char = if d >= 10 && nibble_at(&hash, i) >= 8 {
            (55 + d) as char
        } else {
            to_digit_char(d)
        };
        out.push(c);
        i = i + 1;
        assert(out@ =~= checksummed_text(address@).take(2 + i));
    }
    assert(checksummed_text(address@).take(42) =~= checksummed_text(address@));
    out
}

/// The highest fee per gas that is ever signed for, in wei: 10,000 gwei, far above what a
/// transaction ever needed. A node cannot drain the wallet through fees.
pub const MAX_FEE_PER_GAS: u128 = 10_000_000_000_000;

/// Why a transaction could not be built.
#[derive(Debug, Clone, Copy, PartialEq, Eq, Structural)]
pub enum EvmBuildError {
    /// The fee is above `MAX_FEE_PER_GAS`.
    FeeCapExceeded {
        /// The fee that was asked for, in wei.
        requested: u128,
        /// The highest fee that is allowed, in wei.
        ceiling: u128,
    },
}

/// What a build error says.
pub open spec fn build_error_text(e: EvmBuildError) -> Seq<char> {
    match e {
        EvmBuildError::FeeCapExceeded { requested, ceiling } => "max_fee_per_gas "@
            + crate::text::decimal(requested as nat) + " wei exceeds the hard ceiling of "@
            + crate::text::decimal(ceiling as nat) + " wei"@,
    }
}

impl EvmBuildError {
    pub fn text(&self) -> (r: String)
        ensures
            r@ == build_error_text(*self),
    {
        match self {
            EvmBuildError::FeeCapExceeded { requested, ceiling } => {
                let mut out = "max_fee_per_gas ".to_owned();
                crate::text::push_decimal(&mut out, *requested);
                out.append(" wei exceeds the hard ceiling of ");
                crate::text::push_decimal(&mut out, *ceiling);
                out.append(" wei");
                out
            },
        }
    }
}

/// Builds a native-currency transfer. Where nonce and fees come from is the caller's
/// business.
pub fn build_unsigned_transfer(
    chain_id: u64,
    to: [u8; 20],
    value: u128,
    nonce: u64,
    max_fee_per_gas: u128,
    max_priority_fee_per_gas: u128,
    gas_limit: u64,
) -> (r: Result<UnsignedEip1559Tx, EvmBuildError>)
    ensures
        r is Ok <==> max_fee_per_gas <= 10_000_000_000_000,
        match r {
            Ok(tx) => max_fee_per_gas <= MAX_FEE_PER_GAS && tx@ == (TxView {
                chain_id: chain_id as nat,
                nonce: nonce as nat,
                max_priority_fee_per_gas: max_priority_fee_per_gas as nat,
                max_fee_per_gas: max_fee_per_gas as nat,
                gas_limit: gas_limit as nat,
                to: to@,
                value: value as nat,
                data: Seq::empty(),
            }),
            Err(e) => max_fee_per_gas > MAX_FEE_PER_GAS && e == (EvmBuildError::FeeCapExceeded {
                requested: max_fee_per_gas,
                ceiling: MAX_FEE_PER_GAS,
            }),
        },
{
    build_unsigned_contract_call(
        chain_id,
        to,
        value,
        Vec::new(),
        nonce,
        max_fee_per_gas,
        max_priority_fee_per_gas,
        gas_limit,
    )
}

/// Builds a contract call.
pub fn build_unsigned_contract_call(
    chain_id: u64,
    to: [u8; 20],
    value: u128,
    data: Vec<u8>,
    nonce: u64,
    max_fee_per_gas: u128,
    max_priority_fee_per_gas: u128,
    gas_limit: u64,
) -> (r: Result<UnsignedEip1559Tx, EvmBuildError>)
    ensures
        r is Ok <==> max_fee_per_gas <= 10_000_000_000_000,
        match r {
            Ok(tx) => max_fee_per_gas <= MAX_FEE_PER_GAS && tx@ == (TxView {
                chain_id: chain_id as nat,
                nonce: nonce as nat,
                max_priority_fee_per_gas: max_priority_fee_per_gas as nat,
                max_fee_per_gas: max_fee_per_gas as nat,
                gas_limit: gas_limit as nat,
                to: to@,
                value: value as nat,
                data: data@,
            }),
            Err(e) => max_fee_per_gas > MAX_FEE_PER_GAS && e == (EvmBuildError::FeeCapExceeded {
                requested: max_fee_per_gas,
                ceiling: MAX_FEE_PER_GAS,
            }),
        },
{
    if max_fee_per_gas > MAX_FEE_PER_GAS {
        return Err(
            EvmBuildError::FeeCapExceeded { requested: max_fee_per_gas, ceiling: MAX_FEE_PER_GAS },
        );
    }
    Ok(
        UnsignedEip1559Tx {
            chain_id,
            nonce,
            max_priority_fee_per_gas,
            max_fee_per_gas,
            gas_limit,
            to,
            value,
            data,
        },
    )
}

/// The digest that is signed for a transaction.
pub open spec fn signing_digest(tx: TxView) -> Seq<u8> {
    keccak256_digest(unsigned_encoding(tx))
}

/// The digest that is signed for a transaction.
#[must_use]
pub fn hash_for_signing(tx: &UnsignedEip1559Tx) -> (r: [u8; 32])
    requires
        tx.data@.len() <= isize::MAX,
    ensures
        r@ == signing_digest(tx@),
        r@ == keccak256_digest(seq![0x02u8] + rlp_list(transfer_items(tx@))),
{
    keccak256(encode_unsigned(tx).as_slice())
}

/// Why a transaction could not be signed.
#[derive(Debug, PartialEq, Eq, Structural)]
pub enum EvmCeremonyError {
    /// The ceremony failed.
    Ceremony(CeremonyError),
    /// The recovery id has the bit set that the parity field cannot express. Practically
    /// impossible; kept so that no transaction goes out whose sender is wrong.
    UnrepresentableRecoveryId,
}

/// Why a transaction was not signed under a policy.
#[derive(Debug, PartialEq, Eq, Structural)]
pub enum EvmSigningError {
    /// The policy denies it. The key is never put together.
    Denied(DenialReason),
    /// The policy holds it back.
    Queued {
        /// The earliest time at which it may be submitted again.
        release_at: Timestamp,
    },
    /// The policy approves, but the ceremony failed. Nothing is recorded.
    Ceremony(EvmCeremonyError),
}

/// The broadcast form of a transaction that the shares sign, or why they do not.
pub open spec fn signed_transaction(
    tx: TxView,
    shares: Seq<ShareView>,
    expected: Seq<u8>,
) -> Result<Seq<u8>, EvmCeremonyError> {
    match ceremony_recoverable_signature(shares, expected, signing_digest(tx)) {
        Err(e) => Err(EvmCeremonyError::Ceremony(e)),
        Ok((sig, id)) => if id >= 2 {
            Err(EvmCeremonyError::UnrepresentableRecoveryId)
        } else {
            Ok(
                signed_encoding(
                    SignedTxView {
                        tx,
                        y_parity: id,
                        r: sig.subrange(0, 32),
                        s: sig.subrange(32, 64),
                    },
                ),
            )
        },
    }
}

/// The signature in a signed transaction verifies under the public key and recovers to it.
pub open spec fn is_validly_signed(signed: SignedTxView, public_key: Seq<u8>) -> bool {
    let digest = signing_digest(signed.tx);
    &&& signed.y_parity <= 1
    &&& signed.r.len() == 32
    &&& signed.s.len() == 32
    &&& ecdsa_verifies(public_key, digest, signed.r + signed.s)
    &&& ecdsa_recovered(digest, signed.r + signed.s, signed.y_parity) == Some(public_key)
}

/// The bytes are the wire form of the transaction with a signature that verifies under the
/// public key and recovers to it.
pub open spec fn carries_valid_signature(raw: Seq<u8>, tx: TxView, public_key: Seq<u8>) -> bool {
    exists|signed: SignedTxView| #[trigger]
        signed_encoding(signed) == raw && signed.tx == tx && is_validly_signed(signed, public_key)
}

/// The bytes decode to the transaction with a signature that verifies under the public key
/// and recovers to it.
pub open spec fn decodes_validly_signed(raw: Seq<u8>, tx: TxView, public_key: Seq<u8>) -> bool {
    signed_decoding(raw) matches Ok(signed) && signed.tx == tx && is_validly_signed(
        signed,
        public_key,
    )
}

/// What a validly signed transfer puts on the wire decodes to that transfer and its
/// signature.
pub proof fn law_signed_transfers_decode(raw: Seq<u8>, tx: TxView, public_key: Seq<u8>)
    requires
        numbers_fit(tx),
        tx.data.len() == 0,
        carries_valid_signature(raw, tx, public_key),
    ensures
        decodes_validly_signed(raw, tx, public_key),
{
    let signed = choose|signed: SignedTxView| #[trigger]
        signed_encoding(signed) == raw && signed.tx == tx && is_validly_signed(signed, public_key);
    law_decode_inverts_encode(signed);
}

/// Shares that combine to the wallet's key sign every transaction for which the key has a
/// signature, to whatever destination: the one thing that can still stand in the way is a
/// recovery id that the format cannot express. Shares that do not combine sign nothing.
pub proof fn law_combining_shares_sign(tx: TxView, shares: Seq<ShareView>, expected: Seq<u8>)
    ensures
        match verified_reconstruction(shares, expected) {
            Err(e) => signed_transaction(tx, shares, expected) == Err::<Seq<u8>, _>(
                EvmCeremonyError::Ceremony(CeremonyError::Reconstruction(e)),
            ),
            Ok(key) => ecdsa_recoverable_signature(key, signing_digest(tx)) is Some ==> {
                ||| signed_transaction(tx, shares, expected) is Ok
                ||| signed_transaction(tx, shares, expected) == Err::<Seq<u8>, _>(
                    EvmCeremonyError::UnrepresentableRecoveryId,
                )
            },
        },
{
}

fn sign_and_encode(tx: UnsignedEip1559Tx, shares: &[Share], expected_public_key: &PublicKey) -> (r:
    Result<Vec<u8>, EvmCeremonyError>)
    requires
        tx.data@.len() <= isize::MAX,
    ensures
        match r {
            Ok(raw) => {
                &&& signed_transaction(tx@, views(shares@), expected_public_key@) == Ok::<
                    _,
                    EvmCeremonyError,
                >(raw@)
                &&& carries_valid_signature(raw@, tx@, expected_public_key@)
                &&& tx@.data.len() == 0 ==> decodes_validly_signed(
                    raw@,
                    tx@,
                    expected_public_key@,
                )
            },
            Err(e) => signed_transaction(tx@, views(shares@), expected_public_key@) == Err::<
                Seq<u8>,
                _,
            >(e),
        },
{
    let ghost view = tx@;
    let digest = hash_for_signing(&tx);
    let (signature, recovery_id) = match sign_with_shares_recoverable(
        shares,
        expected_public_key,
        &digest,
    ) {
        Ok(x) => x,
        Err(e) => return Err(EvmCeremonyError::Ceremony(e)),
    };
    let id: u8 = recovery_id.to_byte();
    if id >= 2 {
        return Err(EvmCeremonyError::UnrepresentableRecoveryId);
    }
    let sig_bytes = signature.to_bytes();
    let r: [u8; 32] = crate::bytes::array_at::<32>(&sig_bytes, 0);
    let s: [u8; 32] = crate::bytes::array_at::<32>(&sig_bytes, 32);
    assert(tx.data.len() == tx.data@.len());
    let signed = SignedEip1559Tx { tx, y_parity: id, r, s };
    let raw = encode_signed(&signed);
    proof {
        assert(numbers_fit(signed.tx@));
        assert(r@ + s@ =~= signature@);
        assert(signed_encoding(signed@) == raw@ && is_validly_signed(signed@, expected_public_key@));
        if view.data.len() == 0 {
            law_signed_transfers_decode(raw@, view, expected_public_key@);
        }
    }
    Ok(raw)
}

/// Signs a transaction without any spending policy. This is for callers that keep no policy
/// state from one call to the next: to a fresh engine every destination is new.
pub fn sign_evm_transfer(
    tx: UnsignedEip1559Tx,
    shares: &[Share],
    expected_public_key: &PublicKey,
) -> (r: Result<Vec<u8>, EvmCeremonyError>)
    requires
        tx.data@.len() <= isize::MAX,
    ensures
        match r {
            Ok(raw) => {
                &&& signed_transaction(tx@, views(shares@), expected_public_key@) == Ok::<
                    _,
                    EvmCeremonyError,
                >(raw@)
                &&& carries_valid_signature(raw@, tx@, expected_public_key@)
                &&& tx@.data.len() == 0 ==> decodes_validly_signed(
                    raw@,
                    tx@,
                    expected_public_key@,
                )
            },
            Err(e) => signed_transaction(tx@, views(shares@), expected_public_key@) == Err::<
                Seq<u8>,
                _,
            >(e),
        },
        verified_reconstruction(views(shares@), expected_public_key@) matches Ok(key)
            && ecdsa_recoverable_signature(key, signing_digest(tx@)) is Some ==> r is Ok || r
            == Err::<Vec<u8>, _>(EvmCeremonyError::UnrepresentableRecoveryId),
{
    sign_and_encode(tx, shares, expected_public_key)
}

/// What a transaction means to the spending policy.
pub open spec fn policy_view(tx: TxView) -> TransferView {
    TransferView { chain_id: tx.chain_id, to: tx.to, value: tx.value }
}

/// What comes of a transaction under a policy: the result, and the state of the policy
/// afterwards. Only a signed transaction is recorded.
pub open spec fn guarded_signing(
    tx: TxView,
    shares: Seq<ShareView>,
    expected: Seq<u8>,
    policy: PolicyState,
    now: int,
) -> (GuardedOutcome, PolicyState) {
    match verdict(policy, policy_view(tx), now) {
        Verdict::Denied(reason) => (GuardedOutcome::Denied(reason), policy),
        Verdict::Queued(release_at) => (GuardedOutcome::Queued(release_at), policy),
        Verdict::Approved => match signed_transaction(tx, shares, expected) {
            Err(e) => (GuardedOutcome::Failed(e), policy),
            Ok(raw) => (
                GuardedOutcome::Signed(raw),
                after_approval(policy, policy_view(tx), now),
            ),
        },
    }
}

/// What comes of a transaction under a policy.
pub ghost enum GuardedOutcome {
    Denied(DenialReason),
    Queued(int),
    Failed(EvmCeremonyError),
    Signed(Seq<u8>),
}

/// What a result says.
pub open spec fn guarded_outcome(r: Result<Vec<u8>, EvmSigningError>) -> GuardedOutcome {
    match r {
        Ok(raw) => GuardedOutcome::Signed(raw@),
        Err(EvmSigningError::Denied(reason)) => GuardedOutcome::Denied(reason),
        Err(EvmSigningError::Queued { release_at }) => GuardedOutcome::Queued(release_at@),
        Err(EvmSigningError::Ceremony(e)) => GuardedOutcome::Failed(e),
    }
}

/// Signs a transaction if the policy approves it now, and records it once it is signed. The
/// key is never put together for a transaction that is denied or held back.
pub fn sign_evm_transfer_with_policy(
    tx: UnsignedEip1559Tx,
    shares: &[Share],
    expected_public_key: &PublicKey,
    policy: &mut PolicyEngine,
    now: Timestamp,
) -> (r: Result<Vec<u8>, EvmSigningError>)
    requires
        tx.data@.len() <= isize::MAX,
        verdict(old(policy)@, policy_view(tx@), now@) matches Verdict::Queued(release_at)
            ==> release_at <= i128::MAX,
    ensures
        (guarded_outcome(r), final(policy)@) == guarded_signing(
            tx@,
            views(shares@),
            expected_public_key@,
            old(policy)@,
            now@,
        ),
        r matches Ok(raw) ==> carries_valid_signature(raw@, tx@, expected_public_key@),
        r matches Ok(raw) ==> tx@.data.len() == 0 ==> decodes_validly_signed(
            raw@,
            tx@,
            expected_public_key@,
        ),
{
    let transfer = DecodedTransaction { chain_id: tx.chain_id, to: tx.to, value: tx.value };
    assert(transfer@ == policy_view(tx@));
    match policy.evaluate(&transfer, now) {
        PolicyDecision::Denied(reason) => return Err(EvmSigningError::Denied(reason)),
        PolicyDecision::Queued { release_at } => return Err(
            EvmSigningError::Queued { release_at },
        ),
        PolicyDecision::Approved => {},
    }
    match sign_and_encode(tx, shares, expected_public_key) {
        Ok(raw) => {
            policy.record_approved(&transfer, now);
            Ok(raw)
        },
        Err(e) => Err(EvmSigningError::Ceremony(e)),
    }
}

/// The checksummed text of an address reads back as that address.
pub proof fn law_checksummed_address_reads_back(address: Seq<u8>)
    requires
        address.len() == 20,
    ensures
        crate::hex::address_reading(checksummed_text(address)) == Some(address),
        crate::hex::fixed_reading(checksummed_text(address), "address"@, 20) == Ok::<
            _,
            Seq<char>,
        >(address),
{
    let s = checksummed_text(address);
    assert forall|i: int| 0 <= i < s.len() implies '\0' <= #[trigger] s[i] <= '\u{7f}' by {
        if i >= 2 {
            assert(0 <= nibble(address, i - 2) < 16);
        }
    }
    assert forall|i: int| #![trigger address[i]] 0 <= i < address.len() implies {
        &&& digit_value(s[2 + 2 * i] as u8, 16) == Some(address[i] as nat / 16)
        &&& digit_value(s[3 + 2 * i] as u8, 16) == Some(address[i] as nat % 16)
    } by {
        assert(nibble(address, 2 * i) == address[i] as int / 16);
        assert(nibble(address, 2 * i + 1) == address[i] as int % 16);
        assert(0 <= address[i] as int / 16 < 16);
    }
    crate::hex::lemma_pairs_read_back(address, s);
}

/// A transaction that the policy denies or holds back is not signed, and leaves the policy
/// as it was, whatever shares are at hand.
pub proof fn law_refused_transactions_are_not_signed(
    tx: TxView,
    shares: Seq<ShareView>,
    expected: Seq<u8>,
    policy: PolicyState,
    now: int,
)
    requires
        verdict(policy, policy_view(tx), now) != Verdict::Approved,
    ensures
        !(guarded_signing(tx, shares, expected, policy, now).0 is Signed),
        guarded_signing(tx, shares, expected, policy, now).1 == policy,
{
}

/// What is signed for a transaction, with or without call data, is the digest of all the bytes
/// of its unsigned wire form, from the type byte 2 to the empty access list.
pub proof fn law_digest_is_of_the_whole_wire_form(tx: TxView)
    ensures
        signing_digest(tx) == keccak256_digest(
            seq![0x02u8] + rlp_list(
                rlp_uint(tx.chain_id) + (rlp_uint(tx.nonce) + (rlp_uint(
                    tx.max_priority_fee_per_gas,
                ) + (rlp_uint(tx.max_fee_per_gas) + (rlp_uint(tx.gas_limit) + (rlp_string(tx.to)
                    + (rlp_uint(tx.value) + (rlp_string(tx.data) + rlp_list(Seq::empty())))))))),
            ),
        ),
{
    law_wire_forms(SignedTxView { tx, y_parity: 0, r: Seq::empty(), s: Seq::empty() });
}

/// What goes out is the wire form of the transaction with the signature that the key of the
/// shares makes of its digest: the parity is the recovery id, `r` is the first half of the
/// signature and `s` the second.
pub proof fn law_signature_goes_out_as_made(
    tx: TxView,
    shares: Seq<ShareView>,
    expected: Seq<u8>,
    key: Seq<u8>,
    sig: Seq<u8>,
    id: u8,
    signed: SignedTxView,
)
    requires
        verified_reconstruction(shares, expected) == Ok::<_, crate::shamir::ShamirError>(key),
        ecdsa_recoverable_signature(key, signing_digest(tx)) == Some((sig, id)),
        sig.len() == 64,
        signed.tx == tx,
        signed.y_parity == id,
        signed.r.len() == 32,
        signed.r + signed.s == sig,
    ensures
        id < 2 ==> signed_transaction(tx, shares, expected) == Ok::<_, EvmCeremonyError>(
            signed_encoding(signed),
        ),
        id >= 2 ==> signed_transaction(tx, shares, expected) == Err::<Seq<u8>, _>(
            EvmCeremonyError::UnrepresentableRecoveryId,
        ),
{
    assert(sig.subrange(0, 32) =~= signed.r);
    assert(sig.subrange(32, 64) =~= signed.s);
}

/// The address of a public key is made of the last 20 bytes of the Keccak-256 digest of its
/// two coordinates: of the uncompressed encoding without the tag byte.
pub proof fn law_address_is_the_end_of_the_digest(public_key: Seq<u8>)
    ensures
        address_of(public_key) == keccak256_digest(
            sec1_uncompressed(public_key).skip(1),
        ).subrange(12, 32),
{
}

/// The checksummed text of an address is its hexadecimal text, but for the case of letters: a
/// letter is in upper case exactly if the digit in its place of the digest of the 40 lower-case
/// digits is 8 or more.
pub proof fn law_checksum_is_in_the_case(address: Seq<u8>, i: int)
    requires
        address.len() == 20,
        0 <= i < 40,
    ensures
        ({
            let plain = crate::hex::hex_text(address);
            let text = checksummed_text(address);
            let digest = keccak256_digest(crate::text::ascii_bytes(plain.skip(2)));
            let digit = if i % 2 == 0 {
                digest[i / 2] as int / 16
            } else {
                digest[i / 2] as int % 16
            };
            &&& text.len() == 42 && plain.len() == 42
            &&& text[0] == '0' && text[1] == 'x'
            &&& plain[2 + i] <= '9' || digit < 8 ==> text[2 + i] == plain[2 + i]
            &&& plain[2 + i] > '9' && digit >= 8 ==> text[2 + i] as int == plain[2 + i] as int - 32
        }),
{
    let plain = crate::hex::hex_text(address);
    assert forall|j: int| 0 <= j < 40 implies #[trigger] lower_digits(address)[j]
        == crate::text::ascii_bytes(plain.skip(2))[j] by {
        assert(plain.skip(2)[j] == crate::hex::hex_digits(address)[j]);
    }
    assert(lower_digits(address) =~= crate::text::ascii_bytes(plain.skip(2)));
    assert(plain[2 + i] == crate::hex::hex_digits(address)[i]);
    assert(0 <= nibble(address, i) < 16);
}

/// Under a policy nothing is signed that is above the cap or that takes the window's total
/// over the limit; what is at or above the threshold or goes to a destination that is new on
/// its chain is held back for the whole delay; and all the rest is signed, and recorded if it
/// was.
pub proof fn law_policy_decides_before_signing(
    tx: TxView,
    shares: Seq<ShareView>,
    expected: Seq<u8>,
    policy: PolicyState,
    now: int,
)
    ensures
        ({
            let (outcome, after) = guarded_signing(tx, shares, expected, policy, now);
            let config = policy.config;
            let total = crate::policy::window_total(
                policy.history,
                tx.chain_id,
                now,
                config.window@,
            );
            let is_new = !policy.known.contains((tx.chain_id, tx.to));
            if tx.value > config.max_single_tx_value {
                outcome == GuardedOutcome::Denied(DenialReason::ExceedsSingleTxCap) && after
                    == policy
            } else if total + tx.value > config.max_value_per_window {
                outcome == GuardedOutcome::Denied(DenialReason::ExceedsVelocityLimit) && after
                    == policy
            } else if tx.value >= config.timelock_threshold || is_new {
                outcome == GuardedOutcome::Queued(now + config.timelock_delay@) && after == policy
            } else {
                match signed_transaction(tx, shares, expected) {
                    Err(e) => outcome == GuardedOutcome::Failed(e) && after == policy,
                    Ok(raw) => {
                        &&& outcome == GuardedOutcome::Signed(raw)
                        &&& after.config == policy.config
                        &&& after.known == policy.known.insert((tx.chain_id, tx.to))
                        &&& crate::policy::window_total(
                            after.history,
                            tx.chain_id,
                            now,
                            config.window@,
                        ) == total + tx.value
                    },
                }
            }
        }),
{
    crate::policy::law_recorded_spendings_count(policy, policy_view(tx), now, tx.chain_id, now);
}

/// Shares that do not combine to the wallet's key, and a key that makes no signature, put
/// nothing out, and the error says which it was.
pub proof fn law_unsigned_transactions_do_not_go_out(
    tx: TxView,
    shares: Seq<ShareView>,
    expected: Seq<u8>,
)
    ensures
        verified_reconstruction(shares, expected) matches Err(e) ==> signed_transaction(
            tx,
            shares,
            expected,
        ) == Err::<Seq<u8>, _>(EvmCeremonyError::Ceremony(CeremonyError::Reconstruction(e))),
        verified_reconstruction(shares, expected) matches Ok(key) ==> (ecdsa_recoverable_signature(
            key,
            signing_digest(tx),
        ) is None ==> signed_transaction(tx, shares, expected) == Err::<Seq<u8>, _>(
            EvmCeremonyError::Ceremony(CeremonyError::SignatureSelfCheckFailed),
        )),
{
}

/// What a fee above the ceiling is refused with, in words.
pub proof fn law_build_errors_in_words(requested: u128, ceiling: u128)
    ensures
        build_error_text(EvmBuildError::FeeCapExceeded { requested, ceiling })
            == "max_fee_per_gas "@ + crate::text::number_text(requested as nat, 10)
            + " wei exceeds the hard ceiling of "@ + crate::text::number_text(ceiling as nat, 10)
            + " wei"@,
{
}

/// A result under a policy says one outcome, with the same reason, time, error or bytes.
pub proof fn law_results_say_one_outcome(
    raw: Vec<u8>,
    reason: DenialReason,
    release_at: Timestamp,
    e: EvmCeremonyError,
)
    ensures
        guarded_outcome(Ok(raw)) == GuardedOutcome::Signed(raw@),
        guarded_outcome(Err(EvmSigningError::Denied(reason))) == GuardedOutcome::Denied(reason),
        guarded_outcome(Err((EvmSigningError::Queued { release_at }))) == GuardedOutcome::Queued(
            release_at@,
        ),
        guarded_outcome(Err(EvmSigningError::Ceremony(e))) == GuardedOutcome::Failed(e),
{
}

/// What the policy judges of a transaction is its own chain, recipient and amount.
pub proof fn law_policy_sees_the_transaction(tx: TxView)
    ensures
        policy_view(tx).chain_id == tx.chain_id,
        policy_view(tx).to == tx.to,
        policy_view(tx).value == tx.value,
{
}

} // verus!
