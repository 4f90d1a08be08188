//! The command line's own rules: which shares to ask for, and what to print.

use vstd::prelude::*;

use crate::flow::{Response, ResponseView};
use crate::hex::{hex_reading, hex_text, parse_hex, to_hex, HexParseError};
use crate::shamir::Share;
use crate::storage::hashable;
use crate::text::{decimal, decimal_text, number_text, push_decimal, text2, text_equal};
use crate::wallet::{load_external_share, share_loading, WalletError};

verus! {

/// The shares to sign with, by where they come from.
#[derive(Debug)]
pub struct SharePlan {
    /// Share 1 is to be loaded from the wallet's directory.
    pub local: bool,
    /// The shares to be pasted in, in this order.
    pub pasted: Vec<u8>,
}

/// The indices other than 1, in their order.
pub open spec fn pasted_indices(indices: Seq<u8>) -> Seq<u8>
    decreases indices.len(),
{
    if indices.len() == 0 {
        Seq::empty()
    } else if indices.last() == 1 {
        pasted_indices(indices.drop_last())
    } else {
        pasted_indices(indices.drop_last()).push(indices.last())
    }
}

/// Where the shares with the given indices come from. Share 1 is taken once, and first, however
/// often and wherever it is named.
pub fn plan_shares(indices: &[u8]) -> (r: SharePlan)
    ensures
        r.local == indices@.contains(1),
        r.pasted@ == pasted_indices(indices@),
{
    let mut local = false;
    let mut pasted: Vec<u8> = Vec::new();
    let mut i: usize = 0;
    assert(indices@.take(0) =~= Seq::<u8>::empty());
    while i < indices.len()
        invariant
            i <= indices@.len(),
            local == indices@.take(i as int).contains(1),
            pasted@ == pasted_indices(indices@.take(i as int)),
        decreases indices.len() - i,
    {
        let ghost before = indices@.take(i as int);
        let ghost after = indices@.take(i + 1);
        assert(after.drop_last() =~= before);
        assert(after =~= before.push(indices@[i as int]));
        if indices[i] == 1 {
            local = true;
            assert(after[i as int] == 1);
        } else {
            pasted.push(indices[i]);
            proof {
                if after.contains(1) {
                    let k = choose|k: int| 0 <= k < after.len() && after[k] == 1;
                    assert(before[k] == 1);
                }
                if before.contains(1) {
                    let k = choose|k: int| 0 <= k < before.len() && before[k] == 1;
                    assert(after[k] == 1);
                }
            }
        }
        i = i + 1;
    }
    assert(indices@.take(i as int) =~= indices@);
    SharePlan { local, pasted }
}

/// Why a share that was pasted in is of no use.
#[derive(Debug)]
pub enum PastedShareError {
    /// It is no hexadecimal text.
    Hex(HexParseError),
    /// It does not open.
    Wallet(WalletError),
}

/// Opens a share that was pasted in as hexadecimal text.
pub fn open_pasted_share(passphrase: &str, text: &str) -> (r: Result<Share, PastedShareError>)
    requires
        hashable(passphrase@),
    ensures
        match hex_reading(text@) {
            Err(message) => r matches Err(PastedShareError::Hex(e)) && e@ == message,
            Ok(blob) => match share_loading(passphrase@, blob) {
                Err(error) => r matches Err(PastedShareError::Wallet(e)) && e == error,
                Ok(share) => r matches Ok(s) && s@ == share,
            },
        },
{
    let blob = match parse_hex(text) {
        Ok(blob) => blob,
        Err(e) => return Err(PastedShareError::Hex(e)),
    };
    match load_external_share(passphrase, blob.as_slice()) {
        Ok(share) => Ok(share),
        Err(e) => Err(PastedShareError::Wallet(e)),
    }
}

/// Whether a passphrase was typed the same way twice.
pub fn passphrases_match(passphrase: &str, confirmation: &str) -> (r: bool)
    ensures
        r == (passphrase@ == confirmation@),
{
    text_equal(passphrase, confirmation)
}

/// A response in one line. Of a new wallet, only the address: its shares are for their
/// holders.
pub open spec fn response_line(r: ResponseView) -> Seq<char> {
    match r {
        ResponseView::Created(address, _) => "Address: "@ + address,
        ResponseView::Address(address) => address,
        ResponseView::Balance(_, amount) => decimal(amount) + " wei"@,
        ResponseView::Sent(hash) => "Broadcast: "@ + hex_text(hash),
        ResponseView::Pending => "pending (not yet mined)"@,
        ResponseView::Mined(block_number, confirmations, success) => "mined in block "@ + decimal(
            block_number,
        ) + ", "@ + decimal(confirmations) + " confirmation(s), status: "@ + if success {
            "success"@
        } else {
            "reverted"@
        },
    }
}

/// A response in one line.
pub fn describe_response(response: &Response) -> (r: String)
    ensures
        r@ == response_line(response@),
{
    match response {
        Response::Created { address, .. } => text2("Address: ", address.as_str()),
        Response::Address(address) => address.clone(),
        Response::Balance { amount, .. } => text2(decimal_text(*amount).as_str(), " wei"),
        Response::Sent(hash) => text2("Broadcast: ", to_hex(hash).as_str()),
        Response::Pending => "pending (not yet mined)".to_owned(),
        Response::Mined { block_number, confirmations, success } => {
            let mut out = "mined in block ".to_owned();
            push_decimal(&mut out, *block_number as u128);
            out.append(", ");
            push_decimal(&mut out, *confirmations as u128);
            out.append(" confirmation(s), status: ");
            if *success {
                out.append("success");
            } else {
                out.append("reverted");
            }
            out
        },
    }
}

/// The shares to be pasted in are all that are named but share 1, as often as they are named
/// and in the same order.
pub proof fn law_all_but_the_first_share_are_pasted(indices: Seq<u8>)
    ensures
        pasted_indices(indices) == indices.filter(|i: u8| i != 1),
    decreases indices.len(),
{
    reveal(Seq::filter);
    if indices.len() > 0 {
        law_all_but_the_first_share_are_pasted(indices.drop_last());
    }
}

/// What is printed says what came of it: the amount, the hash, the block and the count in
/// decimal, and whether the transaction was reverted.
pub proof fn law_lines_say_what_came(
    address: Seq<char>,
    shares: Seq<Seq<u8>>,
    amount: nat,
    hash: Seq<u8>,
    block: nat,
    confirmations: nat,
)
    ensures
        response_line(ResponseView::Created(address, shares)) == "Address: "@ + address,
        response_line(ResponseView::Address(address)) == address,
        response_line(ResponseView::Balance(address, amount)) == number_text(amount, 10) + " wei"@,
        response_line(ResponseView::Sent(hash)) == "Broadcast: "@ + hex_text(hash),
        response_line(ResponseView::Pending) == "pending (not yet mined)"@,
        response_line(ResponseView::Mined(block, confirmations, true)) == "mined in block "@
            + number_text(block, 10) + ", "@ + number_text(confirmations, 10)
            + " confirmation(s), status: "@ + "success"@,
        response_line(ResponseView::Mined(block, confirmations, false)) == "mined in block "@
            + number_text(block, 10) + ", "@ + number_text(confirmations, 10)
            + " confirmation(s), status: "@ + "reverted"@,
{
}

} // verus!
