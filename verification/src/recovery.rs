//! Replacing lost shares.
//!
//! The key is put together from a quorum of the shares there are, the same quorum that
//! signing takes, and split anew at once. There is no weaker way and nobody with special
//! powers.
//!
//! This is for lost shares, not for stolen ones: the key stays the same, so the old shares
//! stay valid. After a theft the only remedy is a new key.

use vstd::prelude::*;

use crate::keys::{is_private_key, public_key_of, PublicKey};
use crate::shamir::{
    is_quorum, law_any_quorum_reconstructs, reconstruct_and_verify, shares_key, split, split_error,
    verified_reconstruction, views, ShamirError, Share, ShareView,
};

verus! {

/// Puts the key together from a quorum of its shares and splits it anew. The threshold and
/// the number of shares may change; the public key does not.
pub fn rotate_shares(
    shares: &[Share],
    expected_public_key: &PublicKey,
    new_threshold: u8,
    new_n: u8,
) -> (r: Result<Vec<Share>, ShamirError>)
    ensures
        match verified_reconstruction(views(shares@), expected_public_key@) {
            Err(e) => r == Err::<Vec<Share>, _>(e),
            Ok(key) => match r {
                Err(e) => split_error(new_threshold, new_n) == Some(e),
                Ok(new_shares) => {
                    &&& split_error(new_threshold, new_n) is None
                    &&& is_private_key(key)
                    &&& shares_key(views(new_shares@), key, new_threshold, new_n)
                },
            },
        },
{
    let key = match reconstruct_and_verify(shares, expected_public_key) {
        Ok(key) => key,
        Err(e) => return Err(e),
    };
    proof {
        use_type_invariant(&key);
    }
    split(&key, new_threshold, new_n)
}

/// A rotation keeps the key: any quorum of the new shares, and any quorum of the old ones,
/// still reconstructs the same key under the same public key.
pub proof fn law_rotation_keeps_the_key(
    key: Seq<u8>,
    old_shares: Seq<ShareView>,
    old_threshold: u8,
    old_n: u8,
    new_shares: Seq<ShareView>,
    new_threshold: u8,
    new_n: u8,
    old_chosen: Seq<ShareView>,
    new_chosen: Seq<ShareView>,
)
    requires
        is_private_key(key),
        split_error(old_threshold, old_n) is None,
        split_error(new_threshold, new_n) is None,
        shares_key(old_shares, key, old_threshold, old_n),
        shares_key(new_shares, key, new_threshold, new_n),
        is_quorum(old_chosen, old_shares, old_threshold),
        is_quorum(new_chosen, new_shares, new_threshold),
    ensures
        verified_reconstruction(old_chosen, public_key_of(key)) == Ok::<_, ShamirError>(key),
        verified_reconstruction(new_chosen, public_key_of(key)) == Ok::<_, ShamirError>(key),
{
    law_any_quorum_reconstructs(key, old_shares, old_chosen, old_threshold, old_n);
    law_any_quorum_reconstructs(key, new_shares, new_chosen, new_threshold, new_n);
}

} // verus!
