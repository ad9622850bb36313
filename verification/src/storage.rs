//! Derivation of the deck's storage slot identifiers.
//!
//! The contract keeps four pieces of state: the identifier counter at
//! direct slot 0, the threshold at direct slot 1, an authorization flag
//! per account under the mapping at index 2, and a delegate target per
//! selector under the mapping at index 3. A mapping entry lives at the
//! hash of the key (padded to a 32-byte field) concatenated with the
//! 32-byte mapping index. These are pure functions of their inputs: the
//! reads themselves belong to the surrounding tooling, never to this
//! library.

use crate::structures::{Address, Uint256};
use crate::util::{be_val, push_bytes, push_zeros};
use vstd::prelude::*;

verus! {

/// The digest of a byte string under the contract's 256-bit hash.
pub uninterp spec fn keccak_of(bytes: Seq<u8>) -> Seq<u8>;

/// Relies on ethers::utils::keccak256: the 32-byte Keccak-256 digest of
/// the input, a function of the input bytes alone.
#[verifier::external_body]
fn keccak256(bytes: &Vec<u8>) -> (r: [u8; 32])
    ensures
        r@ == keccak_of(bytes@),
{
    ethers::utils::keccak256(bytes)
}

/// The 64-byte preimage hashed for an account's authorization slot: the
/// account left-padded to 32 bytes, then the 32-byte mapping index 2.
pub open spec fn spec_auth_slot_preimage(account: Seq<u8>) -> Seq<u8> {
    Seq::new(12, |i: int| 0u8) + account + Seq::new(31, |i: int| 0u8) + seq![2u8]
}

/// The authorization slot of an account.
pub open spec fn spec_auth_slot(account: Seq<u8>) -> Seq<u8> {
    keccak_of(spec_auth_slot_preimage(account))
}

/// The 64-byte preimage hashed for a selector's shard-route slot: the
/// selector right-padded to a 32-byte fixed-size field, then the 32-byte
/// mapping index 3.
pub open spec fn spec_shard_slot_preimage(selector: Seq<u8>) -> Seq<u8> {
    selector + Seq::new(28, |i: int| 0u8) + Seq::new(31, |i: int| 0u8) + seq![3u8]
}

/// The shard-route slot of a selector.
pub open spec fn spec_shard_slot(selector: Seq<u8>) -> Seq<u8> {
    keccak_of(spec_shard_slot_preimage(selector))
}

/// The slot of the identifier counter: direct index 0, no hashing.
pub fn id_slot() -> (r: Uint256)
    ensures
        be_val(r@) == 0,
{
    Uint256::from_u64(0)
}

/// The slot of the threshold: direct index 1, no hashing.
pub fn threshold_slot() -> (r: Uint256)
    ensures
        be_val(r@) == 1,
{
    Uint256::from_u64(1)
}

/// The authorization slot of an account: the hash of the account padded
/// to 32 bytes followed by the 32-byte index 2.
pub fn auth_slot(account: &Address) -> (r: [u8; 32])
    ensures
        r@ == spec_auth_slot(account@),
{
    let mut preimage: Vec<u8> = Vec::new();
    push_zeros(&mut preimage, 12);
    push_bytes(&mut preimage, account.bytes.as_slice());
    push_zeros(&mut preimage, 31);
    preimage.push(2);
    proof {
        assert(preimage@ =~= spec_auth_slot_preimage(account@));
    }
    keccak256(&preimage)
}

/// The shard-route slot of a selector: the hash of the selector padded to
/// 32 bytes followed by the 32-byte index 3.
pub fn shard_slot(selector: &[u8; 4]) -> (r: [u8; 32])
    ensures
        r@ == spec_shard_slot(selector@),
{
    let mut preimage: Vec<u8> = Vec::new();
    push_bytes(&mut preimage, selector.as_slice());
    push_zeros(&mut preimage, 28);
    push_zeros(&mut preimage, 31);
    preimage.push(3);
    proof {
        assert(preimage@ =~= spec_shard_slot_preimage(selector@));
    }
    keccak256(&preimage)
}

/// Law: slot derivation is deterministic — the authorization slot is a
/// function of the account bytes alone, so repeated derivations for the
/// same account agree.
pub proof fn lemma_auth_slot_deterministic(a: Seq<u8>, b: Seq<u8>)
    requires
        a == b,
    ensures
        spec_auth_slot(a) == spec_auth_slot(b),
{
}

/// Law: distinct accounts hash distinct preimages, so two accounts share
/// an authorization slot only where the hash itself collides.
pub proof fn lemma_auth_slot_preimage_injective(a: Seq<u8>, b: Seq<u8>)
    requires
        a.len() == 20,
        b.len() == 20,
        a != b,
    ensures
        spec_auth_slot_preimage(a) != spec_auth_slot_preimage(b),
{
    if spec_auth_slot_preimage(a) == spec_auth_slot_preimage(b) {
        assert forall|i: int| 0 <= i < 20 implies a[i] == b[i] by {
            assert(spec_auth_slot_preimage(a)[12 + i] == a[i]);
            assert(spec_auth_slot_preimage(b)[12 + i] == b[i]);
        }
        assert(a =~= b);
    }
}

} // verus!
