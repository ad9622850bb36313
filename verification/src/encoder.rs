//! Encoding of the deck's four operations into calldata bytes.
//!
//! Each operation is framed as a 4-byte big-endian tag followed by its
//! fields at fixed offsets; the `syscall` operation carries a
//! variable-length payload (preceded by a 4-byte length field) and a
//! trailing run of 65-byte signature records. The specification functions
//! below state the exact byte string each encoder produces.

use crate::error::Error;
use crate::structures::{
    Address, Encoding, EncodingView, SetAuthView, SetShardView, SetThresholdView, Signature,
    SyscallView, Uint256, Uint64,
};
use crate::util::{
    be32, be_val, concat_bytes, lemma_concat_bytes_push, lemma_u88_bound, pow256, push_bytes,
};
use vstd::prelude::*;

verus! {

/// The calldata of a `setAuth` operation: tag 1, the 20-byte account, one
/// flag byte; 25 bytes in all.
pub open spec fn spec_encode_set_auth(v: SetAuthView) -> Seq<u8> {
    seq![0u8, 0u8, 0u8, 1u8] + v.account + seq![if v.authorized { 1u8 } else { 0u8 }]
}

/// The calldata of a `setThreshold` operation: tag 2 and the threshold
/// byte; 5 bytes in all.
pub open spec fn spec_encode_set_threshold(v: SetThresholdView) -> Seq<u8> {
    seq![0u8, 0u8, 0u8, 2u8, v.threshold]
}

/// The calldata of a `setShard` operation: tag 3, the 4-byte selector, the
/// 20-byte shard address; 28 bytes in all.
pub open spec fn spec_encode_set_shard(v: SetShardView) -> Seq<u8> {
    seq![0u8, 0u8, 0u8, 3u8] + v.selector + v.shard
}

/// The calldata of a `syscall` operation: tag 4, the 32-byte id, the
/// 20-byte target, the low 11 value bytes, the 8-byte deadline, the 4-byte
/// payload length, the payload, then the signature records; 79 bytes of
/// header before the payload.
pub open spec fn spec_encode_syscall(v: SyscallView) -> Seq<u8> {
    seq![0u8, 0u8, 0u8, 4u8] + v.id + v.target + v.value.subrange(21, 32) + v.deadline + be32(
        v.payload.len(),
    ) + v.payload + concat_bytes(v.signatures)
}

/// What encoding an operation yields: the three fixed-size operations
/// always encode; a `syscall` is refused when its value does not fit in
/// 88 bits or its payload length does not fit in 32 bits.
pub open spec fn spec_encode(e: EncodingView) -> Result<Seq<u8>, Error> {
    match e {
        EncodingView::SetAuth(v) => Ok(spec_encode_set_auth(v)),
        EncodingView::SetThreshold(v) => Ok(spec_encode_set_threshold(v)),
        EncodingView::SetShard(v) => Ok(spec_encode_set_shard(v)),
        EncodingView::Syscall(v) => if be_val(v.value) >= pow256(11) {
            Err(Error::CallValueOverflow)
        } else if v.payload.len() > 0xFFFFFFFF {
            Err(Error::PayloadLengthOverfow)
        } else {
            Ok(spec_encode_syscall(v))
        },
    }
}

/// Encodes a `setAuth` operation.
pub fn encode_set_auth(account: &Address, authorized: bool) -> (r: Vec<u8>)
    ensures
        r@ == spec_encode_set_auth(SetAuthView { account: account@, authorized }),
{
    let mut encoded: Vec<u8> = Vec::new();
    encoded.push(0);
    encoded.push(0);
    encoded.push(0);
    encoded.push(1);
    push_bytes(&mut encoded, account.bytes.as_slice());
    encoded.push(if authorized { 1 } else { 0 });
    proof {
        assert(encoded@ =~= spec_encode_set_auth(SetAuthView { account: account@, authorized }));
    }
    encoded
}

/// Encodes a `setThreshold` operation.
pub fn encode_set_threshold(threshold: u8) -> (r: Vec<u8>)
    ensures
        r@ == spec_encode_set_threshold(SetThresholdView { threshold }),
{
    let mut encoded: Vec<u8> = Vec::new();
    encoded.push(0);
    encoded.push(0);
    encoded.push(0);
    encoded.push(2);
    encoded.push(threshold);
    proof {
        assert(encoded@ =~= spec_encode_set_threshold(SetThresholdView { threshold }));
    }
    encoded
}

/// Encodes a `setShard` operation.
pub fn encode_set_shard(selector: &[u8; 4], shard: &Address) -> (r: Vec<u8>)
    ensures
        r@ == spec_encode_set_shard(SetShardView { selector: selector@, shard: shard@ }),
{
    let mut encoded: Vec<u8> = Vec::new();
    encoded.push(0);
    encoded.push(0);
    encoded.push(0);
    encoded.push(3);
    push_bytes(&mut encoded, selector.as_slice());
    push_bytes(&mut encoded, shard.bytes.as_slice());
    proof {
        assert(encoded@ =~= spec_encode_set_shard(
            SetShardView { selector: selector@, shard: shard@ },
        ));
    }
    encoded
}

/// Encodes a `syscall` operation, refusing a value above `2^88 - 1` and a
/// payload longer than `2^32 - 1` bytes.
pub fn encode_syscall(
    id: &Uint256,
    target: &Address,
    value: &Uint256,
    deadline: &Uint64,
    payload: &[u8],
    signatures: &[Signature],
) -> (r: Result<Vec<u8>, Error>)
    ensures
        ({
            let v = SyscallView {
                id: id@,
                target: target@,
                value: value@,
                deadline: deadline@,
                payload: payload@,
                signatures: signatures@.map_values(|s: Signature| s@),
            };
            match r {
                Ok(bytes) => spec_encode(EncodingView::Syscall(v)) == Ok::<Seq<u8>, Error>(
                    bytes@,
                ),
                Err(e) => spec_encode(EncodingView::Syscall(v)) == Err::<Seq<u8>, Error>(e),
            }
        }),
{
    let ghost v = SyscallView {
        id: id@,
        target: target@,
        value: value@,
        deadline: deadline@,
        payload: payload@,
        signatures: signatures@.map_values(|s: Signature| s@),
    };
    let mut i: usize = 0;
    while i < 21
        invariant
            i <= 21,
            forall|k: int| 0 <= k < i ==> value@[k] == 0,
        decreases 21 - i,
    {
        if value.bytes[i] != 0 {
            proof {
                lemma_u88_bound(value@);
            }
            return Err(Error::CallValueOverflow);
        }
        i = i + 1;
    }
    proof {
        lemma_u88_bound(value@);
    }
    if payload.len() > 0xFFFFFFFF {
        return Err(Error::PayloadLengthOverfow);
    }
    let plen: usize = payload.len();

    let mut encoded: Vec<u8> = Vec::new();
    encoded.push(0);
    encoded.push(0);
    encoded.push(0);
    encoded.push(4);
    proof {
        assert(encoded@ =~= seq![0u8, 0u8, 0u8, 4u8]);
    }
    push_bytes(&mut encoded, id.bytes.as_slice());
    push_bytes(&mut encoded, target.bytes.as_slice());
    let value_tail = vstd::slice::slice_subrange(value.bytes.as_slice(), 21, 32);
    push_bytes(&mut encoded, value_tail);
    push_bytes(&mut encoded, deadline.bytes.as_slice());
    encoded.push(((plen / 0x1000000) % 256) as u8);
    encoded.push(((plen / 0x10000) % 256) as u8);
    encoded.push(((plen / 0x100) % 256) as u8);
    encoded.push((plen % 256) as u8);
    proof {
        assert(encoded@ =~= seq![0u8, 0u8, 0u8, 4u8] + v.id + v.target + v.value.subrange(21, 32)
            + v.deadline + be32(v.payload.len()));
    }
    push_bytes(&mut encoded, payload);
    let ghost header = encoded@;
    let mut si: usize = 0;
    while si < signatures.len()
        invariant
            si <= signatures@.len(),
            encoded@ == header + concat_bytes(v.signatures.take(si as int)),
            v.signatures == signatures@.map_values(|s: Signature| s@),
        decreases signatures@.len() - si,
    {
        push_bytes(&mut encoded, signatures[si].bytes.as_slice());
        proof {
            assert(v.signatures.take((si + 1) as int) =~= v.signatures.take(si as int).push(
                v.signatures[si as int],
            ));
            lemma_concat_bytes_push(v.signatures.take(si as int), v.signatures[si as int]);
            assert(v.signatures[si as int] == signatures@[si as int]@);
        }
        si = si + 1;
    }
    proof {
        assert(v.signatures.take(signatures@.len() as int) =~= v.signatures);
        assert(encoded@ =~= spec_encode_syscall(v));
    }
    Ok(encoded)
}

/// Encodes any operation, dispatching on its variant.
pub fn encode(encoding: &Encoding) -> (r: Result<Vec<u8>, Error>)
    ensures
        match r {
            Ok(bytes) => spec_encode(encoding@) == Ok::<Seq<u8>, Error>(bytes@),
            Err(e) => spec_encode(encoding@) == Err::<Seq<u8>, Error>(e),
        },
{
    match encoding {
        Encoding::SetAuth(v) => Ok(encode_set_auth(v.account(), v.authorized())),
        Encoding::SetThreshold(v) => Ok(encode_set_threshold(v.threshold())),
        Encoding::SetShard(v) => Ok(encode_set_shard(v.selector(), v.shard())),
        Encoding::Syscall(v) => encode_syscall(
            v.id(),
            v.target(),
            v.value(),
            v.deadline(),
            v.payload(),
            v.signatures(),
        ),
    }
}

} // verus!
