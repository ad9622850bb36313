//! Decoding of calldata bytes back into operation values.
//!
//! Decoding dispatches on the leading 4-byte tag and is pure and total:
//! for any byte string it either returns the operation value or one
//! specific error kind, and it never panics or reads out of bounds. The
//! specification functions below state the exact outcome for every input,
//! and the round-trip lemmas at the end prove that decoding inverts
//! encoding.

use crate::encoder::{
    spec_encode, spec_encode_set_auth, spec_encode_set_shard, spec_encode_set_threshold,
    spec_encode_syscall,
};
use crate::error::Error;
use crate::structures::{
    Address, Encoding, EncodingView, SetAuth, SetAuthView, SetShard, SetShardView, SetThreshold,
    SetThresholdView, Signature, Syscall, SyscallView, Uint256, Uint64,
};
use crate::util::{
    be32, be_val, concat_bytes, lemma_be32_of_val, lemma_be32_val, lemma_be_val4,
    lemma_be_val_bound, lemma_concat_chunks, lemma_concat_sigs_chunk, lemma_concat_sigs_len,
    lemma_u88_bound, pow256,
};
use vstd::prelude::*;

verus! {

/// The outcome of decoding `setAuth` calldata: exactly 25 bytes, the
/// account at offsets 4..24, the flag byte (1 means authorized) at 24.
pub open spec fn spec_decode_set_auth(c: Seq<u8>) -> Result<SetAuthView, Error> {
    if c.len() != 25 {
        Err(Error::CalldataLength)
    } else {
        Ok(SetAuthView { account: c.subrange(4, 24), authorized: c[24] == 1 })
    }
}

/// The outcome of decoding `setThreshold` calldata: exactly 5 bytes, the
/// threshold at offset 4.
pub open spec fn spec_decode_set_threshold(c: Seq<u8>) -> Result<SetThresholdView, Error> {
    if c.len() != 5 {
        Err(Error::CalldataLength)
    } else {
        Ok(SetThresholdView { threshold: c[4] })
    }
}

/// The outcome of decoding `setShard` calldata: exactly 28 bytes (the
/// length the encoder produces), the selector at 4..8, the shard at 8..28.
pub open spec fn spec_decode_set_shard(c: Seq<u8>) -> Result<SetShardView, Error> {
    if c.len() != 28 {
        Err(Error::CalldataLength)
    } else {
        Ok(SetShardView { selector: c.subrange(4, 8), shard: c.subrange(8, 28) })
    }
}

/// The payload length a `syscall` calldata string declares: the 4-byte
/// big-endian field at offsets 75..79, right after the deadline.
pub open spec fn spec_syscall_payload_len(c: Seq<u8>) -> nat {
    be_val(c.subrange(75, 79))
}

/// The outcome of decoding `syscall` calldata: a 79-byte header, then the
/// declared payload, then a trailing region that must be a whole number of
/// 65-byte signature records. The decoded value is the low 11 value bytes
/// widened with 21 zero bytes.
pub open spec fn spec_decode_syscall(c: Seq<u8>) -> Result<SyscallView, Error> {
    if c.len() < 79 {
        Err(Error::CalldataLength)
    } else {
        let plen = spec_syscall_payload_len(c) as int;
        if c.len() < 79 + plen {
            Err(Error::CalldataLength)
        } else if (c.len() - 79 - plen) % 65 != 0 {
            Err(Error::MalformedCalldata)
        } else {
            Ok(
                SyscallView {
                    id: c.subrange(4, 36),
                    target: c.subrange(36, 56),
                    value: Seq::new(21, |i: int| 0u8) + c.subrange(56, 67),
                    deadline: c.subrange(67, 75),
                    payload: c.subrange(79, 79 + plen),
                    signatures: Seq::new(
                        ((c.len() - 79 - plen) / 65) as nat,
                        |j: int| c.subrange(79 + plen + 65 * j, 79 + plen + 65 * j + 65),
                    ),
                },
            )
        }
    }
}

/// The outcome of decoding any calldata string: too short to hold a tag is
/// a length error; a tag other than 1 to 4 is a selector mismatch; else
/// the variant's own decoder decides.
pub open spec fn spec_decode(c: Seq<u8>) -> Result<EncodingView, Error> {
    if c.len() < 4 {
        Err(Error::CalldataLength)
    } else if c.subrange(0, 4) == seq![0u8, 0u8, 0u8, 1u8] {
        match spec_decode_set_auth(c) {
            Ok(v) => Ok(EncodingView::SetAuth(v)),
            Err(e) => Err(e),
        }
    } else if c.subrange(0, 4) == seq![0u8, 0u8, 0u8, 2u8] {
        match spec_decode_set_threshold(c) {
            Ok(v) => Ok(EncodingView::SetThreshold(v)),
            Err(e) => Err(e),
        }
    } else if c.subrange(0, 4) == seq![0u8, 0u8, 0u8, 3u8] {
        match spec_decode_set_shard(c) {
            Ok(v) => Ok(EncodingView::SetShard(v)),
            Err(e) => Err(e),
        }
    } else if c.subrange(0, 4) == seq![0u8, 0u8, 0u8, 4u8] {
        match spec_decode_syscall(c) {
            Ok(v) => Ok(EncodingView::Syscall(v)),
            Err(e) => Err(e),
        }
    } else {
        Err(Error::SelectorMismatch)
    }
}

/// Copies `N` bytes of `src`, starting at `start`, into a fresh array.
fn copy_into<const N: usize>(src: &[u8], start: usize) -> (r: [u8; N])
    requires
        start + N <= src@.len(),
    ensures
        r@ == src@.subrange(start as int, start as int + N as int),
{
    let src_len: usize = src.len();
    let mut out = [0u8; N];
    let mut i: usize = 0;
    while i < N
        invariant
            i <= N,
            start + N <= src_len,
            src_len == src@.len(),
            out@.len() == N,
            forall|k: int| 0 <= k < i ==> out@[k] == src@[start + k],
        decreases N - i,
    {
        out[i] = src[start + i];
        i = i + 1;
    }
    proof {
        assert(out@ =~= src@.subrange(start as int, start as int + N as int));
    }
    out
}

/// Decodes `setAuth` calldata.
pub fn decode_set_auth(calldata: &[u8]) -> (r: Result<SetAuth, Error>)
    ensures
        match r {
            Ok(v) => spec_decode_set_auth(calldata@) == Ok::<SetAuthView, Error>(v@),
            Err(e) => spec_decode_set_auth(calldata@) == Err::<SetAuthView, Error>(e),
        },
{
    if calldata.len() != 25 {
        return Err(Error::CalldataLength);
    }
    let account = Address { bytes: copy_into::<20>(calldata, 4) };
    let authorized = calldata[24] == 1;
    Ok(SetAuth::new(&account, authorized))
}

/// Decodes `setThreshold` calldata.
pub fn decode_set_threshold(calldata: &[u8]) -> (r: Result<SetThreshold, Error>)
    ensures
        match r {
            Ok(v) => spec_decode_set_threshold(calldata@) == Ok::<SetThresholdView, Error>(v@),
            Err(e) => spec_decode_set_threshold(calldata@) == Err::<SetThresholdView, Error>(e),
        },
{
    if calldata.len() != 5 {
        return Err(Error::CalldataLength);
    }
    Ok(SetThreshold::new(calldata[4]))
}

/// Decodes `setShard` calldata.
pub fn decode_set_shard(calldata: &[u8]) -> (r: Result<SetShard, Error>)
    ensures
        match r {
            Ok(v) => spec_decode_set_shard(calldata@) == Ok::<SetShardView, Error>(v@),
            Err(e) => spec_decode_set_shard(calldata@) == Err::<SetShardView, Error>(e),
        },
{
    if calldata.len() != 28 {
        return Err(Error::CalldataLength);
    }
    let selector = copy_into::<4>(calldata, 4);
    let shard = Address { bytes: copy_into::<20>(calldata, 8) };
    Ok(SetShard::new(&selector, &shard))
}

/// Decodes `syscall` calldata.
pub fn decode_syscall(calldata: &[u8]) -> (r: Result<Syscall, Error>)
    ensures
        match r {
            Ok(v) => spec_decode_syscall(calldata@) == Ok::<SyscallView, Error>(v@),
            Err(e) => spec_decode_syscall(calldata@) == Err::<SyscallView, Error>(e),
        },
{
    if calldata.len() < 79 {
        return Err(Error::CalldataLength);
    }
    let plen: usize = (calldata[75] as usize) * 0x1000000 + (calldata[76] as usize) * 0x10000 + (
    calldata[77] as usize) * 0x100 + (calldata[78] as usize);
    proof {
        lemma_be_val4(calldata@.subrange(75, 79));
        assert(calldata@.subrange(75, 79)[0] == calldata@[75]);
        assert(calldata@.subrange(75, 79)[1] == calldata@[76]);
        assert(calldata@.subrange(75, 79)[2] == calldata@[77]);
        assert(calldata@.subrange(75, 79)[3] == calldata@[78]);
        assert(plen == spec_syscall_payload_len(calldata@));
    }
    if calldata.len() - 79 < plen {
        return Err(Error::CalldataLength);
    }
    let sigs_len: usize = calldata.len() - 79 - plen;
    if sigs_len % 65 != 0 {
        return Err(Error::MalformedCalldata);
    }
    let n_sigs: usize = sigs_len / 65;

    let id = Uint256 { bytes: copy_into::<32>(calldata, 4) };
    let target = Address { bytes: copy_into::<20>(calldata, 36) };
    let value = Uint256 { bytes: copy_into_low11(calldata, 56) };
    let deadline = Uint64 { bytes: copy_into::<8>(calldata, 67) };
    let payload_slice = vstd::slice::slice_subrange(calldata, 79, 79 + plen);

    let mut sigs: Vec<Signature> = Vec::new();
    let mut j: usize = 0;
    while j < n_sigs
        invariant
            j <= n_sigs,
            65 * n_sigs == sigs_len,
            sigs_len == calldata@.len() - 79 - plen,
            plen + 79 <= calldata@.len(),
            calldata@.len() <= usize::MAX,
            sigs@.len() == j,
            forall|t: int|
                0 <= t < j ==> (#[trigger] sigs@[t])@ == calldata@.subrange(
                    79 + plen + 65 * t,
                    79 + plen + 65 * t + 65,
                ),
        decreases n_sigs - j,
    {
        let off: usize = 79 + plen + j * 65;
        let sig = Signature { bytes: copy_into::<65>(calldata, off) };
        sigs.push(sig);
        j = j + 1;
    }

    let result = Syscall::new(&id, &target, &value, &deadline, payload_slice, sigs.as_slice());
    proof {
        let c = calldata@;
        let m = spec_decode_syscall(c).unwrap();
        assert(result@.value =~= m.value);
        assert forall|t: int| 0 <= t < n_sigs implies result@.signatures[t]
            == m.signatures[t] by {
            assert(sigs@[t]@ == c.subrange(79 + plen + 65 * t, 79 + plen + 65 * t + 65));
        }
        assert(result@.signatures =~= m.signatures);
        assert(result@ =~= m);
    }
    Ok(result)
}

/// Copies the 11 bytes at `start` into the low bytes of a fresh 32-byte
/// word whose first 21 bytes are zero.
fn copy_into_low11(src: &[u8], start: usize) -> (r: [u8; 32])
    requires
        start + 11 <= src@.len(),
    ensures
        r@ == Seq::new(21, |i: int| 0u8) + src@.subrange(start as int, start as int + 11),
{
    let src_len: usize = src.len();
    let mut out = [0u8; 32];
    let mut i: usize = 0;
    while i < 11
        invariant
            i <= 11,
            start + 11 <= src_len,
            src_len == src@.len(),
            out@.len() == 32,
            forall|k: int| 0 <= k < 21 ==> out@[k] == 0,
            forall|k: int| 0 <= k < i ==> #[trigger] out@[21 + k] == src@[start + k],
        decreases 11 - i,
    {
        out[21 + i] = src[start + i];
        i = i + 1;
    }
    proof {
        let expected = Seq::new(21, |i: int| 0u8) + src@.subrange(
            start as int,
            start as int + 11,
        );
        assert forall|k: int| 0 <= k < 32 implies out@[k] == expected[k] by {
            if k >= 21 {
                assert(out@[21 + (k - 21)] == src@[start + (k - 21)]);
            }
        }
        assert(out@ =~= expected);
    }
    out
}

/// Decodes any calldata string, dispatching on the leading 4-byte tag.
pub fn decode(calldata: &[u8]) -> (r: Result<Encoding, Error>)
    ensures
        match r {
            Ok(v) => spec_decode(calldata@) == Ok::<EncodingView, Error>(v@),
            Err(e) => spec_decode(calldata@) == Err::<EncodingView, Error>(e),
        },
{
    if calldata.len() < 4 {
        return Err(Error::CalldataLength);
    }
    proof {
        assert(calldata@.subrange(0, 4)[0] == calldata@[0]);
        assert(calldata@.subrange(0, 4)[1] == calldata@[1]);
        assert(calldata@.subrange(0, 4)[2] == calldata@[2]);
        assert(calldata@.subrange(0, 4)[3] == calldata@[3]);
    }
    if calldata[0] != 0 || calldata[1] != 0 || calldata[2] != 0 {
        return Err(Error::SelectorMismatch);
    }
    let tag = calldata[3];
    if tag == 1 {
        proof {
            assert(calldata@.subrange(0, 4) =~= seq![0u8, 0u8, 0u8, 1u8]);
        }
        match decode_set_auth(calldata) {
            Ok(v) => Ok(Encoding::SetAuth(v)),
            Err(e) => Err(e),
        }
    } else if tag == 2 {
        proof {
            assert(calldata@.subrange(0, 4) =~= seq![0u8, 0u8, 0u8, 2u8]);
        }
        match decode_set_threshold(calldata) {
            Ok(v) => Ok(Encoding::SetThreshold(v)),
            Err(e) => Err(e),
        }
    } else if tag == 3 {
        proof {
            assert(calldata@.subrange(0, 4) =~= seq![0u8, 0u8, 0u8, 3u8]);
        }
        match decode_set_shard(calldata) {
            Ok(v) => Ok(Encoding::SetShard(v)),
            Err(e) => Err(e),
        }
    } else if tag == 4 {
        proof {
            assert(calldata@.subrange(0, 4) =~= seq![0u8, 0u8, 0u8, 4u8]);
        }
        match decode_syscall(calldata) {
            Ok(v) => Ok(Encoding::Syscall(v)),
            Err(e) => Err(e),
        }
    } else {
        Err(Error::SelectorMismatch)
    }
}

/// Law: decoding inverts encoding for `setAuth` — for any well-formed
/// operation, decoding its calldata reproduces its fields exactly.
pub proof fn lemma_set_auth_round_trip(v: SetAuthView)
    requires
        v.wf(),
    ensures
        spec_decode_set_auth(spec_encode_set_auth(v)) == Ok::<SetAuthView, Error>(v),
{
    let c = spec_encode_set_auth(v);
    assert(c.len() == 25);
    assert(c.subrange(4, 24) =~= v.account);
    let d = spec_decode_set_auth(c).unwrap();
    assert(d.authorized == v.authorized);
    assert(d =~= v);
}

/// Law: decoding inverts encoding for `setThreshold`.
pub proof fn lemma_set_threshold_round_trip(v: SetThresholdView)
    ensures
        spec_decode_set_threshold(spec_encode_set_threshold(v)) == Ok::<SetThresholdView, Error>(
            v,
        ),
{
    let c = spec_encode_set_threshold(v);
    assert(c.len() == 5);
    assert(spec_decode_set_threshold(c).unwrap() =~= v);
}

/// Law: decoding inverts encoding for `setShard`.
pub proof fn lemma_set_shard_round_trip(v: SetShardView)
    requires
        v.wf(),
    ensures
        spec_decode_set_shard(spec_encode_set_shard(v)) == Ok::<SetShardView, Error>(v),
{
    let c = spec_encode_set_shard(v);
    assert(c.len() == 28);
    assert(c.subrange(4, 8) =~= v.selector);
    assert(c.subrange(8, 28) =~= v.shard);
    assert(spec_decode_set_shard(c).unwrap() =~= v);
}

/// Law: decoding inverts encoding for `syscall` — for any well-formed
/// operation whose value fits in 88 bits and whose payload length fits in
/// 32 bits, decoding its calldata reproduces its fields exactly,
/// including each 65-byte signature record in input order.
pub proof fn lemma_syscall_round_trip(v: SyscallView)
    requires
        v.wf(),
        be_val(v.value) < pow256(11),
        v.payload.len() <= 0xFFFFFFFF,
    ensures
        spec_decode_syscall(spec_encode_syscall(v)) == Ok::<SyscallView, Error>(v),
{
    let c = spec_encode_syscall(v);
    let n = v.signatures.len() as int;
    let plen = v.payload.len() as int;
    lemma_concat_sigs_len(v.signatures);
    assert(c.len() == 79 + plen + 65 * n);
    assert(c.subrange(75, 79) =~= be32(v.payload.len()));
    lemma_be32_val(v.payload.len() as u32);
    assert(spec_syscall_payload_len(c) == v.payload.len());
    assert((c.len() - 79 - plen) % 65 == 0);
    let m = spec_decode_syscall(c).unwrap();
    assert(c.subrange(4, 36) =~= v.id);
    assert(c.subrange(36, 56) =~= v.target);
    lemma_u88_bound(v.value);
    assert(c.subrange(56, 67) =~= v.value.subrange(21, 32));
    assert(m.value =~= v.value);
    assert(c.subrange(67, 75) =~= v.deadline);
    assert(c.subrange(79, 79 + plen) =~= v.payload);
    assert(m.signatures.len() == n);
    assert forall|j: int| 0 <= j < n implies m.signatures[j] == v.signatures[j] by {
        lemma_concat_sigs_chunk(v.signatures, j);
        assert(c.subrange(79 + plen + 65 * j, 79 + plen + 65 * j + 65) =~= concat_bytes(
            v.signatures,
        ).subrange(65 * j, 65 * j + 65));
    }
    assert(m.signatures =~= v.signatures);
    assert(m =~= v);
}

/// Law: round-trip — decoding any successfully encoded operation
/// reproduces the operation exactly, whichever of the four variants it
/// is.
pub proof fn lemma_round_trip(e: EncodingView)
    requires
        e.wf(),
    ensures
        spec_encode(e) matches Ok(c) ==> spec_decode(c) == Ok::<EncodingView, Error>(e),
{
    match e {
        EncodingView::SetAuth(v) => {
            let c = spec_encode_set_auth(v);
            assert(c.subrange(0, 4) =~= seq![0u8, 0u8, 0u8, 1u8]);
            lemma_set_auth_round_trip(v);
        },
        EncodingView::SetThreshold(v) => {
            let c = spec_encode_set_threshold(v);
            assert(c.subrange(0, 4) =~= seq![0u8, 0u8, 0u8, 2u8]);
            assert(c.subrange(0, 4)[3] == 2);
            lemma_set_threshold_round_trip(v);
        },
        EncodingView::SetShard(v) => {
            let c = spec_encode_set_shard(v);
            assert(c.subrange(0, 4) =~= seq![0u8, 0u8, 0u8, 3u8]);
            assert(c.subrange(0, 4)[3] == 3);
            lemma_set_shard_round_trip(v);
        },
        EncodingView::Syscall(v) => {
            if be_val(v.value) < pow256(11) && v.payload.len() <= 0xFFFFFFFF {
                let c = spec_encode_syscall(v);
                assert(c.subrange(0, 4) =~= seq![0u8, 0u8, 0u8, 4u8]);
                assert(c.subrange(0, 4)[3] == 4);
                lemma_syscall_round_trip(v);
            }
        },
    }
}

/// Law: re-encoding reproduces any accepted `setAuth` calldata whose
/// flag byte is canonical (0 or 1). For any other flag byte the decoder
/// reads `false` and the encoder writes 0, so the byte is not preserved.
pub proof fn lemma_set_auth_reencode(c: Seq<u8>)
    requires
        spec_decode_set_auth(c) is Ok,
        c.subrange(0, 4) == seq![0u8, 0u8, 0u8, 1u8],
        c[24] == 0 || c[24] == 1,
    ensures
        spec_decode_set_auth(c) matches Ok(v) ==> spec_encode_set_auth(v) == c,
{
    let v = spec_decode_set_auth(c).unwrap();
    assert(spec_encode_set_auth(v) =~= c);
}

/// Law: re-encoding reproduces any accepted `setThreshold` calldata.
pub proof fn lemma_set_threshold_reencode(c: Seq<u8>)
    requires
        spec_decode_set_threshold(c) is Ok,
        c.subrange(0, 4) == seq![0u8, 0u8, 0u8, 2u8],
    ensures
        spec_decode_set_threshold(c) matches Ok(v) ==> spec_encode_set_threshold(v) == c,
{
    let v = spec_decode_set_threshold(c).unwrap();
    assert(spec_encode_set_threshold(v) =~= c);
}

/// Law: re-encoding reproduces any accepted `setShard` calldata.
pub proof fn lemma_set_shard_reencode(c: Seq<u8>)
    requires
        spec_decode_set_shard(c) is Ok,
        c.subrange(0, 4) == seq![0u8, 0u8, 0u8, 3u8],
    ensures
        spec_decode_set_shard(c) matches Ok(v) ==> spec_encode_set_shard(v) == c,
{
    let v = spec_decode_set_shard(c).unwrap();
    assert(spec_encode_set_shard(v) =~= c);
}

/// Law: re-encoding reproduces any accepted `syscall` calldata byte for
/// byte; in particular the decoded value and payload length always pass
/// the encoder's range checks.
pub proof fn lemma_syscall_reencode(c: Seq<u8>)
    requires
        spec_decode_syscall(c) is Ok,
        c.subrange(0, 4) == seq![0u8, 0u8, 0u8, 4u8],
    ensures
        spec_decode_syscall(c) matches Ok(v) ==> spec_encode(EncodingView::Syscall(v))
            == Ok::<Seq<u8>, Error>(c),
{
    let v = spec_decode_syscall(c).unwrap();
    let plen = spec_syscall_payload_len(c) as int;

    // The decoded value carries 21 leading zero bytes, so it fits in 88
    // bits and passes the encoder's overflow check.
    assert(v.value.len() == 32);
    assert(forall|i: int| 0 <= i < 21 ==> v.value[i] == 0);
    lemma_u88_bound(v.value);

    // The length field holds at most 2^32 - 1, so the decoded payload
    // passes the encoder's length check.
    lemma_be_val_bound(c.subrange(75, 79));
    assert(pow256(0) == 1);
    assert(pow256(1) == 256);
    assert(pow256(2) == 0x10000);
    assert(pow256(3) == 0x1000000);
    assert(pow256(4) == 0x100000000);
    assert(v.payload.len() <= 0xFFFFFFFF);

    let e = spec_encode_syscall(v);
    assert(v.value.subrange(21, 32) =~= c.subrange(56, 67));
    lemma_be32_of_val(c.subrange(75, 79));
    assert(be32(v.payload.len()) == c.subrange(75, 79));

    let tail = c.subrange(79 + plen, c.len() as int);
    let n = (c.len() - 79 - plen) / 65;
    assert(tail.len() == 65 * n);
    lemma_concat_chunks(tail, n);
    assert forall|j: int| 0 <= j < n implies v.signatures[j] == Seq::new(
        n as nat,
        |k: int| tail.subrange(65 * k, 65 * k + 65),
    )[j] by {
        assert(c.subrange(79 + plen + 65 * j, 79 + plen + 65 * j + 65) =~= tail.subrange(
            65 * j,
            65 * j + 65,
        ));
    }
    assert(v.signatures =~= Seq::new(n as nat, |k: int| tail.subrange(65 * k, 65 * k + 65)));
    assert(concat_bytes(v.signatures) == tail);
    assert(e =~= c);
}

/// Law: round-trip in the other direction — re-encoding any accepted
/// calldata string reproduces it byte for byte, except a `setAuth`
/// string with a non-canonical flag byte, which this law leaves out.
pub proof fn lemma_reencode(c: Seq<u8>)
    requires
        spec_decode(c) is Ok,
        spec_decode(c) matches Ok(EncodingView::SetAuth(_)) ==> c[24] == 0 || c[24] == 1,
    ensures
        spec_decode(c) matches Ok(e) ==> spec_encode(e) == Ok::<Seq<u8>, Error>(c),
{
    if c.subrange(0, 4) == seq![0u8, 0u8, 0u8, 1u8] {
        lemma_set_auth_reencode(c);
        let v = spec_decode_set_auth(c).unwrap();
        assert(spec_encode_set_auth(v) == c);
    } else if c.subrange(0, 4) == seq![0u8, 0u8, 0u8, 2u8] {
        lemma_set_threshold_reencode(c);
    } else if c.subrange(0, 4) == seq![0u8, 0u8, 0u8, 3u8] {
        lemma_set_shard_reencode(c);
    } else {
        lemma_syscall_reencode(c);
    }
}

} // verus!
