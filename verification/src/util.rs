//! Big-endian byte arithmetic: the numeric meaning of byte sequences, the
//! fixed-width encodings the calldata format uses, and the conversion
//! helpers shared by the codec and the slot deriver.

use crate::structures::{Uint256, Uint64};
use vstd::prelude::*;

verus! {

/// The number a big-endian byte sequence stands for.
pub open spec fn be_val(s: Seq<u8>) -> nat
    decreases s.len(),
{
    if s.len() == 0 {
        0
    } else {
        be_val(s.drop_last()) * 256 + s.last() as nat
    }
}

/// `256^n`, the count of distinct byte sequences of length `n`.
pub open spec fn pow256(n: nat) -> nat
    decreases n,
{
    if n == 0 {
        1
    } else {
        256 * pow256((n - 1) as nat)
    }
}

/// The 4-byte big-endian encoding of a number below `2^32`.
pub open spec fn be32(n: nat) -> Seq<u8> {
    seq![
        ((n / 0x1000000) % 256) as u8,
        ((n / 0x10000) % 256) as u8,
        ((n / 0x100) % 256) as u8,
        (n % 256) as u8,
    ]
}

/// The 8-byte big-endian encoding of a number below `2^64`.
pub open spec fn be64(n: nat) -> Seq<u8> {
    seq![
        ((n / 0x100000000000000) % 256) as u8,
        ((n / 0x1000000000000) % 256) as u8,
        ((n / 0x10000000000) % 256) as u8,
        ((n / 0x100000000) % 256) as u8,
        ((n / 0x1000000) % 256) as u8,
        ((n / 0x10000) % 256) as u8,
        ((n / 0x100) % 256) as u8,
        (n % 256) as u8,
    ]
}

/// The concatenation of a sequence of byte sequences, in order.
pub open spec fn concat_bytes(s: Seq<Seq<u8>>) -> Seq<u8>
    decreases s.len(),
{
    if s.len() == 0 {
        Seq::empty()
    } else {
        s.first() + concat_bytes(s.drop_first())
    }
}

/// `256^n` is positive.
pub proof fn lemma_pow256_pos(n: nat)
    ensures
        pow256(n) >= 1,
    decreases n,
{
    if n > 0 {
        lemma_pow256_pos((n - 1) as nat);
    }
}

/// `256^n` grows with `n`.
pub proof fn lemma_pow256_monotone(a: nat, b: nat)
    requires
        a <= b,
    ensures
        pow256(a) <= pow256(b),
    decreases b,
{
    if a < b {
        lemma_pow256_monotone(a, (b - 1) as nat);
        lemma_pow256_pos((b - 1) as nat);
    }
}

/// A big-endian value is below `256^len`.
pub proof fn lemma_be_val_bound(s: Seq<u8>)
    ensures
        be_val(s) < pow256(s.len()),
    decreases s.len(),
{
    if s.len() > 0 {
        lemma_be_val_bound(s.drop_last());
    }
}

/// A sequence of zero bytes stands for zero.
pub proof fn lemma_be_val_all_zero(s: Seq<u8>)
    requires
        forall|i: int| 0 <= i < s.len() ==> s[i] == 0,
    ensures
        be_val(s) == 0,
    decreases s.len(),
{
    if s.len() > 0 {
        lemma_be_val_all_zero(s.drop_last());
    }
}

/// Leading zero bytes do not change the value.
pub proof fn lemma_be_val_drop_leading_zeros(s: Seq<u8>, k: int)
    requires
        0 <= k <= s.len(),
        forall|i: int| 0 <= i < k ==> s[i] == 0,
    ensures
        be_val(s) == be_val(s.subrange(k, s.len() as int)),
    decreases s.len(),
{
    if s.len() == k {
        lemma_be_val_all_zero(s);
        assert(s.subrange(k, s.len() as int) =~= Seq::<u8>::empty());
    } else {
        let dl = s.drop_last();
        let sub = s.subrange(k, s.len() as int);
        lemma_be_val_drop_leading_zeros(dl, k);
        assert(dl.subrange(k, dl.len() as int) =~= sub.drop_last());
        assert(sub.last() == s.last());
        assert(be_val(sub) == be_val(sub.drop_last()) * 256 + sub.last());
    }
}

/// A nonzero byte at index `i` forces the value to at least
/// `256^(len - 1 - i)`.
pub proof fn lemma_be_val_nonzero_digit(s: Seq<u8>, i: int)
    requires
        0 <= i < s.len(),
        s[i] != 0,
    ensures
        be_val(s) >= pow256((s.len() - 1 - i) as nat),
    decreases s.len(),
{
    if i == s.len() - 1 {
    } else {
        lemma_be_val_nonzero_digit(s.drop_last(), i);
    }
}

/// Law: two byte sequences of one length standing for the same number
/// are equal — `be_val` pins the bytes.
pub proof fn lemma_be_val_injective(s: Seq<u8>, t: Seq<u8>)
    requires
        s.len() == t.len(),
        be_val(s) == be_val(t),
    ensures
        s == t,
    decreases s.len(),
{
    if s.len() > 0 {
        assert(be_val(s) == be_val(s.drop_last()) * 256 + s.last());
        assert(be_val(t) == be_val(t.drop_last()) * 256 + t.last());
        assert(s.last() == t.last() && be_val(s.drop_last()) == be_val(t.drop_last())) by {
            assert(s.last() < 256 && t.last() < 256);
        }
        lemma_be_val_injective(s.drop_last(), t.drop_last());
        assert forall|i: int| 0 <= i < s.len() implies s[i] == t[i] by {
            if i < s.len() - 1 {
                assert(s.drop_last()[i] == t.drop_last()[i]);
            }
        }
        assert(s =~= t);
    } else {
        assert(s =~= t);
    }
}

/// For a 32-byte word, fitting in 88 bits is the same as the first 21
/// bytes being zero.
pub proof fn lemma_u88_bound(s: Seq<u8>)
    requires
        s.len() == 32,
    ensures
        be_val(s) < pow256(11) <==> (forall|i: int| 0 <= i < 21 ==> s[i] == 0),
{
    if forall|i: int| 0 <= i < 21 ==> s[i] == 0 {
        lemma_be_val_drop_leading_zeros(s, 21);
        lemma_be_val_bound(s.subrange(21, 32));
        assert(s.subrange(21, 32).len() == 11);
    } else {
        let i = choose|i: int| 0 <= i < 21 && #[trigger] s[i] != 0;
        lemma_be_val_nonzero_digit(s, i);
        lemma_pow256_monotone(11, (31 - i) as nat);
    }
}

/// Unfolds `be_val` on a 4-byte sequence.
pub proof fn lemma_be_val4(s: Seq<u8>)
    requires
        s.len() == 4,
    ensures
        be_val(s) == ((s[0] * 256 + s[1]) * 256 + s[2]) * 256 + s[3],
{
    let s3 = s.drop_last();
    let s2 = s3.drop_last();
    let s1 = s2.drop_last();
    let s0 = s1.drop_last();
    assert(s0 =~= Seq::<u8>::empty());
    assert(be_val(s1) == be_val(s0) * 256 + s[0]);
    assert(be_val(s2) == be_val(s1) * 256 + s[1]);
    assert(be_val(s3) == be_val(s2) * 256 + s[2]);
    assert(be_val(s) == be_val(s3) * 256 + s[3]);
}

/// Unfolds `be_val` on an 8-byte sequence.
pub proof fn lemma_be_val8(s: Seq<u8>)
    requires
        s.len() == 8,
    ensures
        be_val(s) == ((((((s[0] * 256 + s[1]) * 256 + s[2]) * 256 + s[3]) * 256 + s[4]) * 256
            + s[5]) * 256 + s[6]) * 256 + s[7],
{
    let s7 = s.drop_last();
    let s6 = s7.drop_last();
    let s5 = s6.drop_last();
    let s4 = s5.drop_last();
    let s3 = s4.drop_last();
    let s2 = s3.drop_last();
    let s1 = s2.drop_last();
    let s0 = s1.drop_last();
    assert(s0 =~= Seq::<u8>::empty());
    assert(be_val(s1) == be_val(s0) * 256 + s[0]);
    assert(be_val(s2) == be_val(s1) * 256 + s[1]);
    assert(be_val(s3) == be_val(s2) * 256 + s[2]);
    assert(be_val(s4) == be_val(s3) * 256 + s[3]);
    assert(be_val(s5) == be_val(s4) * 256 + s[4]);
    assert(be_val(s6) == be_val(s5) * 256 + s[5]);
    assert(be_val(s7) == be_val(s6) * 256 + s[6]);
    assert(be_val(s) == be_val(s7) * 256 + s[7]);
}

/// `be32` really encodes its argument.
pub proof fn lemma_be32_val(n: u32)
    ensures
        be_val(be32(n as nat)) == n,
{
    lemma_be_val4(be32(n as nat));
    assert(((n / 0x1000000) % 256) * 0x1000000 + ((n / 0x10000) % 256) * 0x10000 + ((n / 0x100)
        % 256) * 0x100 + (n % 256) == n) by (bit_vector);
}

/// `be64` really encodes its argument.
pub proof fn lemma_be64_val(n: u64)
    ensures
        be_val(be64(n as nat)) == n,
{
    lemma_be_val8(be64(n as nat));
    assert(((n / 0x100000000000000) % 256) * 0x100000000000000 + ((n / 0x1000000000000) % 256)
        * 0x1000000000000 + ((n / 0x10000000000) % 256) * 0x10000000000 + ((n / 0x100000000)
        % 256) * 0x100000000 + ((n / 0x1000000) % 256) * 0x1000000 + ((n / 0x10000) % 256)
        * 0x10000 + ((n / 0x100) % 256) * 0x100 + (n % 256) == n) by (bit_vector);
}

/// `be32` is the inverse of `be_val` on 4-byte sequences.
pub proof fn lemma_be32_of_val(s: Seq<u8>)
    requires
        s.len() == 4,
    ensures
        be32(be_val(s)) == s,
{
    lemma_be_val4(s);
    let a = s[0];
    let b = s[1];
    let c = s[2];
    let d = s[3];
    assert(((((a as u32) * 256 + (b as u32)) * 256 + (c as u32)) * 256 + (d as u32)) / 0x1000000
        % 256 == a as u32) by (bit_vector);
    assert(((((a as u32) * 256 + (b as u32)) * 256 + (c as u32)) * 256 + (d as u32)) / 0x10000
        % 256 == b as u32) by (bit_vector);
    assert(((((a as u32) * 256 + (b as u32)) * 256 + (c as u32)) * 256 + (d as u32)) / 0x100
        % 256 == c as u32) by (bit_vector);
    assert(((((a as u32) * 256 + (b as u32)) * 256 + (c as u32)) * 256 + (d as u32)) % 256
        == d as u32) by (bit_vector);
    assert(be32(be_val(s)) =~= s);
}

/// A byte string of `65 * n` bytes is the concatenation of its `n`
/// 65-byte chunks.
pub proof fn lemma_concat_chunks(t: Seq<u8>, n: int)
    requires
        n >= 0,
        t.len() == 65 * n,
    ensures
        concat_bytes(Seq::new(n as nat, |j: int| t.subrange(65 * j, 65 * j + 65))) == t,
    decreases n,
{
    let s = Seq::new(n as nat, |j: int| t.subrange(65 * j, 65 * j + 65));
    if n == 0 {
        assert(t =~= Seq::<u8>::empty());
    } else {
        let t2 = t.subrange(65, t.len() as int);
        lemma_concat_chunks(t2, n - 1);
        let s2 = Seq::new((n - 1) as nat, |j: int| t2.subrange(65 * j, 65 * j + 65));
        assert forall|j: int| 0 <= j < n - 1 implies s.drop_first()[j] == s2[j] by {
            assert(t.subrange(65 * (j + 1), 65 * (j + 1) + 65) =~= t2.subrange(
                65 * j,
                65 * j + 65,
            ));
        }
        assert(s.drop_first() =~= s2);
        assert(concat_bytes(s) == s.first() + concat_bytes(s2));
        assert(s.first() == t.subrange(0, 65));
        assert(t.subrange(0, 65) + t2 =~= t);
    }
}

/// Appending one record extends the concatenation by that record.
pub proof fn lemma_concat_bytes_push(s: Seq<Seq<u8>>, x: Seq<u8>)
    ensures
        concat_bytes(s.push(x)) == concat_bytes(s) + x,
    decreases s.len(),
{
    if s.len() == 0 {
        assert(s.push(x).drop_first() =~= Seq::<Seq<u8>>::empty());
        assert(s.push(x).first() == x);
        assert(concat_bytes(s.push(x)) == x + concat_bytes(Seq::<Seq<u8>>::empty()));
        assert(x + Seq::<u8>::empty() =~= Seq::<u8>::empty() + x);
    } else {
        lemma_concat_bytes_push(s.drop_first(), x);
        assert(s.push(x).drop_first() =~= s.drop_first().push(x));
        assert(s.push(x).first() == s.first());
        assert(concat_bytes(s.push(x)) == s.first() + (concat_bytes(s.drop_first()) + x));
        assert(s.first() + (concat_bytes(s.drop_first()) + x) =~= (s.first() + concat_bytes(
            s.drop_first(),
        )) + x);
    }
}

/// The concatenation of `n` records of 65 bytes each has `65 * n` bytes.
pub proof fn lemma_concat_sigs_len(s: Seq<Seq<u8>>)
    requires
        forall|j: int| 0 <= j < s.len() ==> (#[trigger] s[j]).len() == 65,
    ensures
        concat_bytes(s).len() == 65 * s.len(),
    decreases s.len(),
{
    if s.len() > 0 {
        lemma_concat_sigs_len(s.drop_first());
    }
}

/// The `j`-th 65-byte chunk of the concatenation is the `j`-th record.
pub proof fn lemma_concat_sigs_chunk(s: Seq<Seq<u8>>, j: int)
    requires
        forall|k: int| 0 <= k < s.len() ==> (#[trigger] s[k]).len() == 65,
        0 <= j < s.len(),
    ensures
        concat_bytes(s).subrange(65 * j, 65 * j + 65) == s[j],
    decreases j,
{
    lemma_concat_sigs_len(s);
    if j == 0 {
        assert(concat_bytes(s).subrange(0, 65) =~= s[0]);
    } else {
        lemma_concat_sigs_chunk(s.drop_first(), j - 1);
        lemma_concat_sigs_len(s.drop_first());
        assert(concat_bytes(s).subrange(65 * j, 65 * j + 65) =~= concat_bytes(
            s.drop_first(),
        ).subrange(65 * (j - 1), 65 * (j - 1) + 65));
    }
}

/// Appends all of `src` to `out`, in order.
pub(crate) fn push_bytes(out: &mut Vec<u8>, src: &[u8])
    ensures
        final(out)@ == old(out)@ + src@,
{
    let mut i: usize = 0;
    while i < src.len()
        invariant
            i <= src@.len(),
            out@ == old(out)@ + src@.subrange(0, i as int),
        decreases src@.len() - i,
    {
        out.push(src[i]);
        proof {
            assert(old(out)@ + src@.subrange(0, (i + 1) as int) =~= (old(out)@ + src@.subrange(
                0,
                i as int,
            )).push(src@[i as int]));
        }
        i = i + 1;
    }
    proof {
        assert(src@.subrange(0, src@.len() as int) =~= src@);
    }
}

/// Appends `n` zero bytes to `out`.
pub(crate) fn push_zeros(out: &mut Vec<u8>, n: usize)
    ensures
        final(out)@ == old(out)@ + Seq::new(n as nat, |i: int| 0u8),
{
    let mut i: usize = 0;
    while i < n
        invariant
            i <= n,
            out@ == old(out)@ + Seq::new(i as nat, |k: int| 0u8),
        decreases n - i,
    {
        out.push(0);
        proof {
            assert(old(out)@ + Seq::new((i + 1) as nat, |k: int| 0u8) =~= (old(out)@ + Seq::new(
                i as nat,
                |k: int| 0u8,
            )).push(0u8));
        }
        i = i + 1;
    }
}

/// The 32 big-endian bytes of a 256-bit integer.
pub fn u256_to_be(value: &Uint256) -> (r: [u8; 32])
    ensures
        r@ == value@,
{
    value.bytes
}

/// The 8 big-endian bytes of a 64-bit integer.
pub fn u64_to_be(value: &Uint64) -> (r: [u8; 8])
    ensures
        r@ == value@,
{
    value.bytes
}

} // verus!
