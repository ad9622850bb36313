//! Value objects for the deck's four administrative operations.
//!
//! Addresses, 256-bit and 64-bit integers and signature records are held as
//! fixed-width big-endian byte arrays, so that every field the codec reads
//! or writes is a plain value with an exact byte-level meaning. The view of
//! each type is the byte sequence (or, for the operation structures, a
//! record of byte sequences) that the codec contracts speak of.

use crate::util::{be64, be_val, lemma_be64_val, lemma_be_val_drop_leading_zeros};
use vstd::prelude::*;

verus! {

/// A 20-byte account address.
#[derive(Debug, Clone, Copy, PartialEq, Eq)]
pub struct Address {
    pub bytes: [u8; 20],
}

impl View for Address {
    type V = Seq<u8>;

    open spec fn view(&self) -> Seq<u8> {
        self.bytes@
    }
}

/// A 256-bit unsigned integer, stored as its 32 big-endian bytes.
#[derive(Debug, Clone, Copy, PartialEq, Eq)]
pub struct Uint256 {
    pub bytes: [u8; 32],
}

impl View for Uint256 {
    type V = Seq<u8>;

    open spec fn view(&self) -> Seq<u8> {
        self.bytes@
    }
}

impl Uint256 {
    /// A 256-bit integer from its 32 big-endian bytes.
    pub fn new(bytes: [u8; 32]) -> (r: Self)
        ensures
            r@ == bytes@,
    {
        Self { bytes }
    }

    /// The 256-bit integer with the value of a 64-bit one.
    pub fn from_u64(v: u64) -> (r: Self)
        ensures
            r@ == Seq::new(24, |i: int| 0u8) + be64(v as nat),
            be_val(r@) == v,
    {
        let mut bytes = [0u8; 32];
        bytes[24] = ((v / 0x100000000000000) % 256) as u8;
        bytes[25] = ((v / 0x1000000000000) % 256) as u8;
        bytes[26] = ((v / 0x10000000000) % 256) as u8;
        bytes[27] = ((v / 0x100000000) % 256) as u8;
        bytes[28] = ((v / 0x1000000) % 256) as u8;
        bytes[29] = ((v / 0x10000) % 256) as u8;
        bytes[30] = ((v / 0x100) % 256) as u8;
        bytes[31] = (v % 256) as u8;
        proof {
            assert(bytes@ =~= Seq::new(24, |i: int| 0u8) + be64(v as nat));
            lemma_be_val_drop_leading_zeros(bytes@, 24);
            assert(bytes@.subrange(24, 32) =~= be64(v as nat));
            lemma_be64_val(v);
        }
        Self { bytes }
    }
}

/// A 64-bit unsigned integer, stored as its 8 big-endian bytes.
#[derive(Debug, Clone, Copy, PartialEq, Eq)]
pub struct Uint64 {
    pub bytes: [u8; 8],
}

impl View for Uint64 {
    type V = Seq<u8>;

    open spec fn view(&self) -> Seq<u8> {
        self.bytes@
    }
}

impl Uint64 {
    /// A 64-bit integer from its 8 big-endian bytes.
    pub fn new(bytes: [u8; 8]) -> (r: Self)
        ensures
            r@ == bytes@,
    {
        Self { bytes }
    }

    /// The big-endian form of a native 64-bit integer.
    pub fn from_u64(v: u64) -> (r: Self)
        ensures
            r@ == be64(v as nat),
            be_val(r@) == v,
    {
        let mut bytes = [0u8; 8];
        bytes[0] = ((v / 0x100000000000000) % 256) as u8;
        bytes[1] = ((v / 0x1000000000000) % 256) as u8;
        bytes[2] = ((v / 0x10000000000) % 256) as u8;
        bytes[3] = ((v / 0x100000000) % 256) as u8;
        bytes[4] = ((v / 0x1000000) % 256) as u8;
        bytes[5] = ((v / 0x10000) % 256) as u8;
        bytes[6] = ((v / 0x100) % 256) as u8;
        bytes[7] = (v % 256) as u8;
        proof {
            assert(bytes@ =~= be64(v as nat));
            lemma_be64_val(v);
        }
        Self { bytes }
    }
}

/// One 65-byte signature record: `r (32) ‖ s (32) ‖ v (1)`.
#[derive(Debug, Clone, Copy, PartialEq, Eq)]
pub struct Signature {
    pub bytes: [u8; 65],
}

impl View for Signature {
    type V = Seq<u8>;

    open spec fn view(&self) -> Seq<u8> {
        self.bytes@
    }
}

/// The fields of a `setAuth` operation, as byte sequences.
#[verifier::ext_equal]
pub struct SetAuthView {
    pub account: Seq<u8>,
    pub authorized: bool,
}

impl SetAuthView {
    /// Field widths of a well-formed `setAuth` operation.
    pub open spec fn wf(self) -> bool {
        self.account.len() == 20
    }
}

/// Sets the authorization flag of one account.
#[derive(Debug)]
pub struct SetAuth {
    account: Address,
    authorized: bool,
}

impl View for SetAuth {
    type V = SetAuthView;

    closed spec fn view(&self) -> SetAuthView {
        SetAuthView { account: self.account@, authorized: self.authorized }
    }
}

impl SetAuth {
    /// Builds a `setAuth` operation for the given account and flag.
    pub fn new(account: &Address, authorized: bool) -> (r: Self)
        ensures
            r@.account == account@,
            r@.authorized == authorized,
    {
        Self { account: *account, authorized }
    }

    /// The account whose authorization is set.
    pub fn account(&self) -> (r: &Address)
        ensures
            r@ == self@.account,
    {
        &self.account
    }

    /// Whether the account becomes authorized.
    pub fn authorized(&self) -> (r: bool)
        ensures
            r == self@.authorized,
    {
        self.authorized
    }
}

/// The fields of a `setThreshold` operation.
#[verifier::ext_equal]
pub struct SetThresholdView {
    pub threshold: u8,
}

/// Sets the signature threshold of the deck.
#[derive(Debug)]
pub struct SetThreshold {
    pub threshold: u8,
}

impl View for SetThreshold {
    type V = SetThresholdView;

    open spec fn view(&self) -> SetThresholdView {
        SetThresholdView { threshold: self.threshold }
    }
}

impl SetThreshold {
    /// Builds a `setThreshold` operation for the given threshold.
    pub fn new(threshold: u8) -> (r: Self)
        ensures
            r@.threshold == threshold,
    {
        Self { threshold }
    }

    /// The new threshold.
    pub fn threshold(&self) -> (r: u8)
        ensures
            r == self@.threshold,
    {
        self.threshold
    }
}

/// The fields of a `setShard` operation, as byte sequences.
#[verifier::ext_equal]
pub struct SetShardView {
    pub selector: Seq<u8>,
    pub shard: Seq<u8>,
}

impl SetShardView {
    /// Field widths of a well-formed `setShard` operation.
    pub open spec fn wf(self) -> bool {
        self.selector.len() == 4 && self.shard.len() == 20
    }
}

/// Routes one 4-byte selector to a delegate target address.
#[derive(Debug)]
pub struct SetShard {
    selector: [u8; 4],
    shard: Address,
}

impl View for SetShard {
    type V = SetShardView;

    closed spec fn view(&self) -> SetShardView {
        SetShardView { selector: self.selector@, shard: self.shard@ }
    }
}

impl SetShard {
    /// Builds a `setShard` operation for the given selector and target.
    pub fn new(selector: &[u8; 4], shard: &Address) -> (r: Self)
        ensures
            r@.selector == selector@,
            r@.shard == shard@,
    {
        Self { selector: *selector, shard: *shard }
    }

    /// The selector whose route is set.
    pub fn selector(&self) -> (r: &[u8; 4])
        ensures
            r@ == self@.selector,
    {
        &self.selector
    }

    /// The delegate target the selector is routed to.
    pub fn shard(&self) -> (r: &Address)
        ensures
            r@ == self@.shard,
    {
        &self.shard
    }
}

/// The fields of a `syscall` operation, as byte sequences.
#[verifier::ext_equal]
pub struct SyscallView {
    pub id: Seq<u8>,
    pub target: Seq<u8>,
    pub value: Seq<u8>,
    pub deadline: Seq<u8>,
    pub payload: Seq<u8>,
    pub signatures: Seq<Seq<u8>>,
}

impl SyscallView {
    /// Field widths of a well-formed `syscall` operation.
    pub open spec fn wf(self) -> bool {
        self.id.len() == 32 && self.target.len() == 20 && self.value.len() == 32
            && self.deadline.len() == 8 && forall|j: int|
            0 <= j < self.signatures.len() ==> (#[trigger] self.signatures[j]).len() == 65
    }
}

/// The generic, signature-authorized operation: a call of `target` with
/// `value` and `payload`, replay-protected by `id` and `deadline` and
/// authorized by an ordered sequence of 65-byte signature records.
#[derive(Debug)]
pub struct Syscall {
    id: Uint256,
    target: Address,
    value: Uint256,
    deadline: Uint64,
    payload: Vec<u8>,
    signatures: Vec<Signature>,
}

impl View for Syscall {
    type V = SyscallView;

    closed spec fn view(&self) -> SyscallView {
        SyscallView {
            id: self.id@,
            target: self.target@,
            value: self.value@,
            deadline: self.deadline@,
            payload: self.payload@,
            signatures: self.signatures@.map_values(|s: Signature| s@),
        }
    }
}

impl Syscall {
    /// Builds a `syscall` operation; the payload and signature records are
    /// copied into the new value.
    pub fn new(
        id: &Uint256,
        target: &Address,
        value: &Uint256,
        deadline: &Uint64,
        payload: &[u8],
        signatures: &[Signature],
    ) -> (r: Self)
        ensures
            r@.id == id@,
            r@.target == target@,
            r@.value == value@,
            r@.deadline == deadline@,
            r@.payload == payload@,
            r@.signatures == signatures@.map_values(|s: Signature| s@),
    {
        Self {
            id: *id,
            target: *target,
            value: *value,
            deadline: *deadline,
            payload: vstd::slice::slice_to_vec(payload),
            signatures: vstd::slice::slice_to_vec(signatures),
        }
    }

    /// The unique replay identifier.
    pub fn id(&self) -> (r: &Uint256)
        ensures
            r@ == self@.id,
    {
        &self.id
    }

    /// The call target.
    pub fn target(&self) -> (r: &Address)
        ensures
            r@ == self@.target,
    {
        &self.target
    }

    /// The call value.
    pub fn value(&self) -> (r: &Uint256)
        ensures
            r@ == self@.value,
    {
        &self.value
    }

    /// The call deadline.
    pub fn deadline(&self) -> (r: &Uint64)
        ensures
            r@ == self@.deadline,
    {
        &self.deadline
    }

    /// The call payload.
    pub fn payload(&self) -> (r: &[u8])
        ensures
            r@ == self@.payload,
    {
        self.payload.as_slice()
    }

    /// The signature records, in order.
    pub fn signatures(&self) -> (r: &[Signature])
        ensures
            r@.map_values(|s: Signature| s@) == self@.signatures,
    {
        self.signatures.as_slice()
    }
}

/// The fields of any one of the four operations.
#[verifier::ext_equal]
pub enum EncodingView {
    SetAuth(SetAuthView),
    SetThreshold(SetThresholdView),
    SetShard(SetShardView),
    Syscall(SyscallView),
}

impl EncodingView {
    /// Field widths of a well-formed operation.
    pub open spec fn wf(self) -> bool {
        match self {
            EncodingView::SetAuth(v) => v.wf(),
            EncodingView::SetThreshold(v) => true,
            EncodingView::SetShard(v) => v.wf(),
            EncodingView::Syscall(v) => v.wf(),
        }
    }
}

/// One of the deck's four operations, keyed on the wire by a 4-byte tag.
#[derive(Debug)]
pub enum Encoding {
    /// Tag 1.
    SetAuth(SetAuth),
    /// Tag 2.
    SetThreshold(SetThreshold),
    /// Tag 3.
    SetShard(SetShard),
    /// Tag 4.
    Syscall(Syscall),
}

impl View for Encoding {
    type V = EncodingView;

    open spec fn view(&self) -> EncodingView {
        match self {
            Encoding::SetAuth(v) => EncodingView::SetAuth(v@),
            Encoding::SetThreshold(v) => EncodingView::SetThreshold(v@),
            Encoding::SetShard(v) => EncodingView::SetShard(v@),
            Encoding::Syscall(v) => EncodingView::Syscall(v@),
        }
    }
}

} // verus!
