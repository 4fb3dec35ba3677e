//! Plain-value models of the daemon's records: deposit outpoints, vault
//! statuses, presigned transaction roles and partial signatures.

use vstd::prelude::*;

verus! {

/// The sighash flag that a signature on a revocation transaction must carry
/// (`ALL|ANYONECANPAY`).
pub const SIGHASH_ALL_ANYONECANPAY: u8 = 0x81;

/// The sighash flag that a signature on an Unvault transaction must carry (`ALL`).
pub const SIGHASH_ALL: u8 = 0x01;

/// A deposit outpoint: the funding transaction's id and the output index.
#[derive(Debug)]
pub struct OutPoint {
    pub txid: Vec<u8>,
    pub vout: u32,
}

impl View for OutPoint {
    type V = (Seq<u8>, u32);

    open spec fn view(&self) -> (Seq<u8>, u32) {
        (self.txid@, self.vout)
    }
}

impl Clone for OutPoint {
    fn clone(&self) -> (r: Self)
        ensures
            r@ == self@,
    {
        OutPoint { txid: copy_bytes(&self.txid), vout: self.vout }
    }
}

impl OutPoint {
    /// Whether two outpoints designate the same output.
    pub fn same(&self, other: &OutPoint) -> (r: bool)
        ensures
            r == (self@ == other@),
    {
        self.vout == other.vout && bytes_eq(&self.txid, &other.txid)
    }
}

/// The life-cycle of a vault.
#[derive(Clone, Copy, Debug, PartialEq, Eq, Structural)]
pub enum VaultStatus {
    Unconfirmed,
    Funded,
    Securing,
    Secured,
    Activating,
    Active,
    Unvaulting,
    Unvaulted,
    Canceling,
    EmergencyVaulting,
    UnvaultEmergencyVaulting,
    Spending,
    Canceled,
    EmergencyVaulted,
    UnvaultEmergencyVaulted,
    Spent,
}

/// The four presigned transactions bound to a vault.
#[derive(Clone, Copy, Debug, PartialEq, Eq, Structural)]
pub enum TxRole {
    Unvault,
    Cancel,
    Emergency,
    UnvaultEmergency,
}

/// The sighash flag that the signatures on a transaction of this role carry.
pub open spec fn role_flag(role: TxRole) -> u8 {
    match role {
        TxRole::Unvault => SIGHASH_ALL,
        _ => SIGHASH_ALL_ANYONECANPAY,
    }
}

/// Whether a role is one of the three revocation transactions.
pub open spec fn is_revocation(role: TxRole) -> bool {
    role != TxRole::Unvault
}

impl TxRole {
    /// The sighash flag expected on signatures for this role.
    pub fn sighash_flag(&self) -> (r: u8)
        ensures
            r == role_flag(*self),
    {
        match self {
            TxRole::Unvault => SIGHASH_ALL,
            _ => SIGHASH_ALL_ANYONECANPAY,
        }
    }
}

/// One partial signature of a transaction input: the signer's public key
/// (serialized) and the DER signature followed by its one-byte sighash flag.
#[derive(Debug)]
pub struct PartialSig {
    pub pubkey: Vec<u8>,
    pub sig: Vec<u8>,
}

impl View for PartialSig {
    type V = (Seq<u8>, Seq<u8>);

    open spec fn view(&self) -> (Seq<u8>, Seq<u8>) {
        (self.pubkey@, self.sig@)
    }
}

impl Clone for PartialSig {
    fn clone(&self) -> (r: Self)
        ensures
            r@ == self@,
    {
        PartialSig { pubkey: copy_bytes(&self.pubkey), sig: copy_bytes(&self.sig) }
    }
}

/// The abstract contents of a list of partial signatures.
pub open spec fn sigs_view(sigs: Seq<PartialSig>) -> Seq<(Seq<u8>, Seq<u8>)> {
    sigs.map_values(|s: PartialSig| s@)
}

/// Whether `pk` has an entry in a list of partial signatures.
pub open spec fn has_key(sigs: Seq<(Seq<u8>, Seq<u8>)>, pk: Seq<u8>) -> bool {
    exists|i: int| 0 <= i < sigs.len() && (#[trigger] sigs[i]).0 == pk
}

/// No public key holds two different signatures in the list.
pub open spec fn consistent(sigs: Seq<(Seq<u8>, Seq<u8>)>) -> bool {
    forall|i: int, j: int|
        0 <= i < sigs.len() && 0 <= j < sigs.len() && (#[trigger] sigs[i]).0 == (#[trigger] sigs[j]).0
            ==> sigs[i].1 == sigs[j].1
}

/// Every public key has at most one entry in the list.
pub open spec fn keys_unique(sigs: Seq<(Seq<u8>, Seq<u8>)>) -> bool {
    forall|i: int, j: int|
        0 <= i < sigs.len() && 0 <= j < sigs.len() && (#[trigger] sigs[i]).0 == (#[trigger] sigs[j]).0
            ==> i == j
}

/// A presigned transaction as the daemon reads it: the ids of its unsigned
/// transaction, the digest that signatures for its role commit to, and the
/// partial signatures collected on its (single) input.
#[derive(Debug)]
pub struct PresignedTx {
    pub txid: Vec<u8>,
    pub wtxid: Vec<u8>,
    pub sighash: Vec<u8>,
    pub partial_sigs: Vec<PartialSig>,
}

/// The abstract value of a presigned transaction.
pub struct TxView {
    pub txid: Seq<u8>,
    pub wtxid: Seq<u8>,
    pub sighash: Seq<u8>,
    pub sigs: Seq<(Seq<u8>, Seq<u8>)>,
}

impl View for PresignedTx {
    type V = TxView;

    open spec fn view(&self) -> TxView {
        TxView {
            txid: self.txid@,
            wtxid: self.wtxid@,
            sighash: self.sighash@,
            sigs: sigs_view(self.partial_sigs@),
        }
    }
}

impl Clone for PresignedTx {
    fn clone(&self) -> (r: Self)
        ensures
            r@ == self@,
    {
        PresignedTx {
            txid: copy_bytes(&self.txid),
            wtxid: copy_bytes(&self.wtxid),
            sighash: copy_bytes(&self.sighash),
            partial_sigs: copy_sigs(&self.partial_sigs),
        }
    }
}

/// A copy of a byte string.
pub fn copy_bytes(b: &Vec<u8>) -> (r: Vec<u8>)
    ensures
        r@ == b@,
{
    let r = b.clone();
    assert(r@ =~= b@);
    r
}

/// Byte-string equality.
pub fn bytes_eq(a: &Vec<u8>, b: &Vec<u8>) -> (r: bool)
    ensures
        r == (a@ == b@),
{
    if a.len() != b.len() {
        return false;
    }
    let mut i: usize = 0;
    while i < a.len()
        invariant
            a@.len() == b@.len(),
            0 <= i <= a@.len(),
            forall|k: int| 0 <= k < i ==> a@[k] == b@[k],
        decreases a@.len() - i,
    {
        if a[i] != b[i] {
            return false;
        }
        i = i + 1;
    }
    assert(a@ =~= b@);
    true
}

/// A copy of a list of partial signatures.
pub fn copy_sigs(sigs: &Vec<PartialSig>) -> (r: Vec<PartialSig>)
    ensures
        sigs_view(r@) == sigs_view(sigs@),
{
    let mut r: Vec<PartialSig> = Vec::new();
    let mut i: usize = 0;
    while i < sigs.len()
        invariant
            0 <= i <= sigs@.len(),
            r@.len() == i,
            forall|k: int| 0 <= k < i ==> (#[trigger] r@[k])@ == sigs@[k]@,
        decreases sigs@.len() - i,
    {
        r.push(sigs[i].clone());
        i = i + 1;
    }
    assert(sigs_view(r@) =~= sigs_view(sigs@));
    r
}

} // verus!
