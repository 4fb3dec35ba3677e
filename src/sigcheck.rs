//! Checks of the partial signatures handed in for presigned transactions:
//! the sighash flag byte, the DER encoding and the ECDSA validity against the
//! transaction's sighash.

use crate::types::{
    role_flag, sigs_view, PartialSig, PresignedTx, TxRole, SIGHASH_ALL, SIGHASH_ALL_ANYONECANPAY,
};
use revault_tx::bitcoin::secp256k1;
use vstd::prelude::*;

verus! {

#[verifier::external_type_specification]
#[verifier::external_body]
pub struct ExSecpError(secp256k1::Error);

/// Whether `der` parses as a DER-encoded ECDSA signature that is valid for the
/// 32-byte message `msg` under the serialized secp256k1 public key `pubkey`.
pub uninterp spec fn ecdsa_verifies(msg: Seq<u8>, der: Seq<u8>, pubkey: Seq<u8>) -> bool;

/// Relies on secp256k1's `Secp256k1::verify`, with its arguments converted by
/// `Message::from_slice` (exactly 32 bytes), `Signature::from_der` (an empty
/// input is refused) and `PublicKey::from_slice`. Each of these is a function
/// of the bytes alone.
#[verifier::external_body]
fn verify_der_signature(msg: &[u8], der: &[u8], pubkey: &[u8]) -> (r: Result<(), secp256k1::Error>)
    ensures
        r is Ok <==> ecdsa_verifies(msg@, der@, pubkey@),
        der@.len() == 0 ==> r is Err,
        msg@.len() != 32 ==> r is Err,
{
    let msg = secp256k1::Message::from_slice(msg)?;
    let sig = secp256k1::Signature::from_der(der)?;
    let pk = secp256k1::PublicKey::from_slice(pubkey)?;
    secp256k1::Secp256k1::verification_only().verify(&msg, &sig, &pk)
}

/// Why a signature was refused.
#[derive(Debug)]
pub enum SigError {
    /// The signature carries no DER part (or nothing at all).
    InvalidLength,
    /// The trailing sighash flag is not the one the transaction's role requires.
    InvalidSighash,
    /// The DER part does not parse, or does not verify.
    VerifError(secp256k1::Error),
}

/// A signature blob (DER signature followed by a one-byte sighash flag) that
/// carries `flag` and verifies against `msg` under `pubkey`.
pub open spec fn sig_blob_valid(msg: Seq<u8>, pubkey: Seq<u8>, blob: Seq<u8>, flag: u8) -> bool {
    &&& blob.len() >= 2
    &&& blob.last() == flag
    &&& ecdsa_verifies(msg, blob.drop_last(), pubkey)
}

/// The error reported for an invalid blob: a missing DER part is a length
/// error, a wrong flag is a sighash error, anything else a verification error.
pub open spec fn fault_matches(msg: Seq<u8>, pubkey: Seq<u8>, blob: Seq<u8>, flag: u8, e: SigError) -> bool {
    if blob.len() == 0 {
        e is InvalidLength
    } else if blob.last() != flag {
        e is InvalidSighash
    } else if blob.len() == 1 {
        e is InvalidLength
    } else {
        e is VerifError
    }
}

/// All entries of a signature list are valid for `msg` and `flag`.
pub open spec fn all_sigs_valid(msg: Seq<u8>, sigs: Seq<(Seq<u8>, Seq<u8>)>, flag: u8) -> bool {
    forall|i: int| 0 <= i < sigs.len() ==> sig_blob_valid(msg, (#[trigger] sigs[i]).0, sigs[i].1, flag)
}

/// Checks one signature blob against `msg`, `pubkey` and the expected flag.
pub fn check_signature(msg: &Vec<u8>, pubkey: &Vec<u8>, blob: &Vec<u8>, flag: u8) -> (r: Result<(), SigError>)
    ensures
        r is Ok <==> sig_blob_valid(msg@, pubkey@, blob@, flag),
        r matches Err(e) ==> fault_matches(msg@, pubkey@, blob@, flag, e),
{
    let n = blob.len();
    if n == 0 {
        return Err(SigError::InvalidLength);
    }
    if blob[n - 1] != flag {
        return Err(SigError::InvalidSighash);
    }
    if n == 1 {
        return Err(SigError::InvalidLength);
    }
    let mut der = blob.clone();
    der.truncate(n - 1);
    assert(der@ =~= blob@.drop_last());
    match verify_der_signature(msg.as_slice(), der.as_slice(), pubkey.as_slice()) {
        Ok(()) => Ok(()),
        Err(e) => Err(SigError::VerifError(e)),
    }
}

/// `e` is the error reported for the first entry of `sigs` that is not
/// valid for `msg` and `flag`.
pub open spec fn first_fault(msg: Seq<u8>, sigs: Seq<(Seq<u8>, Seq<u8>)>, flag: u8, e: SigError) -> bool {
    exists|i: int|
        0 <= i < sigs.len() && !sig_blob_valid(msg, sigs[i].0, sigs[i].1, flag) && fault_matches(
            msg,
            sigs[i].0,
            sigs[i].1,
            flag,
            e,
        ) && forall|j: int| 0 <= j < i ==> sig_blob_valid(msg, (#[trigger] sigs[j]).0, sigs[j].1, flag)
}

/// Checks every entry of a signature list; the error is that of the first
/// entry that fails.
pub fn check_signatures(msg: &Vec<u8>, sigs: &Vec<PartialSig>, flag: u8) -> (r: Result<(), SigError>)
    ensures
        r is Ok <==> all_sigs_valid(msg@, sigs_view(sigs@), flag),
        r matches Err(e) ==> first_fault(msg@, sigs_view(sigs@), flag, e),
{
    let ghost v = sigs_view(sigs@);
    let mut i: usize = 0;
    while i < sigs.len()
        invariant
            0 <= i <= sigs@.len(),
            v == sigs_view(sigs@),
            forall|j: int| 0 <= j < i ==> sig_blob_valid(msg@, (#[trigger] v[j]).0, v[j].1, flag),
        decreases sigs@.len() - i,
    {
        assert(v[i as int] == sigs@[i as int]@);
        match check_signature(msg, &sigs[i].pubkey, &sigs[i].sig, flag) {
            Ok(()) => {},
            Err(e) => {
                assert(first_fault(msg@, v, flag, e));
                return Err(e);
            },
        }
        i = i + 1;
    }
    Ok(())
}

/// Checks signatures handed in for a revocation transaction (Cancel, Emergency
/// or Unvault-Emergency): each must carry `ALL|ANYONECANPAY` and verify
/// against the transaction's sighash. The error is that of the first entry
/// that fails.
pub fn check_revocation_signatures(tx: &PresignedTx, sigs: &Vec<PartialSig>) -> (r: Result<(), SigError>)
    ensures
        r is Ok <==> all_sigs_valid(tx@.sighash, sigs_view(sigs@), SIGHASH_ALL_ANYONECANPAY),
        r matches Err(e) ==> first_fault(tx@.sighash, sigs_view(sigs@), SIGHASH_ALL_ANYONECANPAY, e),
{
    check_signatures(&tx.sighash, sigs, SIGHASH_ALL_ANYONECANPAY)
}

/// Checks the signatures that an Unvault transaction carries on its input:
/// each must carry `ALL` and verify against the transaction's sighash. The
/// error is that of the first entry that fails.
pub fn check_unvault_signatures(tx: &PresignedTx) -> (r: Result<(), SigError>)
    ensures
        r is Ok <==> all_sigs_valid(tx@.sighash, tx@.sigs, SIGHASH_ALL),
        r matches Err(e) ==> first_fault(tx@.sighash, tx@.sigs, SIGHASH_ALL, e),
{
    check_signatures(&tx.sighash, &tx.partial_sigs, SIGHASH_ALL)
}

/// Checks the signatures handed in for a transaction of the given role, with
/// the flag that role requires. The error is that of the first entry that
/// fails.
pub fn check_role_signatures(role: TxRole, tx: &PresignedTx, sigs: &Vec<PartialSig>) -> (r: Result<(), SigError>)
    ensures
        r is Ok <==> all_sigs_valid(tx@.sighash, sigs_view(sigs@), role_flag(role)),
        r matches Err(e) ==> first_fault(tx@.sighash, sigs_view(sigs@), role_flag(role), e),
{
    check_signatures(&tx.sighash, sigs, role.sighash_flag())
}

} // verus!
