use revaultd::store::{StoreError, VaultStore};
use revaultd::types::{OutPoint, PartialSig, PresignedTx, TxRole, VaultStatus};
use revault_tx::bitcoin::secp256k1::{Message, PublicKey, Secp256k1, SecretKey};

fn op() -> OutPoint {
    OutPoint { txid: vec![0xcd; 32], vout: 3 }
}

fn template(seed: u8) -> PresignedTx {
    PresignedTx { txid: vec![seed; 32], wtxid: vec![seed + 1; 32], sighash: vec![seed + 2; 32], partial_sigs: vec![] }
}

fn keypair(n: u8) -> (SecretKey, Vec<u8>) {
    let sk = SecretKey::from_slice(&[n; 32]).unwrap();
    let pk = PublicKey::from_secret_key(&Secp256k1::new(), &sk).serialize().to_vec();
    (sk, pk)
}

fn sig(sk: &SecretKey, pk: &Vec<u8>, sighash: &[u8], flag: u8) -> PartialSig {
    let secp = Secp256k1::new();
    let mut blob = secp.sign(&Message::from_slice(sighash).unwrap(), sk).serialize_der().to_vec();
    blob.push(flag);
    PartialSig { pubkey: pk.clone(), sig: blob }
}

fn funded(signers: Vec<Vec<u8>>) -> VaultStore {
    let mut s = VaultStore::new(false);
    s.insert_vault(op(), 5_000, 2, 0, signers).unwrap();
    s.confirm_vault(&op(), template(0x10), template(0x20), None, None).unwrap();
    s
}

#[test]
fn duplicate_outpoint_is_refused() {
    let mut s = VaultStore::new(false);
    assert!(s.insert_vault(op(), 1, 0, 0, vec![]).is_ok());
    assert_eq!(s.insert_vault(op(), 2, 1, 0, vec![]), Err(StoreError::DuplicateOutpoint));
    assert_eq!(s.vaults().len(), 1);
    assert_eq!(s.vault_by_deposit(&op()).unwrap().amount, 1);
}

#[test]
fn confirm_checks() {
    let mut s = VaultStore::new(true);
    assert_eq!(
        s.confirm_vault(&op(), template(1), template(2), None, None),
        Err(StoreError::UnknownOutpoint)
    );
    s.insert_vault(op(), 1, 0, 0, vec![]).unwrap();
    assert_eq!(
        s.confirm_vault(&op(), template(1), template(2), None, None),
        Err(StoreError::RoleMismatch)
    );
    assert_eq!(s.vault_by_deposit(&op()).unwrap().status, VaultStatus::Unconfirmed);
    assert!(s.presigned_txs(&op()).is_none());
    let mut signed = template(2);
    signed.partial_sigs.push(PartialSig { pubkey: vec![2; 33], sig: vec![1, 2] });
    s.confirm_vault(&op(), template(1), signed, Some(template(3)), Some(template(4))).unwrap();
    assert_eq!(s.vault_by_deposit(&op()).unwrap().status, VaultStatus::Funded);
    // Transactions are stored without signatures.
    assert!(s.presigned_tx(&op(), TxRole::Cancel).unwrap().partial_sigs.is_empty());
    assert_eq!(s.presigned_tx(&op(), TxRole::Emergency).unwrap().txid, vec![3; 32]);
    assert_eq!(
        s.confirm_vault(&op(), template(1), template(2), Some(template(3)), Some(template(4))),
        Err(StoreError::InvalidStatus)
    );
}

#[test]
fn add_signatures_errors() {
    let (sk, pk) = keypair(3);
    let (sk2, pk2) = keypair(4);
    let mut s = funded(vec![pk.clone()]);
    let other = OutPoint { txid: vec![0xcd; 32], vout: 4 };
    let good = sig(&sk, &pk, &vec![0x22; 32], 0x81);
    assert_eq!(s.add_signatures(&other, TxRole::Cancel, &vec![good.clone()]), Err(StoreError::UnknownOutpoint));
    assert_eq!(s.add_signatures(&op(), TxRole::Emergency, &vec![good.clone()]), Err(StoreError::MissingTransaction));
    let wrong_flag = sig(&sk, &pk, &vec![0x22; 32], 0x01);
    assert_eq!(s.add_signatures(&op(), TxRole::Cancel, &vec![wrong_flag]), Err(StoreError::InvalidSignature));
    let stranger = sig(&sk2, &pk2, &vec![0x22; 32], 0x81);
    assert_eq!(s.add_signatures(&op(), TxRole::Cancel, &vec![stranger]), Err(StoreError::UnknownSigner));
    assert!(s.presigned_tx(&op(), TxRole::Cancel).unwrap().partial_sigs.is_empty());
    assert_eq!(s.add_signatures(&op(), TxRole::Cancel, &vec![good.clone()]), Ok(()));
    // The same signature again is no change.
    assert_eq!(s.add_signatures(&op(), TxRole::Cancel, &vec![good.clone()]), Ok(()));
    assert_eq!(s.presigned_tx(&op(), TxRole::Cancel).unwrap().partial_sigs.len(), 1);
    assert_eq!(s.vault_by_deposit(&op()).unwrap().status, VaultStatus::Funded);
}

/// A sighash for which `sk` has two different valid signatures: the plain
/// one and the low-R one.
fn two_signatures(sk: &SecretKey, pk: &Vec<u8>) -> (Vec<u8>, PartialSig, PartialSig) {
    let secp = Secp256k1::new();
    for b in 0u8..=255 {
        let msg = Message::from_slice(&[b; 32]).unwrap();
        let plain = secp.sign(&msg, sk).serialize_der().to_vec();
        let low_r = secp.sign_low_r(&msg, sk).serialize_der().to_vec();
        if plain != low_r {
            let mut a = plain;
            a.push(0x81);
            let mut c = low_r;
            c.push(0x81);
            return (vec![b; 32], PartialSig { pubkey: pk.clone(), sig: a }, PartialSig { pubkey: pk.clone(), sig: c });
        }
    }
    panic!("no message with two distinct signatures");
}

fn funded_with_cancel_sighash(signers: Vec<Vec<u8>>, sighash: Vec<u8>) -> VaultStore {
    let mut s = VaultStore::new(false);
    s.insert_vault(op(), 5_000, 2, 0, signers).unwrap();
    let mut cancel = template(0x20);
    cancel.sighash = sighash;
    s.confirm_vault(&op(), template(0x10), cancel, None, None).unwrap();
    s
}

#[test]
fn second_signature_for_a_key_is_refused() {
    let (sk, pk) = keypair(3);
    let (sighash, a, b) = two_signatures(&sk, &pk);
    let mut s = funded_with_cancel_sighash(vec![pk.clone()], sighash);
    assert_eq!(s.add_signatures(&op(), TxRole::Cancel, &vec![a.clone()]), Ok(()));
    assert_eq!(s.add_signatures(&op(), TxRole::Cancel, &vec![b]), Err(StoreError::ConflictingSignature));
    let stored = s.presigned_tx(&op(), TxRole::Cancel).unwrap().partial_sigs;
    assert_eq!(stored.len(), 1);
    assert_eq!(stored[0].sig, a.sig);
}

#[test]
fn conflicting_signatures_within_one_submission() {
    let (sk, pk) = keypair(3);
    let (sighash, a, b) = two_signatures(&sk, &pk);
    let mut s = funded_with_cancel_sighash(vec![pk.clone()], sighash);
    assert_eq!(s.add_signatures(&op(), TxRole::Cancel, &vec![a, b]), Err(StoreError::ConflictingSignature));
    assert!(s.presigned_tx(&op(), TxRole::Cancel).unwrap().partial_sigs.is_empty());
}
