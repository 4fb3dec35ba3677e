use revaultd::sigcheck::{check_revocation_signatures, check_signature, check_unvault_signatures, SigError};
use revaultd::types::{PartialSig, PresignedTx, TxRole, SIGHASH_ALL, SIGHASH_ALL_ANYONECANPAY};
use revault_tx::bitcoin::secp256k1::{Message, PublicKey, Secp256k1, SecretKey};

fn keypair(n: u8) -> (SecretKey, Vec<u8>) {
    let sk = SecretKey::from_slice(&[n; 32]).unwrap();
    let pk = PublicKey::from_secret_key(&Secp256k1::new(), &sk).serialize().to_vec();
    (sk, pk)
}

fn sign(sk: &SecretKey, sighash: &[u8], flag: u8) -> Vec<u8> {
    let secp = Secp256k1::new();
    let sig = secp.sign(&Message::from_slice(sighash).unwrap(), sk);
    let mut blob = sig.serialize_der().to_vec();
    blob.push(flag);
    blob
}

fn tx(sighash: Vec<u8>, sigs: Vec<PartialSig>) -> PresignedTx {
    PresignedTx { txid: vec![1; 32], wtxid: vec![2; 32], sighash, partial_sigs: sigs }
}

#[test]
fn valid_revocation_signature_is_accepted() {
    let (sk, pk) = keypair(3);
    let msg = vec![7u8; 32];
    let blob = sign(&sk, &msg, SIGHASH_ALL_ANYONECANPAY);
    assert!(check_signature(&msg, &pk, &blob, SIGHASH_ALL_ANYONECANPAY).is_ok());
}

#[test]
fn wrong_flag_is_invalid_sighash() {
    let (sk, pk) = keypair(3);
    let msg = vec![7u8; 32];
    let blob = sign(&sk, &msg, SIGHASH_ALL);
    let r = check_signature(&msg, &pk, &blob, SIGHASH_ALL_ANYONECANPAY);
    assert!(matches!(r, Err(SigError::InvalidSighash)));
}

#[test]
fn empty_blob_is_invalid_length() {
    let (_, pk) = keypair(3);
    let r = check_signature(&vec![7u8; 32], &pk, &vec![], SIGHASH_ALL);
    assert!(matches!(r, Err(SigError::InvalidLength)));
}

#[test]
fn flag_alone_is_invalid_length() {
    let (_, pk) = keypair(3);
    let r = check_signature(&vec![7u8; 32], &pk, &vec![SIGHASH_ALL], SIGHASH_ALL);
    assert!(matches!(r, Err(SigError::InvalidLength)));
}

#[test]
fn garbage_der_is_verification_error() {
    let (_, pk) = keypair(3);
    let r = check_signature(&vec![7u8; 32], &pk, &vec![0x30, 0x01, 0x02, SIGHASH_ALL], SIGHASH_ALL);
    assert!(matches!(r, Err(SigError::VerifError(_))));
}

#[test]
fn signature_of_another_key_is_verification_error() {
    let (sk, _) = keypair(3);
    let (_, other_pk) = keypair(4);
    let msg = vec![7u8; 32];
    let blob = sign(&sk, &msg, SIGHASH_ALL);
    let r = check_signature(&msg, &other_pk, &blob, SIGHASH_ALL);
    assert!(matches!(r, Err(SigError::VerifError(_))));
}

#[test]
fn signature_over_another_message_is_verification_error() {
    let (sk, pk) = keypair(3);
    let blob = sign(&sk, &vec![7u8; 32], SIGHASH_ALL);
    let r = check_signature(&vec![8u8; 32], &pk, &blob, SIGHASH_ALL);
    assert!(matches!(r, Err(SigError::VerifError(_))));
}

#[test]
fn revocation_check_reports_first_bad_entry() {
    let (sk1, pk1) = keypair(3);
    let (sk2, pk2) = keypair(4);
    let msg = vec![9u8; 32];
    let good = PartialSig { pubkey: pk1, sig: sign(&sk1, &msg, SIGHASH_ALL_ANYONECANPAY) };
    let bad = PartialSig { pubkey: pk2, sig: sign(&sk2, &msg, SIGHASH_ALL) };
    let t = tx(msg.clone(), vec![]);
    assert!(check_revocation_signatures(&t, &vec![good.clone()]).is_ok());
    let r = check_revocation_signatures(&t, &vec![good, bad]);
    assert!(matches!(r, Err(SigError::InvalidSighash)));
}

#[test]
fn unvault_check_uses_its_own_signatures_and_all_flag() {
    let (sk, pk) = keypair(5);
    let msg = vec![4u8; 32];
    let ok = tx(msg.clone(), vec![PartialSig { pubkey: pk.clone(), sig: sign(&sk, &msg, SIGHASH_ALL) }]);
    assert!(check_unvault_signatures(&ok).is_ok());
    let acp = tx(msg.clone(), vec![PartialSig { pubkey: pk, sig: sign(&sk, &msg, SIGHASH_ALL_ANYONECANPAY) }]);
    assert!(matches!(check_unvault_signatures(&acp), Err(SigError::InvalidSighash)));
}

#[test]
fn role_flags() {
    assert_eq!(TxRole::Unvault.sighash_flag(), 0x01);
    assert_eq!(TxRole::Cancel.sighash_flag(), 0x81);
    assert_eq!(TxRole::Emergency.sighash_flag(), 0x81);
    assert_eq!(TxRole::UnvaultEmergency.sighash_flag(), 0x81);
}
