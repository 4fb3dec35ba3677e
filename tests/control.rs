use revaultd::control::{
    list_vaults, onchain_txids_from_outpoints, presigned_txs_list_from_outpoints, revocation_txs,
    revocation_txs_target, revocation_txs_with_key, sig_messages, unvault_tx, unvault_tx_target,
    unvault_tx_with_key,
    RpcControlError, SubmitError,
};
use revaultd::sigcheck::{check_signature, SigError};
use revaultd::store::{StoreError, VaultStore};
use revaultd::types::{OutPoint, PartialSig, PresignedTx, TxRole, VaultStatus};
use revault_tx::bitcoin::secp256k1::{Message, PublicKey, Secp256k1, SecretKey};
use revault_tx::bitcoin::util::bip32::{ChildNumber, ExtendedPrivKey, ExtendedPubKey};
use revault_tx::bitcoin::Network;

const DERIV: u32 = 7;

struct Keys {
    xpub: Vec<u8>,
    ours: SecretKey,
    our_pk: Vec<u8>,
    peer: SecretKey,
    peer_pk: Vec<u8>,
}

fn keys() -> Keys {
    let secp = Secp256k1::new();
    let xpriv = ExtendedPrivKey::new_master(Network::Testnet, &[1u8; 32]).unwrap();
    let xpub = ExtendedPubKey::from_private(&secp, &xpriv).encode().to_vec();
    let child = xpriv.derive_priv(&secp, &[ChildNumber::from_normal_idx(DERIV).unwrap()]).unwrap();
    let ours = child.private_key.key;
    let our_pk = PublicKey::from_secret_key(&secp, &ours).serialize().to_vec();
    let peer = SecretKey::from_slice(&[9u8; 32]).unwrap();
    let peer_pk = PublicKey::from_secret_key(&secp, &peer).serialize().to_vec();
    Keys { xpub, ours, our_pk, peer, peer_pk }
}

fn op() -> OutPoint {
    OutPoint { txid: vec![0xab; 32], vout: 0 }
}

fn template(seed: u8) -> PresignedTx {
    PresignedTx { txid: vec![seed; 32], wtxid: vec![seed + 1; 32], sighash: vec![seed + 2; 32], partial_sigs: vec![] }
}

fn seed_of(role: TxRole) -> u8 {
    match role {
        TxRole::Unvault => 0x10,
        TxRole::Cancel => 0x20,
        TxRole::Emergency => 0x30,
        TxRole::UnvaultEmergency => 0x40,
    }
}

fn sign(sk: &SecretKey, sighash: &[u8], flag: u8) -> Vec<u8> {
    let secp = Secp256k1::new();
    let mut blob = secp.sign(&Message::from_slice(sighash).unwrap(), sk).serialize_der().to_vec();
    blob.push(flag);
    blob
}

fn signed(role: TxRole, signers: &[(&SecretKey, &Vec<u8>)], flag: u8) -> PresignedTx {
    let mut t = template(seed_of(role));
    for (sk, pk) in signers {
        t.partial_sigs.push(PartialSig { pubkey: (*pk).clone(), sig: sign(sk, &t.sighash, flag) });
    }
    t
}

fn store_with(status_funded: bool, signers: Vec<Vec<u8>>) -> VaultStore {
    let mut store = VaultStore::new(true);
    store.insert_vault(op(), 100_000_000, DERIV, 1_600_000_000, signers).unwrap();
    if status_funded {
        store
            .confirm_vault(
                &op(),
                template(seed_of(TxRole::Unvault)),
                template(seed_of(TxRole::Cancel)),
                Some(template(seed_of(TxRole::Emergency))),
                Some(template(seed_of(TxRole::UnvaultEmergency))),
            )
            .unwrap();
    }
    store
}

fn status(store: &VaultStore) -> VaultStatus {
    store.vault_by_deposit(&op()).unwrap().status
}

fn our_revocations(k: &Keys) -> (PresignedTx, PresignedTx, PresignedTx) {
    let me = [(&k.ours, &k.our_pk)];
    (
        signed(TxRole::Cancel, &me, 0x81),
        signed(TxRole::Emergency, &me, 0x81),
        signed(TxRole::UnvaultEmergency, &me, 0x81),
    )
}

fn sig_count(store: &VaultStore, role: TxRole) -> usize {
    store.presigned_tx(&op(), role).unwrap().partial_sigs.len()
}

#[test]
fn happy_stakeholder_flow() {
    let k = keys();
    let mut store = store_with(true, vec![k.our_pk.clone(), k.peer_pk.clone()]);
    let target = revocation_txs_target(&store, &op()).unwrap();
    assert_eq!(target.amount, 100_000_000);
    assert_eq!(target.derivation_index, DERIV);
    let (c, e, u) = our_revocations(&k);
    let msgs = revocation_txs(&mut store, &k.xpub, &op(), &c, &e, &u).unwrap();
    assert_eq!(status(&store), VaultStatus::Securing);
    assert_eq!(msgs.len(), 3);
    assert_eq!(msgs[0].id, c.txid);
    assert_eq!(msgs[1].id, e.txid);
    assert_eq!(msgs[2].id, u.txid);
    assert_eq!(msgs[0].pubkey, k.our_pk);
    let blob = &c.partial_sigs[0].sig;
    assert_eq!(msgs[0].signature, blob[..blob.len() - 1].to_vec());
    let listed = presigned_txs_list_from_outpoints(&store, &Some(vec![op()])).unwrap();
    assert_eq!(listed.len(), 1);
    let l = &listed[0];
    assert!(l.cancel.partial_sigs.iter().any(|s| s.pubkey == k.our_pk));
    assert!(l.emergency.as_ref().unwrap().partial_sigs.iter().any(|s| s.pubkey == k.our_pk));
    assert!(l.unvault_emergency.as_ref().unwrap().partial_sigs.iter().any(|s| s.pubkey == k.our_pk));
    assert!(l.unvault.partial_sigs.is_empty());
}

#[test]
fn wrong_status_unconfirmed() {
    let k = keys();
    let mut store = store_with(false, vec![k.our_pk.clone()]);
    assert!(revocation_txs_target(&store, &op()).is_none());
    let (c, e, u) = our_revocations(&k);
    let r = revocation_txs(&mut store, &k.xpub, &op(), &c, &e, &u);
    assert!(matches!(
        r,
        Err(SubmitError::InvalidStatus { expected: VaultStatus::Funded, got: VaultStatus::Unconfirmed })
    ));
}

#[test]
fn wtxid_mismatch_is_refused() {
    let k = keys();
    let mut store = store_with(true, vec![k.our_pk.clone()]);
    let (mut c, e, u) = our_revocations(&k);
    c.wtxid[5] ^= 1;
    let r = revocation_txs(&mut store, &k.xpub, &op(), &c, &e, &u);
    match r {
        Err(SubmitError::WtxidMismatch { role, db, submitted }) => {
            assert_eq!(role, TxRole::Cancel);
            assert_eq!(db, vec![0x21; 32]);
            assert_eq!(submitted, c.wtxid);
        },
        other => panic!("unexpected {:?}", other),
    }
    assert_eq!(status(&store), VaultStatus::Funded);
    assert_eq!(sig_count(&store, TxRole::Cancel), 0);
}

#[test]
fn bad_sighash_flag_on_emergency() {
    let k = keys();
    let mut store = store_with(true, vec![k.our_pk.clone()]);
    let me = [(&k.ours, &k.our_pk)];
    let c = signed(TxRole::Cancel, &me, 0x81);
    let e = signed(TxRole::Emergency, &me, 0x01);
    let u = signed(TxRole::UnvaultEmergency, &me, 0x81);
    let r = revocation_txs(&mut store, &k.xpub, &op(), &c, &e, &u);
    assert!(matches!(
        r,
        Err(SubmitError::InvalidSignature { role: TxRole::Emergency, error: SigError::InvalidSighash })
    ));
    assert_eq!(status(&store), VaultStatus::Funded);
    assert_eq!(sig_count(&store, TxRole::Cancel), 0);
}

#[test]
fn missing_own_signature() {
    let k = keys();
    let mut store = store_with(true, vec![k.our_pk.clone(), k.peer_pk.clone()]);
    let (_, e, u) = our_revocations(&k);
    let c = signed(TxRole::Cancel, &[(&k.peer, &k.peer_pk)], 0x81);
    let r = revocation_txs(&mut store, &k.xpub, &op(), &c, &e, &u);
    match r {
        Err(SubmitError::MissingOwnSignature { role, pubkey }) => {
            assert_eq!(role, TxRole::Cancel);
            assert_eq!(pubkey, k.our_pk);
        },
        other => panic!("unexpected {:?}", other),
    }
    assert_eq!(sig_count(&store, TxRole::Cancel), 0);
}

#[test]
fn unvault_before_secured() {
    let k = keys();
    let mut store = store_with(true, vec![k.our_pk.clone()]);
    let t = signed(TxRole::Unvault, &[(&k.ours, &k.our_pk)], 0x01);
    let r = unvault_tx(&mut store, &k.xpub, &op(), &t);
    assert!(matches!(
        r,
        Err(SubmitError::InvalidStatus { expected: VaultStatus::Secured, got: VaultStatus::Funded })
    ));
    assert_eq!(sig_count(&store, TxRole::Unvault), 0);
}

#[test]
fn unknown_outpoint_in_presigned_list() {
    let store = VaultStore::new(true);
    let unknown = OutPoint { txid: vec![0; 32], vout: 0 };
    match presigned_txs_list_from_outpoints(&store, &Some(vec![unknown])) {
        Err(RpcControlError::UnknownOutpoint(o)) => {
            assert_eq!(o.txid, vec![0; 32]);
            assert_eq!(o.vout, 0);
        },
        other => panic!("unexpected {:?}", other),
    }
}

#[test]
fn invalid_signature_writes_nothing() {
    let k = keys();
    let mut store = store_with(true, vec![k.our_pk.clone()]);
    let (c, e, mut u) = our_revocations(&k);
    // A signature made by another key, filed under ours.
    u.partial_sigs[0].sig = sign(&k.peer, &u.sighash, 0x81);
    let r = revocation_txs(&mut store, &k.xpub, &op(), &c, &e, &u);
    assert!(matches!(
        r,
        Err(SubmitError::InvalidSignature { role: TxRole::UnvaultEmergency, error: SigError::VerifError(_) })
    ));
    assert_eq!(status(&store), VaultStatus::Funded);
    assert_eq!(sig_count(&store, TxRole::Cancel), 0);
    assert_eq!(sig_count(&store, TxRole::Emergency), 0);
}

#[test]
fn submitted_signatures_are_listed() {
    let k = keys();
    let mut store = store_with(true, vec![k.our_pk.clone(), k.peer_pk.clone()]);
    let both = [(&k.ours, &k.our_pk), (&k.peer, &k.peer_pk)];
    let c = signed(TxRole::Cancel, &both, 0x81);
    let e = signed(TxRole::Emergency, &both, 0x81);
    let u = signed(TxRole::UnvaultEmergency, &both, 0x81);
    revocation_txs(&mut store, &k.xpub, &op(), &c, &e, &u).unwrap();
    let listed = presigned_txs_list_from_outpoints(&store, &Some(vec![op()])).unwrap();
    for s in &c.partial_sigs {
        assert!(listed[0].cancel.partial_sigs.iter().any(|x| x.pubkey == s.pubkey && x.sig == s.sig));
    }
    for s in &u.partial_sigs {
        let t = listed[0].unvault_emergency.as_ref().unwrap();
        assert!(t.partial_sigs.iter().any(|x| x.pubkey == s.pubkey && x.sig == s.sig));
    }
    // Every signer signed all three: the vault is secured at once.
    assert_eq!(status(&store), VaultStatus::Secured);
}

#[test]
fn second_identical_submission_is_a_no_op() {
    let k = keys();
    let mut store = store_with(true, vec![k.our_pk.clone(), k.peer_pk.clone()]);
    let (c, e, u) = our_revocations(&k);
    assert_eq!(revocation_txs(&mut store, &k.xpub, &op(), &c, &e, &u).unwrap().len(), 3);
    let again = revocation_txs(&mut store, &k.xpub, &op(), &c, &e, &u).unwrap();
    assert!(again.is_empty());
    assert_eq!(sig_count(&store, TxRole::Cancel), 1);
    assert_eq!(sig_count(&store, TxRole::Emergency), 1);
    assert_eq!(sig_count(&store, TxRole::UnvaultEmergency), 1);
    assert_eq!(status(&store), VaultStatus::Securing);
}

#[test]
fn resubmission_with_new_signatures_is_refused_on_status() {
    let k = keys();
    let mut store = store_with(true, vec![k.our_pk.clone(), k.peer_pk.clone()]);
    let (c, e, u) = our_revocations(&k);
    revocation_txs(&mut store, &k.xpub, &op(), &c, &e, &u).unwrap();
    let both = [(&k.ours, &k.our_pk), (&k.peer, &k.peer_pk)];
    let c2 = signed(TxRole::Cancel, &both, 0x81);
    let r = revocation_txs(&mut store, &k.xpub, &op(), &c2, &e, &u);
    assert!(matches!(
        r,
        Err(SubmitError::InvalidStatus { expected: VaultStatus::Funded, got: VaultStatus::Securing })
    ));
    assert_eq!(sig_count(&store, TxRole::Cancel), 1);
}

#[test]
fn peer_signatures_secure_then_unvault_activates() {
    let k = keys();
    let mut store = store_with(true, vec![k.our_pk.clone(), k.peer_pk.clone()]);
    let peer = [(&k.peer, &k.peer_pk)];
    // Peer signatures fetched before ours do not move a funded vault.
    let pc = signed(TxRole::Cancel, &peer, 0x81);
    store.add_signatures(&op(), TxRole::Cancel, &pc.partial_sigs).unwrap();
    assert_eq!(status(&store), VaultStatus::Funded);
    let (c, e, u) = our_revocations(&k);
    revocation_txs(&mut store, &k.xpub, &op(), &c, &e, &u).unwrap();
    assert_eq!(status(&store), VaultStatus::Securing);
    let pe = signed(TxRole::Emergency, &peer, 0x81);
    store.add_signatures(&op(), TxRole::Emergency, &pe.partial_sigs).unwrap();
    assert_eq!(status(&store), VaultStatus::Securing);
    let pu = signed(TxRole::UnvaultEmergency, &peer, 0x81);
    store.add_signatures(&op(), TxRole::UnvaultEmergency, &pu.partial_sigs).unwrap();
    assert_eq!(status(&store), VaultStatus::Secured);

    let t = signed(TxRole::Unvault, &[(&k.ours, &k.our_pk)], 0x01);
    let msgs = unvault_tx(&mut store, &k.xpub, &op(), &t).unwrap();
    assert_eq!(msgs.len(), 1);
    assert_eq!(msgs[0].id, vec![0x10; 32]);
    assert_eq!(status(&store), VaultStatus::Activating);
    let pt = signed(TxRole::Unvault, &peer, 0x01);
    store.add_signatures(&op(), TxRole::Unvault, &pt.partial_sigs).unwrap();
    assert_eq!(status(&store), VaultStatus::Active);
}

#[test]
fn single_signer_vault_is_secured_by_our_submission() {
    let k = keys();
    let mut store = store_with(true, vec![k.our_pk.clone()]);
    let (c, e, u) = our_revocations(&k);
    revocation_txs(&mut store, &k.xpub, &op(), &c, &e, &u).unwrap();
    assert_eq!(status(&store), VaultStatus::Secured);
}

#[test]
fn signature_from_non_signer_is_rejected() {
    let k = keys();
    let mut store = store_with(true, vec![k.our_pk.clone()]);
    let both = [(&k.ours, &k.our_pk), (&k.peer, &k.peer_pk)];
    let c = signed(TxRole::Cancel, &both, 0x81);
    let (_, e, u) = our_revocations(&k);
    let r = revocation_txs(&mut store, &k.xpub, &op(), &c, &e, &u);
    assert!(matches!(r, Err(SubmitError::Rejected(StoreError::UnknownSigner))));
    assert_eq!(sig_count(&store, TxRole::Cancel), 0);
}

#[test]
fn key_passed_directly() {
    let k = keys();
    let mut store = store_with(true, vec![k.our_pk.clone()]);
    let (c, e, u) = our_revocations(&k);
    let r = revocation_txs_with_key(&mut store, &k.peer_pk, &op(), &c, &e, &u);
    assert!(matches!(r, Err(SubmitError::MissingOwnSignature { role: TxRole::Cancel, .. })));
    assert!(revocation_txs_with_key(&mut store, &k.our_pk, &op(), &c, &e, &u).is_ok());
}

#[test]
fn malformed_xpub_leaves_store_untouched() {
    let k = keys();
    let mut store = store_with(true, vec![k.our_pk.clone()]);
    let (c, e, u) = our_revocations(&k);
    let r = revocation_txs(&mut store, &vec![1, 2, 3], &op(), &c, &e, &u);
    assert!(matches!(r, Err(SubmitError::OwnKeyUnavailable)));
    assert_eq!(status(&store), VaultStatus::Funded);
}

#[test]
fn unknown_vault_submission() {
    let k = keys();
    let mut store = VaultStore::new(true);
    let (c, e, u) = our_revocations(&k);
    assert!(matches!(
        revocation_txs(&mut store, &k.xpub, &op(), &c, &e, &u),
        Err(SubmitError::UnknownOutpoint)
    ));
}

#[test]
fn unvault_target_checks() {
    let k = keys();
    let store = store_with(false, vec![k.our_pk.clone()]);
    assert!(matches!(
        unvault_tx_target(&store, &op()),
        Err(RpcControlError::InvalidStatus(VaultStatus::Unconfirmed, VaultStatus::Funded))
    ));
    let empty = VaultStore::new(true);
    assert!(matches!(unvault_tx_target(&empty, &op()), Err(RpcControlError::UnknownOutpoint(_))));
    let funded = store_with(true, vec![k.our_pk.clone()]);
    assert_eq!(unvault_tx_target(&funded, &op()).unwrap().derivation_index, DERIV);
}

#[test]
fn list_vaults_filters_are_combined() {
    let mut store = VaultStore::new(false);
    let a = OutPoint { txid: vec![1; 32], vout: 0 };
    let b = OutPoint { txid: vec![2; 32], vout: 1 };
    let c = OutPoint { txid: vec![3; 32], vout: 2 };
    store.insert_vault(a.clone(), 10, 0, 0, vec![]).unwrap();
    store.insert_vault(b.clone(), 20, 1, 0, vec![]).unwrap();
    store.insert_vault(c.clone(), 30, 2, 0, vec![]).unwrap();
    store.confirm_vault(&b, template(0x10), template(0x20), None, None).unwrap();
    assert_eq!(list_vaults(&store, &None, &None).len(), 3);
    let unconfirmed = list_vaults(&store, &Some(vec![VaultStatus::Unconfirmed]), &None);
    assert_eq!(unconfirmed.iter().map(|v| v.amount).collect::<Vec<_>>(), vec![10, 30]);
    let picked = list_vaults(&store, &Some(vec![VaultStatus::Unconfirmed]), &Some(vec![c.clone(), b.clone()]));
    assert_eq!(picked.iter().map(|v| v.amount).collect::<Vec<_>>(), vec![30]);
    let none = list_vaults(&store, &Some(vec![]), &None);
    assert!(none.is_empty());
}

#[test]
fn presigned_list_of_all_vaults_reports_unconfirmed() {
    let mut store = VaultStore::new(false);
    let a = OutPoint { txid: vec![1; 32], vout: 0 };
    let b = OutPoint { txid: vec![2; 32], vout: 1 };
    store.insert_vault(a.clone(), 10, 0, 0, vec![]).unwrap();
    store.insert_vault(b.clone(), 20, 1, 0, vec![]).unwrap();
    store.confirm_vault(&b, template(0x10), template(0x20), None, None).unwrap();
    assert!(matches!(
        presigned_txs_list_from_outpoints(&store, &None),
        Err(RpcControlError::InvalidStatus(VaultStatus::Unconfirmed, VaultStatus::Funded))
    ));
    assert!(matches!(
        presigned_txs_list_from_outpoints(&store, &Some(vec![b.clone(), a.clone()])),
        Err(RpcControlError::InvalidStatus(VaultStatus::Unconfirmed, VaultStatus::Funded))
    ));
    let one = presigned_txs_list_from_outpoints(&store, &Some(vec![b.clone()])).unwrap();
    assert_eq!(one.len(), 1);
    store.confirm_vault(&a, template(0x30), template(0x40), None, None).unwrap();
    let all = presigned_txs_list_from_outpoints(&store, &None).unwrap();
    assert_eq!(all.len(), 2);
    assert_eq!(all[0].outpoint.txid, vec![1; 32]);
    assert_eq!(all[0].cancel.txid, vec![0x40; 32]);
    assert_eq!(all[1].outpoint.txid, vec![2; 32]);
    assert!(all[1].emergency.is_none());
}

#[test]
fn onchain_txids_per_status() {
    let mut store = VaultStore::new(true);
    let a = OutPoint { txid: vec![1; 32], vout: 0 };
    let b = OutPoint { txid: vec![2; 32], vout: 1 };
    store.insert_vault(a.clone(), 10, 0, 0, vec![]).unwrap();
    store.insert_vault(b.clone(), 20, 1, 0, vec![]).unwrap();
    store
        .confirm_vault(&b, template(0x10), template(0x20), Some(template(0x30)), Some(template(0x40)))
        .unwrap();
    let l = onchain_txids_from_outpoints(&store, &None).unwrap();
    assert_eq!(l.len(), 2);
    assert_eq!(l[0].deposit, vec![1; 32]);
    assert!(l[0].unvault.is_none() && l[0].cancel.is_none() && l[0].emergency.is_none());
    assert_eq!(l[1].unvault, Some(vec![0x10; 32]));
    assert_eq!(l[1].cancel, Some(vec![0x20; 32]));
    assert_eq!(l[1].emergency, Some(vec![0x30; 32]));
    assert_eq!(l[1].unvault_emergency, Some(vec![0x40; 32]));
    let unknown = OutPoint { txid: vec![9; 32], vout: 0 };
    assert!(matches!(
        onchain_txids_from_outpoints(&store, &Some(vec![a.clone(), unknown])),
        Err(RpcControlError::UnknownOutpoint(o)) if o.txid == vec![9; 32]
    ));
    let one = onchain_txids_from_outpoints(&store, &Some(vec![b.clone()])).unwrap();
    assert_eq!(one.len(), 1);
    assert_eq!(one[0].outpoint.vout, 1);
}

#[test]
fn sig_messages_strip_the_flag() {
    let k = keys();
    let sighash = vec![5u8; 32];
    let sigs = vec![
        PartialSig { pubkey: k.our_pk.clone(), sig: sign(&k.ours, &sighash, 0x81) },
        PartialSig { pubkey: k.peer_pk.clone(), sig: sign(&k.peer, &sighash, 0x81) },
    ];
    let m = sig_messages(&vec![6; 32], &sighash, &sigs, 0x81);
    assert_eq!(m.len(), 2);
    assert_eq!(m[0].signature, sigs[0].sig[..sigs[0].sig.len() - 1].to_vec());
    assert_eq!(m[1].signature, sigs[1].sig[..sigs[1].sig.len() - 1].to_vec());
    assert_eq!(m[1].pubkey, k.peer_pk);
    assert_eq!(m[0].id, vec![6; 32]);
}

#[test]
fn xpub_at_largest_depth_has_no_key() {
    let k = keys();
    let mut store = store_with(true, vec![k.our_pk.clone()]);
    let (c, e, u) = our_revocations(&k);
    let mut deep = k.xpub.clone();
    deep[4] = 255;
    let r = revocation_txs(&mut store, &deep, &op(), &c, &e, &u);
    assert!(matches!(r, Err(SubmitError::OwnKeyUnavailable)));
    assert_eq!(status(&store), VaultStatus::Funded);
}

#[test]
fn ids_are_checked_before_our_key() {
    let k = keys();
    let mut store = store_with(true, vec![k.our_pk.clone()]);
    let (mut c, e, u) = our_revocations(&k);
    c.wtxid[0] ^= 1;
    let r = revocation_txs(&mut store, &vec![1, 2, 3], &op(), &c, &e, &u);
    assert!(matches!(r, Err(SubmitError::WtxidMismatch { role: TxRole::Cancel, .. })));
}

#[test]
fn unvault_with_key_passed_directly() {
    let k = keys();
    let mut store = store_with(true, vec![k.our_pk.clone()]);
    let (c, e, u) = our_revocations(&k);
    revocation_txs(&mut store, &k.xpub, &op(), &c, &e, &u).unwrap();
    assert_eq!(status(&store), VaultStatus::Secured);
    let t = signed(TxRole::Unvault, &[(&k.ours, &k.our_pk)], 0x01);
    let r = unvault_tx_with_key(&mut store, &k.peer_pk, &op(), &t);
    assert!(matches!(r, Err(SubmitError::MissingOwnSignature { role: TxRole::Unvault, .. })));
    let bad_flag = signed(TxRole::Unvault, &[(&k.ours, &k.our_pk)], 0x81);
    let r = unvault_tx_with_key(&mut store, &k.our_pk, &op(), &bad_flag);
    assert!(matches!(
        r,
        Err(SubmitError::InvalidSignature { role: TxRole::Unvault, error: SigError::InvalidSighash })
    ));
    assert_eq!(unvault_tx_with_key(&mut store, &k.our_pk, &op(), &t).unwrap().len(), 1);
    assert_eq!(status(&store), VaultStatus::Active);
}
