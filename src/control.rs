//! The decisions the daemon takes for each control request: which vaults and
//! transactions a query returns, and whether signatures handed in by the
//! operator are accepted, stored, and which messages then go to the
//! coordinator.

use crate::keys::{our_key, our_stakeholder_key};
use crate::sigcheck::{
    all_sigs_valid, check_revocation_signatures, check_unvault_signatures, first_fault,
    sig_blob_valid, SigError,
};
use crate::store::{
    entry_of, funded_kept, has_vault, holds_key, lemma_index, mergeable, opt_tx_view,
    revocations_stored, row, stored_row, unvault_stored, EntryView, PresignedSet, SetView,
    StoreError, StoreView, Vault, VaultStore, VaultView,
};
use crate::types::{
    copy_bytes, copy_sigs, has_key, role_flag, sigs_view, OutPoint, PartialSig, PresignedTx,
    TxRole, TxView, VaultStatus, SIGHASH_ALL, SIGHASH_ALL_ANYONECANPAY,
};
use vstd::prelude::*;

verus! {

/// Any error that could arise while serving a control request. Usually fatal.
#[derive(Debug)]
pub enum ControlError {
    ChannelCommunication(String),
    Database(String),
    Bitcoind(String),
    TransactionManagement(String),
}

/// An error returned to the RPC caller.
#[derive(Debug)]
pub enum RpcControlError {
    /// No vault at this outpoint.
    UnknownOutpoint(OutPoint),
    /// The vault's status (first) is not the one the request needs (second).
    InvalidStatus(VaultStatus, VaultStatus),
}

/// A `sig` message for the coordinator: one signature (DER, without its
/// sighash flag) of `pubkey` on the transaction whose txid is `id`.
#[derive(Debug)]
pub struct SigMessage {
    pub pubkey: Vec<u8>,
    pub signature: Vec<u8>,
    pub id: Vec<u8>,
}

impl View for SigMessage {
    type V = (Seq<u8>, Seq<u8>, Seq<u8>);

    open spec fn view(&self) -> (Seq<u8>, Seq<u8>, Seq<u8>) {
        (self.pubkey@, self.signature@, self.id@)
    }
}

pub open spec fn messages_view(m: Seq<SigMessage>) -> Seq<(Seq<u8>, Seq<u8>, Seq<u8>)> {
    m.map_values(|x: SigMessage| x@)
}

/// The messages announcing `sigs` as signatures of the transaction `id`.
pub open spec fn messages_of(id: Seq<u8>, sigs: Seq<(Seq<u8>, Seq<u8>)>) -> Seq<(Seq<u8>, Seq<u8>, Seq<u8>)> {
    sigs.map_values(|p: (Seq<u8>, Seq<u8>)| (p.0, p.1.drop_last(), id))
}

/// The coordinator messages for the signatures `sigs` of the transaction
/// `id`. The signatures must be verified ones: each carries `flag` (one of
/// the two in use) and verifies against `sighash`, the transaction's digest.
pub fn sig_messages(id: &Vec<u8>, sighash: &Vec<u8>, sigs: &Vec<PartialSig>, flag: u8) -> (r: Vec<SigMessage>)
    requires
        flag == SIGHASH_ALL || flag == SIGHASH_ALL_ANYONECANPAY,
        all_sigs_valid(sighash@, sigs_view(sigs@), flag),
    ensures
        messages_view(r@) == messages_of(id@, sigs_view(sigs@)),
{
    let ghost sv = sigs_view(sigs@);
    let mut r: Vec<SigMessage> = Vec::new();
    let mut i: usize = 0;
    while i < sigs.len()
        invariant
            0 <= i <= sigs@.len(),
            sv == sigs_view(sigs@),
            all_sigs_valid(sighash@, sv, flag),
            r@.len() == i,
            forall|k: int| 0 <= k < i ==> (#[trigger] r@[k])@ == (sv[k].0, sv[k].1.drop_last(), id@),
        decreases sigs@.len() - i,
    {
        assert(sv[i as int] == sigs@[i as int]@);
        assert(sig_blob_valid(sighash@, sv[i as int].0, sv[i as int].1, flag));
        let n = sigs[i].sig.len();
        let mut der = copy_bytes(&sigs[i].sig);
        der.truncate(n - 1);
        assert(der@ =~= sv[i as int].1.drop_last());
        r.push(SigMessage { pubkey: copy_bytes(&sigs[i].pubkey), signature: der, id: copy_bytes(id) });
        i = i + 1;
    }
    assert(messages_view(r@) =~= messages_of(id@, sv));
    r
}

/// The vault whose revocation transactions a stakeholder may ask for: it
/// must exist and be confirmed.
pub fn revocation_txs_target(store: &VaultStore, op: &OutPoint) -> (r: Option<Vault>)
    requires
        store.wf(),
    ensures
        r is Some <==> has_vault(store@, op@) && entry_of(store@, op@).vault.status != VaultStatus::Unconfirmed,
        r matches Some(v) ==> v@ == entry_of(store@, op@).vault,
{
    match store.vault_by_deposit(op) {
        Some(v) => if v.status == VaultStatus::Unconfirmed {
            None
        } else {
            Some(v)
        },
        None => None,
    }
}

/// The vault whose Unvault transaction is asked for: it must exist and be
/// confirmed.
pub fn unvault_tx_target(store: &VaultStore, op: &OutPoint) -> (r: Result<Vault, RpcControlError>)
    requires
        store.wf(),
    ensures
        !has_vault(store@, op@) ==> (r matches Err(RpcControlError::UnknownOutpoint(o)) && o@ == op@),
        has_vault(store@, op@) && entry_of(store@, op@).vault.status == VaultStatus::Unconfirmed ==> (r matches Err(
            RpcControlError::InvalidStatus(got, expected),
        ) && got == VaultStatus::Unconfirmed && expected == VaultStatus::Funded),
        r is Ok <==> has_vault(store@, op@) && entry_of(store@, op@).vault.status != VaultStatus::Unconfirmed,
        r matches Ok(v) ==> v@ == entry_of(store@, op@).vault,
{
    match store.vault_by_deposit(op) {
        Some(v) => if v.status == VaultStatus::Unconfirmed {
            Err(RpcControlError::InvalidStatus(v.status, VaultStatus::Funded))
        } else {
            Ok(v)
        },
        None => Err(RpcControlError::UnknownOutpoint(op.clone())),
    }
}

pub open spec fn statuses_view(o: Option<Vec<VaultStatus>>) -> Option<Seq<VaultStatus>> {
    match o {
        Some(v) => Some(v@),
        None => None,
    }
}

pub open spec fn outpoints_seq(v: Seq<OutPoint>) -> Seq<(Seq<u8>, u32)> {
    v.map_values(|o: OutPoint| o@)
}

pub open spec fn outpoints_view(o: Option<Vec<OutPoint>>) -> Option<Seq<(Seq<u8>, u32)>> {
    match o {
        Some(v) => Some(outpoints_seq(v@)),
        None => None,
    }
}

/// A vault passes the filters: its status is among `statuses` and its
/// outpoint among `outpoints`, each filter applying only when given.
pub open spec fn vault_selected(
    v: VaultView,
    statuses: Option<Seq<VaultStatus>>,
    outpoints: Option<Seq<(Seq<u8>, u32)>>,
) -> bool {
    &&& (statuses matches Some(st) ==> st.contains(v.status))
    &&& (outpoints matches Some(ops) ==> ops.contains(v.outpoint))
}

/// The vaults of `entries` that pass the filters, in order.
pub open spec fn selected_vaults(
    entries: Seq<EntryView>,
    statuses: Option<Seq<VaultStatus>>,
    outpoints: Option<Seq<(Seq<u8>, u32)>>,
) -> Seq<VaultView>
    decreases entries.len(),
{
    if entries.len() == 0 {
        Seq::empty()
    } else {
        let prev = selected_vaults(entries.drop_last(), statuses, outpoints);
        if vault_selected(entries.last().vault, statuses, outpoints) {
            prev.push(entries.last().vault)
        } else {
            prev
        }
    }
}

pub open spec fn vaults_view(v: Seq<Vault>) -> Seq<VaultView> {
    v.map_values(|x: Vault| x@)
}

fn contains_status(statuses: &Vec<VaultStatus>, s: VaultStatus) -> (r: bool)
    ensures
        r == statuses@.contains(s),
{
    let mut i: usize = 0;
    while i < statuses.len()
        invariant
            0 <= i <= statuses@.len(),
            forall|k: int| 0 <= k < i ==> statuses@[k] != s,
        decreases statuses@.len() - i,
    {
        if statuses[i] == s {
            return true;
        }
        i = i + 1;
    }
    false
}

fn contains_outpoint(ops: &Vec<OutPoint>, op: &OutPoint) -> (r: bool)
    ensures
        r == outpoints_seq(ops@).contains(op@),
{
    let ghost ov = outpoints_seq(ops@);
    let mut i: usize = 0;
    while i < ops.len()
        invariant
            0 <= i <= ops@.len(),
            ov == outpoints_seq(ops@),
            forall|k: int| 0 <= k < i ==> (#[trigger] ov[k]) != op@,
        decreases ops@.len() - i,
    {
        assert(ov[i as int] == ops@[i as int]@);
        if ops[i].same(op) {
            return true;
        }
        i = i + 1;
    }
    false
}

fn passes(v: &Vault, statuses: &Option<Vec<VaultStatus>>, outpoints: &Option<Vec<OutPoint>>) -> (r: bool)
    ensures
        r == vault_selected(v@, statuses_view(*statuses), outpoints_view(*outpoints)),
{
    let st_ok = match statuses {
        Some(st) => contains_status(st, v.status),
        None => true,
    };
    let op_ok = match outpoints {
        Some(ops) => contains_outpoint(ops, &v.deposit_outpoint),
        None => true,
    };
    st_ok && op_ok
}

/// The vaults whose status is among `statuses` and whose deposit outpoint is
/// among `outpoints` (each filter applying only when given), in the store's order.
pub fn list_vaults(
    store: &VaultStore,
    statuses: &Option<Vec<VaultStatus>>,
    outpoints: &Option<Vec<OutPoint>>,
) -> (r: Vec<Vault>)
    ensures
        vaults_view(r@) == selected_vaults(store@.entries, statuses_view(*statuses), outpoints_view(*outpoints)),
{
    let ghost st = statuses_view(*statuses);
    let ghost ops = outpoints_view(*outpoints);
    let all = store.vaults();
    let mut r: Vec<Vault> = Vec::new();
    let mut i: usize = 0;
    while i < all.len()
        invariant
            0 <= i <= all@.len(),
            all@.len() == store@.entries.len(),
            forall|k: int| 0 <= k < all@.len() ==> (#[trigger] all@[k])@ == store@.entries[k].vault,
            st == statuses_view(*statuses),
            ops == outpoints_view(*outpoints),
            vaults_view(r@) == selected_vaults(store@.entries.subrange(0, i as int), st, ops),
        decreases all@.len() - i,
    {
        let ghost pre = store@.entries.subrange(0, i as int);
        let ghost next = store@.entries.subrange(0, i + 1);
        assert(next.drop_last() =~= pre);
        assert(next.last() == store@.entries[i as int]);
        if passes(&all[i], statuses, outpoints) {
            r.push(all[i].clone());
            assert(vaults_view(r@) =~= selected_vaults(pre, st, ops).push(store@.entries[i as int].vault));
        }
        i = i + 1;
    }
    assert(store@.entries.subrange(0, all@.len() as int) =~= store@.entries);
    r
}


/// The presigned transactions of one vault, as listed to the operator.
#[derive(Debug)]
pub struct VaultPresignedTransactions {
    pub outpoint: OutPoint,
    pub unvault: PresignedTx,
    pub cancel: PresignedTx,
    pub emergency: Option<PresignedTx>,
    pub unvault_emergency: Option<PresignedTx>,
}

impl View for VaultPresignedTransactions {
    type V = ((Seq<u8>, u32), SetView);

    open spec fn view(&self) -> ((Seq<u8>, u32), SetView) {
        (
            self.outpoint@,
            SetView {
                unvault: self.unvault@,
                cancel: self.cancel@,
                emergency: opt_tx_view(self.emergency),
                unvault_emergency: opt_tx_view(self.unvault_emergency),
            },
        )
    }
}

pub open spec fn presigned_view(l: Seq<VaultPresignedTransactions>) -> Seq<((Seq<u8>, u32), SetView)> {
    l.map_values(|x: VaultPresignedTransactions| x@)
}

/// No vault of `entries` is unconfirmed.
pub open spec fn all_confirmed(entries: Seq<EntryView>) -> bool {
    forall|i: int| 0 <= i < entries.len() ==> (#[trigger] entries[i]).vault.status != VaultStatus::Unconfirmed
}

/// Whether the vault at `op` exists and is confirmed.
pub open spec fn listable(s: StoreView, op: (Seq<u8>, u32)) -> bool {
    has_vault(s, op) && entry_of(s, op).vault.status != VaultStatus::Unconfirmed
}

/// The error for an outpoint that is not `listable`.
pub open spec fn listing_error(s: StoreView, op: (Seq<u8>, u32), e: RpcControlError) -> bool {
    if !has_vault(s, op) {
        e matches RpcControlError::UnknownOutpoint(o) && o@ == op
    } else {
        e matches RpcControlError::InvalidStatus(got, expected) && got == entry_of(s, op).vault.status && expected
            == VaultStatus::Funded
    }
}

/// Every outpoint of `ov` is listable.
pub open spec fn all_listable(s: StoreView, ov: Seq<(Seq<u8>, u32)>) -> bool {
    forall|k: int| 0 <= k < ov.len() ==> listable(s, #[trigger] ov[k])
}

/// `e` reports the first outpoint of `ov` that is not listable.
pub open spec fn first_unlistable(s: StoreView, ov: Seq<(Seq<u8>, u32)>, e: RpcControlError) -> bool {
    exists|k: int|
        0 <= k < ov.len() && !listable(s, ov[k]) && listing_error(s, ov[k], e) && forall|j: int|
            0 <= j < k ==> listable(s, #[trigger] ov[j])
}

/// Every outpoint of `ov` holds a vault.
pub open spec fn all_known(s: StoreView, ov: Seq<(Seq<u8>, u32)>) -> bool {
    forall|k: int| 0 <= k < ov.len() ==> has_vault(s, #[trigger] ov[k])
}

/// `e` reports the first outpoint of `ov` that holds no vault.
pub open spec fn first_unknown(s: StoreView, ov: Seq<(Seq<u8>, u32)>, e: RpcControlError) -> bool {
    exists|k: int|
        0 <= k < ov.len() && !has_vault(s, ov[k]) && (e matches RpcControlError::UnknownOutpoint(o) && o@ == ov[k])
            && forall|j: int| 0 <= j < k ==> has_vault(s, #[trigger] ov[j])
}

fn listing_entry(op: OutPoint, set: PresignedSet) -> (r: VaultPresignedTransactions)
    ensures
        r@ == (op@, set@),
{
    VaultPresignedTransactions {
        outpoint: op,
        unvault: set.unvault,
        cancel: set.cancel,
        emergency: set.emergency,
        unvault_emergency: set.unvault_emergency,
    }
}

/// The presigned transactions of the vaults at `outpoints`, in that order;
/// the first outpoint that is unknown or unconfirmed is reported instead.
/// Without outpoints, those of every vault, in the store's order; an
/// unconfirmed vault, which has none yet, is reported instead.
pub fn presigned_txs_list_from_outpoints(
    store: &VaultStore,
    outpoints: &Option<Vec<OutPoint>>,
) -> (r: Result<Vec<VaultPresignedTransactions>, RpcControlError>)
    requires
        store.wf(),
    ensures
        outpoints matches Some(ops) ==> (r is Ok <==> all_listable(store@, outpoints_seq(ops@))),
        outpoints matches Some(ops) ==> (r matches Err(e) ==> first_unlistable(store@, outpoints_seq(ops@), e)),
        outpoints matches Some(ops) ==> (r matches Ok(l) ==> presigned_view(l@) == outpoints_seq(ops@).map_values(
            |o: (Seq<u8>, u32)| (o, entry_of(store@, o).txs->Some_0),
        )),
        outpoints is None ==> (r is Ok <==> all_confirmed(store@.entries)),
        outpoints is None ==> (r matches Err(e) ==> e matches RpcControlError::InvalidStatus(got, expected) && got
            == VaultStatus::Unconfirmed && expected == VaultStatus::Funded),
        outpoints is None ==> (r matches Ok(l) ==> presigned_view(l@) == store@.entries.map_values(
            |e: EntryView| (e.vault.outpoint, e.txs->Some_0),
        )),
{
    match outpoints {
        Some(ops) => {
            let ghost ov = outpoints_seq(ops@);
            let mut l: Vec<VaultPresignedTransactions> = Vec::new();
            let mut i: usize = 0;
            while i < ops.len()
                invariant
                    store.wf(),
                    0 <= i <= ops@.len(),
                    ov == outpoints_seq(ops@),
                    *outpoints == Some(*ops),
                    forall|j: int| 0 <= j < i ==> listable(store@, #[trigger] ov[j]),
                    l@.len() == i,
                    forall|j: int|
                        0 <= j < i ==> (#[trigger] l@[j])@ == (ov[j], entry_of(store@, ov[j]).txs->Some_0),
                decreases ops@.len() - i,
            {
                assert(ov[i as int] == ops@[i as int]@);
                match store.vault_by_deposit(&ops[i]) {
                    None => {
                        let e = RpcControlError::UnknownOutpoint(ops[i].clone());
                        assert(!listable(store@, ov[i as int]) && listing_error(store@, ov[i as int], e));
                        assert(first_unlistable(store@, ov, e));
                        return Err(e);
                    },
                    Some(v) => {
                        if v.status == VaultStatus::Unconfirmed {
                            let e = RpcControlError::InvalidStatus(v.status, VaultStatus::Funded);
                            assert(!listable(store@, ov[i as int]) && listing_error(store@, ov[i as int], e));
                            assert(first_unlistable(store@, ov, e));
                        assert(first_unlistable(store@, ov, e));
                            return Err(e);
                        }
                    },
                }
                match store.presigned_txs(&ops[i]) {
                    Some(set) => {
                        l.push(listing_entry(ops[i].clone(), set));
                    },
                    None => {
                        proof {
                            assert(false);
                        }
                    },
                }
                i = i + 1;
            }
            proof {
                assert(presigned_view(l@) =~= ov.map_values(
                    |o: (Seq<u8>, u32)| (o, entry_of(store@, o).txs->Some_0),
                ));
            }
            Ok(l)
        },
        None => {
            let all = store.vaults();
            let mut l: Vec<VaultPresignedTransactions> = Vec::new();
            let mut i: usize = 0;
            while i < all.len()
                invariant
                    store.wf(),
                    0 <= i <= all@.len(),
                    all@.len() == store@.entries.len(),
                    forall|k: int| 0 <= k < all@.len() ==> (#[trigger] all@[k])@ == store@.entries[k].vault,
                    forall|k: int| 0 <= k < i ==> (#[trigger] store@.entries[k]).vault.status != VaultStatus::Unconfirmed,
                    l@.len() == i,
                    forall|k: int|
                        0 <= k < i ==> (#[trigger] l@[k])@ == (
                            store@.entries[k].vault.outpoint,
                            store@.entries[k].txs->Some_0,
                        ),
                    *outpoints == None::<Vec<OutPoint>>,
                decreases all@.len() - i,
            {
                proof {
                    lemma_index(store@, all@[i as int]@.outpoint, i as int);
                }
                if all[i].status == VaultStatus::Unconfirmed {
                    return Err(RpcControlError::InvalidStatus(VaultStatus::Unconfirmed, VaultStatus::Funded));
                }
                match store.presigned_txs(&all[i].deposit_outpoint) {
                    Some(set) => {
                        l.push(listing_entry(all[i].deposit_outpoint.clone(), set));
                    },
                    None => {
                        proof {
                            assert(crate::store::entry_wf(store@.entries[i as int], store@.stakeholder));
                            assert(false);
                        }
                    },
                }
                i = i + 1;
            }
            assert(presigned_view(l@) =~= store@.entries.map_values(|e: EntryView| (e.vault.outpoint, e.txs->Some_0)));
            Ok(l)
        },
    }
}

/// The txids of a vault's transactions to look up in the wallet: always the
/// deposit, and the presigned transactions once the vault is confirmed.
#[derive(Debug)]
pub struct VaultOnchainTxids {
    pub outpoint: OutPoint,
    pub deposit: Vec<u8>,
    pub unvault: Option<Vec<u8>>,
    pub cancel: Option<Vec<u8>>,
    pub emergency: Option<Vec<u8>>,
    pub unvault_emergency: Option<Vec<u8>>,
}

pub struct OnchainView {
    pub outpoint: (Seq<u8>, u32),
    pub deposit: Seq<u8>,
    pub unvault: Option<Seq<u8>>,
    pub cancel: Option<Seq<u8>>,
    pub emergency: Option<Seq<u8>>,
    pub unvault_emergency: Option<Seq<u8>>,
}

pub open spec fn opt_bytes(o: Option<Vec<u8>>) -> Option<Seq<u8>> {
    match o {
        Some(b) => Some(b@),
        None => None,
    }
}

impl View for VaultOnchainTxids {
    type V = OnchainView;

    open spec fn view(&self) -> OnchainView {
        OnchainView {
            outpoint: self.outpoint@,
            deposit: self.deposit@,
            unvault: opt_bytes(self.unvault),
            cancel: opt_bytes(self.cancel),
            emergency: opt_bytes(self.emergency),
            unvault_emergency: opt_bytes(self.unvault_emergency),
        }
    }
}

pub open spec fn opt_txid(t: Option<TxView>) -> Option<Seq<u8>> {
    match t {
        Some(t) => Some(t.txid),
        None => None,
    }
}

/// What to look up for a vault.
pub open spec fn onchain_of(e: EntryView) -> OnchainView {
    OnchainView {
        outpoint: e.vault.outpoint,
        deposit: e.vault.outpoint.0,
        unvault: match e.txs {
            Some(set) => Some(set.unvault.txid),
            None => None,
        },
        cancel: match e.txs {
            Some(set) => Some(set.cancel.txid),
            None => None,
        },
        emergency: match e.txs {
            Some(set) => opt_txid(set.emergency),
            None => None,
        },
        unvault_emergency: match e.txs {
            Some(set) => opt_txid(set.unvault_emergency),
            None => None,
        },
    }
}

pub open spec fn onchain_view(l: Seq<VaultOnchainTxids>) -> Seq<OnchainView> {
    l.map_values(|x: VaultOnchainTxids| x@)
}

fn opt_txid_of(t: &Option<PresignedTx>) -> (r: Option<Vec<u8>>)
    ensures
        opt_bytes(r) == opt_txid(opt_tx_view(*t)),
{
    match t {
        Some(t) => Some(copy_bytes(&t.txid)),
        None => None,
    }
}

fn onchain_entry(store: &VaultStore, v: &Vault) -> (r: VaultOnchainTxids)
    requires
        store.wf(),
        has_vault(store@, v@.outpoint),
        entry_of(store@, v@.outpoint).vault == v@,
    ensures
        r@ == onchain_of(entry_of(store@, v@.outpoint)),
{
    let (unvault, cancel, emergency, unvault_emergency) = match store.presigned_txs(&v.deposit_outpoint) {
        Some(set) => (
            Some(copy_bytes(&set.unvault.txid)),
            Some(copy_bytes(&set.cancel.txid)),
            opt_txid_of(&set.emergency),
            opt_txid_of(&set.unvault_emergency),
        ),
        None => (None, None, None, None),
    };
    VaultOnchainTxids {
        outpoint: v.deposit_outpoint.clone(),
        deposit: copy_bytes(&v.deposit_outpoint.txid),
        unvault,
        cancel,
        emergency,
        unvault_emergency,
    }
}

/// The transactions to look up in the wallet for the vaults at `outpoints`
/// (of any status), in that order; the first unknown outpoint is reported
/// instead. Without outpoints, those of every vault, in the store's order.
pub fn onchain_txids_from_outpoints(
    store: &VaultStore,
    outpoints: &Option<Vec<OutPoint>>,
) -> (r: Result<Vec<VaultOnchainTxids>, RpcControlError>)
    requires
        store.wf(),
    ensures
        outpoints matches Some(ops) ==> (r is Ok <==> all_known(store@, outpoints_seq(ops@))),
        r matches Err(e) ==> (outpoints matches Some(ops) && first_unknown(store@, outpoints_seq(ops@), e)),
        outpoints matches Some(ops) ==> (r matches Ok(l) ==> onchain_view(l@) == outpoints_seq(ops@).map_values(
            |o: (Seq<u8>, u32)| onchain_of(entry_of(store@, o)),
        )),
        outpoints is None ==> (r matches Ok(l) && onchain_view(l@) == store@.entries.map_values(
            |e: EntryView| onchain_of(e),
        )),
{
    match outpoints {
        Some(ops) => {
            let ghost ov = outpoints_seq(ops@);
            let mut l: Vec<VaultOnchainTxids> = Vec::new();
            let mut i: usize = 0;
            while i < ops.len()
                invariant
                    store.wf(),
                    0 <= i <= ops@.len(),
                    ov == outpoints_seq(ops@),
                    *outpoints == Some(*ops),
                    forall|j: int| 0 <= j < i ==> has_vault(store@, #[trigger] ov[j]),
                    l@.len() == i,
                    forall|j: int| 0 <= j < i ==> (#[trigger] l@[j])@ == onchain_of(entry_of(store@, ov[j])),
                decreases ops@.len() - i,
            {
                assert(ov[i as int] == ops@[i as int]@);
                match store.vault_by_deposit(&ops[i]) {
                    None => {
                        let e = RpcControlError::UnknownOutpoint(ops[i].clone());
                        assert(!has_vault(store@, ov[i as int]) && (e matches RpcControlError::UnknownOutpoint(o)
                            && o@ == ov[i as int]));
                        assert(first_unknown(store@, ov, e));
                        return Err(e);
                    },
                    Some(v) => {
                        l.push(onchain_entry(store, &v));
                    },
                }
                i = i + 1;
            }
            proof {
                assert(onchain_view(l@) =~= ov.map_values(|o: (Seq<u8>, u32)| onchain_of(entry_of(store@, o))));
            }
            Ok(l)
        },
        None => {
            let all = store.vaults();
            let mut l: Vec<VaultOnchainTxids> = Vec::new();
            let mut i: usize = 0;
            while i < all.len()
                invariant
                    store.wf(),
                    0 <= i <= all@.len(),
                    all@.len() == store@.entries.len(),
                    forall|k: int| 0 <= k < all@.len() ==> (#[trigger] all@[k])@ == store@.entries[k].vault,
                    l@.len() == i,
                    forall|j: int| 0 <= j < i ==> (#[trigger] l@[j])@ == onchain_of(store@.entries[j]),
                decreases all@.len() - i,
            {
                proof {
                    lemma_index(store@, all@[i as int]@.outpoint, i as int);
                }
                l.push(onchain_entry(store, &all[i]));
                i = i + 1;
            }
            assert(onchain_view(l@) =~= store@.entries.map_values(|e: EntryView| onchain_of(e)));
            Ok(l)
        },
    }
}



/// Why signatures handed in by the operator were not accepted.
#[derive(Debug)]
pub enum SubmitError {
    /// No vault at this outpoint.
    UnknownOutpoint,
    /// The vault is not in the status the submission needs.
    InvalidStatus { expected: VaultStatus, got: VaultStatus },
    /// The submitted transaction is not the stored one of that role.
    WtxidMismatch { role: TxRole, db: Vec<u8>, submitted: Vec<u8> },
    /// Our key at the vault's derivation index cannot be derived.
    OwnKeyUnavailable,
    /// The submitted transaction carries no signature of ours.
    MissingOwnSignature { role: TxRole, pubkey: Vec<u8> },
    /// A submitted signature is refused.
    InvalidSignature { role: TxRole, error: SigError },
    /// The store refused the signatures (a key that is not a signer, or one
    /// that would hold two different signatures).
    Rejected(StoreError),
}

/// The outcome of a submission, in the order its checks are made.
#[derive(Debug)]
pub enum Verdict {
    UnknownOutpoint,
    /// Every submitted signature is stored already: nothing to do.
    AlreadyRecorded,
    InvalidStatus,
    WtxidMismatch(TxRole),
    OwnKeyUnavailable,
    MissingOwnSignature(TxRole),
    InvalidSignature(TxRole),
    Rejected,
    Accepted,
}

/// The stored transaction of `role` for the vault at `op`.
pub open spec fn db_tx(s: StoreView, op: (Seq<u8>, u32), role: TxRole) -> TxView {
    stored_row(s, op, role)->Some_0
}

/// The submitted revocation transaction of `role`.
pub open spec fn pick(role: TxRole, c: TxView, e: TxView, u: TxView) -> TxView {
    match role {
        TxRole::Cancel => c,
        TxRole::Emergency => e,
        _ => u,
    }
}

/// `sub` is the stored transaction `db`, and each of its signatures is
/// stored already.
pub open spec fn recorded_in(db: TxView, sub: TxView) -> bool {
    &&& db.wtxid == sub.wtxid
    &&& forall|x: (Seq<u8>, Seq<u8>)| sub.sigs.contains(x) ==> db.sigs.contains(x)
}

/// The revocation transactions `c`, `e` and `u` of the confirmed vault at
/// `op` are stored with every one of their signatures.
pub open spec fn revocations_recorded(s: StoreView, op: (Seq<u8>, u32), c: TxView, e: TxView, u: TxView) -> bool {
    &&& entry_of(s, op).vault.status != VaultStatus::Unconfirmed
    &&& recorded_in(db_tx(s, op, TxRole::Cancel), c)
    &&& recorded_in(db_tx(s, op, TxRole::Emergency), e)
    &&& recorded_in(db_tx(s, op, TxRole::UnvaultEmergency), u)
}

/// The first checks of a revocation submission, made before our key is
/// needed: the vault, its status and the transactions' ids. A vault that is
/// no longer funded but already holds every submitted signature is left as
/// it is. `Accepted` here means that these checks pass.
pub open spec fn revocation_ids_verdict(s: StoreView, op: (Seq<u8>, u32), c: TxView, e: TxView, u: TxView) -> Verdict {
    if !has_vault(s, op) {
        Verdict::UnknownOutpoint
    } else if entry_of(s, op).vault.status != VaultStatus::Funded {
        if revocations_recorded(s, op, c, e, u) {
            Verdict::AlreadyRecorded
        } else {
            Verdict::InvalidStatus
        }
    } else if db_tx(s, op, TxRole::Cancel).wtxid != c.wtxid {
        Verdict::WtxidMismatch(TxRole::Cancel)
    } else if db_tx(s, op, TxRole::Emergency).wtxid != e.wtxid {
        Verdict::WtxidMismatch(TxRole::Emergency)
    } else if db_tx(s, op, TxRole::UnvaultEmergency).wtxid != u.wtxid {
        Verdict::WtxidMismatch(TxRole::UnvaultEmergency)
    } else {
        Verdict::Accepted
    }
}

/// The checks of a revocation submission made with our key `pk`: our
/// signature on each transaction, then the validity of every signature, then
/// whether the store can take them.
pub open spec fn revocation_sigs_verdict(
    s: StoreView,
    pk: Seq<u8>,
    op: (Seq<u8>, u32),
    c: TxView,
    e: TxView,
    u: TxView,
) -> Verdict {
    let signers = entry_of(s, op).signers;
    if !has_key(c.sigs, pk) {
        Verdict::MissingOwnSignature(TxRole::Cancel)
    } else if !has_key(e.sigs, pk) {
        Verdict::MissingOwnSignature(TxRole::Emergency)
    } else if !has_key(u.sigs, pk) {
        Verdict::MissingOwnSignature(TxRole::UnvaultEmergency)
    } else if !all_sigs_valid(db_tx(s, op, TxRole::Cancel).sighash, c.sigs, SIGHASH_ALL_ANYONECANPAY) {
        Verdict::InvalidSignature(TxRole::Cancel)
    } else if !all_sigs_valid(db_tx(s, op, TxRole::Emergency).sighash, e.sigs, SIGHASH_ALL_ANYONECANPAY) {
        Verdict::InvalidSignature(TxRole::Emergency)
    } else if !all_sigs_valid(db_tx(s, op, TxRole::UnvaultEmergency).sighash, u.sigs, SIGHASH_ALL_ANYONECANPAY) {
        Verdict::InvalidSignature(TxRole::UnvaultEmergency)
    } else if !(mergeable(db_tx(s, op, TxRole::Cancel), c.sigs, signers) && mergeable(
        db_tx(s, op, TxRole::Emergency),
        e.sigs,
        signers,
    ) && mergeable(db_tx(s, op, TxRole::UnvaultEmergency), u.sigs, signers)) {
        Verdict::Rejected
    } else {
        Verdict::Accepted
    }
}

/// The outcome owed to a submission of the revocation transactions `c`, `e`
/// and `u` for the vault at `op`, our key at its derivation index being `pk`
/// (`None` when it cannot be derived).
pub open spec fn revocation_verdict(
    s: StoreView,
    pk: Option<Seq<u8>>,
    op: (Seq<u8>, u32),
    c: TxView,
    e: TxView,
    u: TxView,
) -> Verdict {
    let pre = revocation_ids_verdict(s, op, c, e, u);
    if !(pre is Accepted) {
        pre
    } else if pk is None {
        Verdict::OwnKeyUnavailable
    } else {
        revocation_sigs_verdict(s, pk->Some_0, op, c, e, u)
    }
}

/// Whether the refusal `err` is the one owed for `v`: it names the role, the
/// ids, the key or the signature fault of the first condition not met.
pub open spec fn refusal_fits(
    err: SubmitError,
    v: Verdict,
    s: StoreView,
    pk: Option<Seq<u8>>,
    op: (Seq<u8>, u32),
    expected: VaultStatus,
    c: TxView,
    e: TxView,
    u: TxView,
) -> bool {
    match v {
        Verdict::UnknownOutpoint => err is UnknownOutpoint,
        Verdict::InvalidStatus => err matches SubmitError::InvalidStatus { expected: x, got } && x == expected
            && got == entry_of(s, op).vault.status,
        Verdict::WtxidMismatch(role) => err matches SubmitError::WtxidMismatch { role: r2, db, submitted } && r2
            == role && db@ == db_tx(s, op, role).wtxid && submitted@ == pick(role, c, e, u).wtxid,
        Verdict::OwnKeyUnavailable => err is OwnKeyUnavailable,
        Verdict::MissingOwnSignature(role) => err matches SubmitError::MissingOwnSignature { role: r2, pubkey }
            && r2 == role && pk == Some(pubkey@),
        Verdict::InvalidSignature(role) => err matches SubmitError::InvalidSignature { role: r2, error } && r2
            == role && first_fault(db_tx(s, op, role).sighash, pick(role, c, e, u).sigs, role_flag(role), error),
        Verdict::Rejected => err matches SubmitError::Rejected(x) && (x == StoreError::UnknownSigner || x
            == StoreError::ConflictingSignature),
        _ => false,
    }
}

/// Whether `r` is the result owed for `v`: messages when accepted, none when
/// everything was recorded already, the fitting error otherwise.
pub open spec fn fits(
    r: Result<Vec<SigMessage>, SubmitError>,
    v: Verdict,
    s: StoreView,
    pk: Option<Seq<u8>>,
    op: (Seq<u8>, u32),
    expected: VaultStatus,
    c: TxView,
    e: TxView,
    u: TxView,
) -> bool {
    match v {
        Verdict::Accepted => r is Ok,
        Verdict::AlreadyRecorded => r matches Ok(m) && m@.len() == 0,
        _ => r matches Err(err) && refusal_fits(err, v, s, pk, op, expected, c, e, u),
    }
}

/// What a revocation submission returns and does to the store: the result
/// fits the verdict; an accepted one stores the three signature sets and
/// returns their coordinator messages, Cancel first, then Emergency, then
/// Unvault-Emergency; any other writes nothing.
pub open spec fn revocation_outcome(
    old: StoreView,
    new: StoreView,
    pk: Option<Seq<u8>>,
    op: (Seq<u8>, u32),
    c: TxView,
    e: TxView,
    u: TxView,
    r: Result<Vec<SigMessage>, SubmitError>,
) -> bool {
    let v = revocation_verdict(old, pk, op, c, e, u);
    &&& fits(r, v, old, pk, op, VaultStatus::Funded, c, e, u)
    &&& !(v is Accepted) ==> new == old
    &&& v is Accepted ==> {
        &&& revocations_stored(old, new, op, c.sigs, e.sigs, u.sigs)
        &&& r matches Ok(msgs) && messages_view(msgs@) == messages_of(c.txid, c.sigs) + messages_of(e.txid, e.sigs)
            + messages_of(u.txid, u.sigs)
    }
}

/// Fetches the stored transaction of `role` of a confirmed vault.
fn stored(store: &VaultStore, op: &OutPoint, role: TxRole) -> (r: PresignedTx)
    requires
        store.wf(),
        stored_row(store@, op@, role) is Some,
    ensures
        r@ == db_tx(store@, op@, role),
{
    match store.presigned_tx(op, role) {
        Some(t) => t,
        None => {
            proof {
                assert(false);
            }
            PresignedTx { txid: Vec::new(), wtxid: Vec::new(), sighash: Vec::new(), partial_sigs: Vec::new() }
        },
    }
}

/// Whether the list `stored` holds the entry `x`.
fn holds_entry(stored: &Vec<PartialSig>, x: &PartialSig) -> (r: bool)
    ensures
        r == sigs_view(stored@).contains(x@),
{
    let ghost v = sigs_view(stored@);
    let mut i: usize = 0;
    while i < stored.len()
        invariant
            0 <= i <= stored@.len(),
            v == sigs_view(stored@),
            forall|k: int| 0 <= k < i ==> (#[trigger] v[k]) != x@,
        decreases stored@.len() - i,
    {
        assert(v[i as int] == stored@[i as int]@);
        if crate::types::bytes_eq(&stored[i].pubkey, &x.pubkey) && crate::types::bytes_eq(&stored[i].sig, &x.sig) {
            return true;
        }
        i = i + 1;
    }
    false
}

/// Whether `sub` is the stored transaction `db` with signatures that are all
/// stored already.
fn is_recorded_in(db: &PresignedTx, sub: &PresignedTx) -> (r: bool)
    ensures
        r == recorded_in(db@, sub@),
{
    if !crate::types::bytes_eq(&db.wtxid, &sub.wtxid) {
        return false;
    }
    let ghost v = sub@.sigs;
    let mut i: usize = 0;
    while i < sub.partial_sigs.len()
        invariant
            0 <= i <= sub.partial_sigs@.len(),
            v == sub@.sigs,
            db@.wtxid == sub@.wtxid,
            forall|k: int| 0 <= k < i ==> db@.sigs.contains(#[trigger] v[k]),
        decreases sub.partial_sigs@.len() - i,
    {
        assert(v[i as int] == sub.partial_sigs@[i as int]@);
        if !holds_entry(&db.partial_sigs, &sub.partial_sigs[i]) {
            assert(v.contains(v[i as int]));
            return false;
        }
        i = i + 1;
    }
    proof {
        assert forall|x: (Seq<u8>, Seq<u8>)| v.contains(x) implies db@.sigs.contains(x) by {
            let k = choose|k: int| 0 <= k < v.len() && v[k] == x;
            assert(db@.sigs.contains(v[k]));
        }
    }
    true
}

/// The checks of a revocation submission made before our key is needed.
/// Gives the vault when they pass, `None` when every submitted signature is
/// stored already.
fn revocation_precheck(
    store: &VaultStore,
    op: &OutPoint,
    cancel: &PresignedTx,
    emer: &PresignedTx,
    unvault_emer: &PresignedTx,
) -> (r: Result<Option<Vault>, SubmitError>)
    requires
        store.wf(),
        store@.stakeholder,
    ensures
        ({
            let v = revocation_ids_verdict(store@, op@, cancel@, emer@, unvault_emer@);
            &&& v is Accepted <==> (r matches Ok(Some(_)))
            &&& v is AlreadyRecorded <==> (r matches Ok(None))
            &&& r matches Err(err) ==> refusal_fits(
                err,
                v,
                store@,
                None,
                op@,
                VaultStatus::Funded,
                cancel@,
                emer@,
                unvault_emer@,
            )
            &&& r matches Ok(Some(vault)) ==> vault@ == entry_of(store@, op@).vault
        }),
{
    let ghost s = store@;
    let v = match store.vault_by_deposit(op) {
        Some(v) => v,
        None => {
            return Err(SubmitError::UnknownOutpoint);
        },
    };
    if v.status == VaultStatus::Unconfirmed {
        return Err(SubmitError::InvalidStatus { expected: VaultStatus::Funded, got: v.status });
    }
    proof {
        let set = entry_of(s, op@).txs->Some_0;
        assert(set.unvault == row(set, TxRole::Unvault)->Some_0);
        assert(row(set, TxRole::Emergency) is Some);
    }
    let db_c = stored(store, op, TxRole::Cancel);
    let db_e = stored(store, op, TxRole::Emergency);
    let db_u = stored(store, op, TxRole::UnvaultEmergency);
    if v.status != VaultStatus::Funded {
        if is_recorded_in(&db_c, cancel) && is_recorded_in(&db_e, emer) && is_recorded_in(&db_u, unvault_emer) {
            return Ok(None);
        }
        return Err(SubmitError::InvalidStatus { expected: VaultStatus::Funded, got: v.status });
    }
    if !crate::types::bytes_eq(&db_c.wtxid, &cancel.wtxid) {
        return Err(SubmitError::WtxidMismatch { role: TxRole::Cancel, db: db_c.wtxid, submitted: copy_bytes(&cancel.wtxid) });
    }
    if !crate::types::bytes_eq(&db_e.wtxid, &emer.wtxid) {
        return Err(SubmitError::WtxidMismatch { role: TxRole::Emergency, db: db_e.wtxid, submitted: copy_bytes(&emer.wtxid) });
    }
    if !crate::types::bytes_eq(&db_u.wtxid, &unvault_emer.wtxid) {
        return Err(
            SubmitError::WtxidMismatch {
                role: TxRole::UnvaultEmergency,
                db: db_u.wtxid,
                submitted: copy_bytes(&unvault_emer.wtxid),
            },
        );
    }
    Ok(Some(v))
}

/// The checks of a revocation submission made with our key, once the first
/// ones passed, then the storing of the signatures.
fn revocation_finish(
    store: &mut VaultStore,
    our_pubkey: &Vec<u8>,
    op: &OutPoint,
    cancel: &PresignedTx,
    emer: &PresignedTx,
    unvault_emer: &PresignedTx,
) -> (r: Result<Vec<SigMessage>, SubmitError>)
    requires
        old(store).wf(),
        old(store)@.stakeholder,
        revocation_ids_verdict(old(store)@, op@, cancel@, emer@, unvault_emer@) is Accepted,
    ensures
        final(store).wf(),
        revocation_outcome(old(store)@, final(store)@, Some(our_pubkey@), op@, cancel@, emer@, unvault_emer@, r),
{
    let ghost s = store@;
    proof {
        let set = entry_of(s, op@).txs->Some_0;
        assert(set.unvault == row(set, TxRole::Unvault)->Some_0);
        assert(row(set, TxRole::Emergency) is Some);
    }
    let db_c = stored(store, op, TxRole::Cancel);
    let db_e = stored(store, op, TxRole::Emergency);
    let db_u = stored(store, op, TxRole::UnvaultEmergency);
    if !holds_key(&cancel.partial_sigs, our_pubkey) {
        return Err(SubmitError::MissingOwnSignature { role: TxRole::Cancel, pubkey: copy_bytes(our_pubkey) });
    }
    if !holds_key(&emer.partial_sigs, our_pubkey) {
        return Err(SubmitError::MissingOwnSignature { role: TxRole::Emergency, pubkey: copy_bytes(our_pubkey) });
    }
    if !holds_key(&unvault_emer.partial_sigs, our_pubkey) {
        return Err(SubmitError::MissingOwnSignature { role: TxRole::UnvaultEmergency, pubkey: copy_bytes(our_pubkey) });
    }
    match check_revocation_signatures(&db_c, &cancel.partial_sigs) {
        Ok(()) => {},
        Err(error) => {
            return Err(SubmitError::InvalidSignature { role: TxRole::Cancel, error });
        },
    }
    match check_revocation_signatures(&db_e, &emer.partial_sigs) {
        Ok(()) => {},
        Err(error) => {
            return Err(SubmitError::InvalidSignature { role: TxRole::Emergency, error });
        },
    }
    match check_revocation_signatures(&db_u, &unvault_emer.partial_sigs) {
        Ok(()) => {},
        Err(error) => {
            return Err(SubmitError::InvalidSignature { role: TxRole::UnvaultEmergency, error });
        },
    }
    match store.merge_revocation_signatures(op, &cancel.partial_sigs, &emer.partial_sigs, &unvault_emer.partial_sigs) {
        Ok(()) => {},
        Err(e) => {
            return Err(SubmitError::Rejected(e));
        },
    }
    let mut msgs = sig_messages(&cancel.txid, &db_c.sighash, &cancel.partial_sigs, SIGHASH_ALL_ANYONECANPAY);
    let mut more = sig_messages(&emer.txid, &db_e.sighash, &emer.partial_sigs, SIGHASH_ALL_ANYONECANPAY);
    msgs.append(&mut more);
    let mut last = sig_messages(&unvault_emer.txid, &db_u.sighash, &unvault_emer.partial_sigs, SIGHASH_ALL_ANYONECANPAY);
    msgs.append(&mut last);
    proof {
        assert(messages_view(msgs@) =~= messages_of(cancel@.txid, cancel@.sigs) + messages_of(emer@.txid, emer@.sigs)
            + messages_of(unvault_emer@.txid, unvault_emer@.sigs));
    }
    Ok(msgs)
}

/// Accepts our signatures on the three revocation transactions of a funded
/// vault, `our_pubkey` being our key at the vault's derivation index: checks
/// that each is the stored transaction, carries our signature and only valid
/// ones, stores the three sets (all or none), and returns the messages that
/// share them with the coordinator. Handing in again signatures that are all
/// stored already changes nothing and returns no message.
pub fn revocation_txs_with_key(
    store: &mut VaultStore,
    our_pubkey: &Vec<u8>,
    op: &OutPoint,
    cancel: &PresignedTx,
    emer: &PresignedTx,
    unvault_emer: &PresignedTx,
) -> (r: Result<Vec<SigMessage>, SubmitError>)
    requires
        old(store).wf(),
        old(store)@.stakeholder,
    ensures
        final(store).wf(),
        revocation_outcome(old(store)@, final(store)@, Some(our_pubkey@), op@, cancel@, emer@, unvault_emer@, r),
{
    match revocation_precheck(store, op, cancel, emer, unvault_emer) {
        Err(e) => Err(e),
        Ok(None) => Ok(Vec::new()),
        Ok(Some(_)) => revocation_finish(store, our_pubkey, op, cancel, emer, unvault_emer),
    }
}

/// Accepts our signatures on the three revocation transactions of a funded
/// vault, our key being derived from our stakeholder extended public key
/// `our_xpub` (BIP32 encoding) at the vault's derivation index, once the
/// vault, its status and the transactions' ids are checked. Should that
/// derivation fail, nothing is written. Handing in again signatures that are
/// all stored already changes nothing and returns no message.
pub fn revocation_txs(
    store: &mut VaultStore,
    our_xpub: &Vec<u8>,
    op: &OutPoint,
    cancel: &PresignedTx,
    emer: &PresignedTx,
    unvault_emer: &PresignedTx,
) -> (r: Result<Vec<SigMessage>, SubmitError>)
    requires
        old(store).wf(),
        old(store)@.stakeholder,
    ensures
        final(store).wf(),
        revocation_outcome(
            old(store)@,
            final(store)@,
            our_key(our_xpub@, entry_of(old(store)@, op@).vault.derivation_index),
            op@,
            cancel@,
            emer@,
            unvault_emer@,
            r,
        ),
{
    match revocation_precheck(store, op, cancel, emer, unvault_emer) {
        Err(e) => Err(e),
        Ok(None) => Ok(Vec::new()),
        Ok(Some(v)) => match our_stakeholder_key(our_xpub, v.derivation_index) {
            Some(pk) => revocation_finish(store, &pk, op, cancel, emer, unvault_emer),
            None => Err(SubmitError::OwnKeyUnavailable),
        },
    }
}

/// The checks of an Unvault submission made before our key is needed: the
/// vault, its status and the transaction's id. `Accepted` here means that
/// they pass.
pub open spec fn unvault_ids_verdict(s: StoreView, op: (Seq<u8>, u32), t: TxView) -> Verdict {
    if !has_vault(s, op) {
        Verdict::UnknownOutpoint
    } else if entry_of(s, op).vault.status != VaultStatus::Secured {
        Verdict::InvalidStatus
    } else if db_tx(s, op, TxRole::Unvault).wtxid != t.wtxid {
        Verdict::WtxidMismatch(TxRole::Unvault)
    } else {
        Verdict::Accepted
    }
}

/// The outcome owed to a submission of the Unvault transaction `t` for the
/// vault at `op`, our key at its derivation index being `pk` (`None` when it
/// cannot be derived).
pub open spec fn unvault_verdict(s: StoreView, pk: Option<Seq<u8>>, op: (Seq<u8>, u32), t: TxView) -> Verdict {
    let pre = unvault_ids_verdict(s, op, t);
    if !(pre is Accepted) {
        pre
    } else if pk is None {
        Verdict::OwnKeyUnavailable
    } else if !has_key(t.sigs, pk->Some_0) {
        Verdict::MissingOwnSignature(TxRole::Unvault)
    } else if !all_sigs_valid(db_tx(s, op, TxRole::Unvault).sighash, t.sigs, SIGHASH_ALL) {
        Verdict::InvalidSignature(TxRole::Unvault)
    } else if !mergeable(db_tx(s, op, TxRole::Unvault), t.sigs, entry_of(s, op).signers) {
        Verdict::Rejected
    } else {
        Verdict::Accepted
    }
}

/// What an Unvault submission returns and does to the store: the result fits
/// the verdict; an accepted one stores the signatures and returns their
/// coordinator messages; any other writes nothing.
pub open spec fn unvault_outcome(
    old: StoreView,
    new: StoreView,
    pk: Option<Seq<u8>>,
    op: (Seq<u8>, u32),
    t: TxView,
    r: Result<Vec<SigMessage>, SubmitError>,
) -> bool {
    let v = unvault_verdict(old, pk, op, t);
    &&& fits(r, v, old, pk, op, VaultStatus::Secured, t, t, t)
    &&& !(v is Accepted) ==> new == old
    &&& v is Accepted ==> {
        &&& unvault_stored(old, new, op, t.sigs)
        &&& r matches Ok(msgs) && messages_view(msgs@) == messages_of(t.txid, t.sigs)
    }
}

/// The checks of an Unvault submission made before our key is needed.
fn unvault_precheck(store: &VaultStore, op: &OutPoint, unvault: &PresignedTx) -> (r: Result<Vault, SubmitError>)
    requires
        store.wf(),
    ensures
        ({
            let v = unvault_ids_verdict(store@, op@, unvault@);
            &&& v is Accepted <==> r is Ok
            &&& r matches Err(err) ==> refusal_fits(
                err,
                v,
                store@,
                None,
                op@,
                VaultStatus::Secured,
                unvault@,
                unvault@,
                unvault@,
            )
            &&& r matches Ok(vault) ==> vault@ == entry_of(store@, op@).vault
        }),
{
    let v = match store.vault_by_deposit(op) {
        Some(v) => v,
        None => {
            return Err(SubmitError::UnknownOutpoint);
        },
    };
    if v.status != VaultStatus::Secured {
        return Err(SubmitError::InvalidStatus { expected: VaultStatus::Secured, got: v.status });
    }
    proof {
        let set = entry_of(store@, op@).txs->Some_0;
        assert(set.unvault == row(set, TxRole::Unvault)->Some_0);
    }
    let db = stored(store, op, TxRole::Unvault);
    if !crate::types::bytes_eq(&db.wtxid, &unvault.wtxid) {
        return Err(SubmitError::WtxidMismatch { role: TxRole::Unvault, db: db.wtxid, submitted: copy_bytes(&unvault.wtxid) });
    }
    Ok(v)
}

/// The checks of an Unvault submission made with our key, once the first ones
/// passed, then the storing of the signatures.
fn unvault_finish(
    store: &mut VaultStore,
    our_pubkey: &Vec<u8>,
    op: &OutPoint,
    unvault: &PresignedTx,
) -> (r: Result<Vec<SigMessage>, SubmitError>)
    requires
        old(store).wf(),
        unvault_ids_verdict(old(store)@, op@, unvault@) is Accepted,
    ensures
        final(store).wf(),
        unvault_outcome(old(store)@, final(store)@, Some(our_pubkey@), op@, unvault@, r),
        funded_kept(old(store)@, final(store)@),
{
    proof {
        let set = entry_of(store@, op@).txs->Some_0;
        assert(set.unvault == row(set, TxRole::Unvault)->Some_0);
    }
    let db = stored(store, op, TxRole::Unvault);
    if !holds_key(&unvault.partial_sigs, our_pubkey) {
        return Err(SubmitError::MissingOwnSignature { role: TxRole::Unvault, pubkey: copy_bytes(our_pubkey) });
    }
    // The stored transaction, carrying the submitted signatures.
    let candidate = PresignedTx {
        txid: copy_bytes(&db.txid),
        wtxid: copy_bytes(&db.wtxid),
        sighash: copy_bytes(&db.sighash),
        partial_sigs: copy_sigs(&unvault.partial_sigs),
    };
    match check_unvault_signatures(&candidate) {
        Ok(()) => {},
        Err(error) => {
            return Err(SubmitError::InvalidSignature { role: TxRole::Unvault, error });
        },
    }
    match store.merge_unvault_signatures(op, &unvault.partial_sigs) {
        Ok(()) => {},
        Err(e) => {
            return Err(SubmitError::Rejected(e));
        },
    }
    Ok(sig_messages(&unvault.txid, &db.sighash, &unvault.partial_sigs, SIGHASH_ALL))
}

/// Accepts our signature on the Unvault transaction of a secured vault,
/// `our_pubkey` being our key at the vault's derivation index: checks that it
/// is the stored transaction, carries our signature and only valid ones,
/// stores them and returns the messages that share them with the coordinator.
pub fn unvault_tx_with_key(
    store: &mut VaultStore,
    our_pubkey: &Vec<u8>,
    op: &OutPoint,
    unvault: &PresignedTx,
) -> (r: Result<Vec<SigMessage>, SubmitError>)
    requires
        old(store).wf(),
    ensures
        final(store).wf(),
        unvault_outcome(old(store)@, final(store)@, Some(our_pubkey@), op@, unvault@, r),
        funded_kept(old(store)@, final(store)@),
{
    match unvault_precheck(store, op, unvault) {
        Err(e) => Err(e),
        Ok(_) => unvault_finish(store, our_pubkey, op, unvault),
    }
}

/// Accepts our signature on the Unvault transaction of a secured vault, our
/// key being derived from our stakeholder extended public key `our_xpub` at
/// the vault's derivation index, once the vault, its status and the
/// transaction's id are checked. Should that derivation fail, nothing is
/// written.
pub fn unvault_tx(
    store: &mut VaultStore,
    our_xpub: &Vec<u8>,
    op: &OutPoint,
    unvault: &PresignedTx,
) -> (r: Result<Vec<SigMessage>, SubmitError>)
    requires
        old(store).wf(),
    ensures
        final(store).wf(),
        unvault_outcome(
            old(store)@,
            final(store)@,
            our_key(our_xpub@, entry_of(old(store)@, op@).vault.derivation_index),
            op@,
            unvault@,
            r,
        ),
        funded_kept(old(store)@, final(store)@),
{
    match unvault_precheck(store, op, unvault) {
        Err(e) => Err(e),
        Ok(v) => match our_stakeholder_key(our_xpub, v.derivation_index) {
            Some(pk) => unvault_finish(store, &pk, op, unvault),
            None => Err(SubmitError::OwnKeyUnavailable),
        },
    }
}

} // verus!
