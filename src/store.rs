//! The vault store: each vault keyed by its deposit outpoint, with the
//! presigned transactions bound to it once its deposit is confirmed.
//!
//! The store keeps these invariants (`wf`): outpoints are unique; a vault has
//! presigned transactions exactly when it is no longer `Unconfirmed`; the
//! Emergency and Unvault-Emergency transactions are held exactly when the
//! daemon is a stakeholder; and every stored signature comes from one of the
//! vault's signers, is that signer's only entry, carries the flag of its
//! transaction's role and verifies against that transaction's sighash.

use crate::sigcheck::{all_sigs_valid, check_role_signatures, sig_blob_valid};
use crate::types::{
    bytes_eq, consistent, has_key, keys_unique, role_flag, sigs_view,
    OutPoint, PartialSig, PresignedTx, TxRole, TxView, VaultStatus,
};
use vstd::prelude::*;

verus! {

/// A vault record.
#[derive(Debug)]
pub struct Vault {
    pub deposit_outpoint: OutPoint,
    pub amount: u64,
    pub derivation_index: u32,
    pub status: VaultStatus,
    pub updated_at: u64,
}

pub struct VaultView {
    pub outpoint: (Seq<u8>, u32),
    pub amount: u64,
    pub derivation_index: u32,
    pub status: VaultStatus,
    pub updated_at: u64,
}

impl View for Vault {
    type V = VaultView;

    open spec fn view(&self) -> VaultView {
        VaultView {
            outpoint: self.deposit_outpoint@,
            amount: self.amount,
            derivation_index: self.derivation_index,
            status: self.status,
            updated_at: self.updated_at,
        }
    }
}

impl Clone for Vault {
    fn clone(&self) -> (r: Self)
        ensures
            r@ == self@,
    {
        Vault {
            deposit_outpoint: self.deposit_outpoint.clone(),
            amount: self.amount,
            derivation_index: self.derivation_index,
            status: self.status,
            updated_at: self.updated_at,
        }
    }
}

/// The presigned transactions of a confirmed vault. The two emergency
/// transactions are only known to stakeholders.
#[derive(Debug)]
pub struct PresignedSet {
    pub unvault: PresignedTx,
    pub cancel: PresignedTx,
    pub emergency: Option<PresignedTx>,
    pub unvault_emergency: Option<PresignedTx>,
}

pub struct SetView {
    pub unvault: TxView,
    pub cancel: TxView,
    pub emergency: Option<TxView>,
    pub unvault_emergency: Option<TxView>,
}

pub open spec fn opt_tx_view(t: Option<PresignedTx>) -> Option<TxView> {
    match t {
        Some(t) => Some(t@),
        None => None,
    }
}

impl View for PresignedSet {
    type V = SetView;

    open spec fn view(&self) -> SetView {
        SetView {
            unvault: self.unvault@,
            cancel: self.cancel@,
            emergency: opt_tx_view(self.emergency),
            unvault_emergency: opt_tx_view(self.unvault_emergency),
        }
    }
}

fn copy_opt_tx(t: &Option<PresignedTx>) -> (r: Option<PresignedTx>)
    ensures
        opt_tx_view(r) == opt_tx_view(*t),
{
    match t {
        Some(t) => Some(t.clone()),
        None => None,
    }
}

impl Clone for PresignedSet {
    fn clone(&self) -> (r: Self)
        ensures
            r@ == self@,
    {
        PresignedSet {
            unvault: self.unvault.clone(),
            cancel: self.cancel.clone(),
            emergency: copy_opt_tx(&self.emergency),
            unvault_emergency: copy_opt_tx(&self.unvault_emergency),
        }
    }
}

/// The stored transaction of a role, if any.
pub open spec fn row(set: SetView, role: TxRole) -> Option<TxView> {
    match role {
        TxRole::Unvault => Some(set.unvault),
        TxRole::Cancel => Some(set.cancel),
        TxRole::Emergency => set.emergency,
        TxRole::UnvaultEmergency => set.unvault_emergency,
    }
}

/// One vault of the store, with the public keys of the participants whose
/// signatures its presigned transactions need.
struct Entry {
    vault: Vault,
    signers: Vec<Vec<u8>>,
    txs: Option<PresignedSet>,
}

pub struct EntryView {
    pub vault: VaultView,
    pub signers: Seq<Seq<u8>>,
    pub txs: Option<SetView>,
}

pub open spec fn opt_set_view(s: Option<PresignedSet>) -> Option<SetView> {
    match s {
        Some(s) => Some(s@),
        None => None,
    }
}

pub open spec fn keys_view(keys: Seq<Vec<u8>>) -> Seq<Seq<u8>> {
    keys.map_values(|k: Vec<u8>| k@)
}

impl View for Entry {
    type V = EntryView;

    closed spec fn view(&self) -> EntryView {
        EntryView { vault: self.vault@, signers: keys_view(self.signers@), txs: opt_set_view(self.txs) }
    }
}

/// The vault store.
pub struct VaultStore {
    stakeholder: bool,
    entries: Vec<Entry>,
}

pub struct StoreView {
    pub stakeholder: bool,
    pub entries: Seq<EntryView>,
}

spec fn entries_view(e: Seq<Entry>) -> Seq<EntryView> {
    e.map_values(|x: Entry| x@)
}

impl View for VaultStore {
    type V = StoreView;

    closed spec fn view(&self) -> StoreView {
        StoreView { stakeholder: self.stakeholder, entries: entries_view(self.entries@) }
    }
}

/// Whether the store holds a vault at this outpoint.
pub open spec fn has_vault(s: StoreView, op: (Seq<u8>, u32)) -> bool {
    exists|i: int| 0 <= i < s.entries.len() && (#[trigger] s.entries[i]).vault.outpoint == op
}

/// The position of the vault at this outpoint.
pub open spec fn vault_index(s: StoreView, op: (Seq<u8>, u32)) -> int {
    choose|i: int| 0 <= i < s.entries.len() && (#[trigger] s.entries[i]).vault.outpoint == op
}

/// The vault at this outpoint (meaningful when `has_vault`).
pub open spec fn entry_of(s: StoreView, op: (Seq<u8>, u32)) -> EntryView {
    s.entries[vault_index(s, op)]
}

/// Whether `pk` is one of `keys`.
pub open spec fn is_signer(keys: Seq<Seq<u8>>, pk: Seq<u8>) -> bool {
    keys.contains(pk)
}

/// A stored transaction is well formed for its role and the vault's signers.
pub open spec fn row_wf(tx: TxView, role: TxRole, signers: Seq<Seq<u8>>) -> bool {
    &&& keys_unique(tx.sigs)
    &&& all_sigs_valid(tx.sighash, tx.sigs, role_flag(role))
    &&& forall|i: int| 0 <= i < tx.sigs.len() ==> is_signer(signers, (#[trigger] tx.sigs[i]).0)
}

/// The presigned transactions of a vault are well formed.
pub open spec fn set_wf(set: SetView, signers: Seq<Seq<u8>>, stakeholder: bool) -> bool {
    &&& set.emergency is Some <==> stakeholder
    &&& set.unvault_emergency is Some <==> stakeholder
    &&& forall|role: TxRole| (#[trigger] row(set, role)) is Some ==> row_wf(row(set, role)->Some_0, role, signers)
}

pub open spec fn entry_wf(e: EntryView, stakeholder: bool) -> bool {
    &&& (e.txs is None <==> e.vault.status == VaultStatus::Unconfirmed)
    &&& (e.txs matches Some(set) ==> set_wf(set, e.signers, stakeholder))
}

/// The store's invariant.
pub open spec fn store_wf(s: StoreView) -> bool {
    &&& forall|i: int, j: int|
        0 <= i < s.entries.len() && 0 <= j < s.entries.len() && (#[trigger] s.entries[i]).vault.outpoint
            == (#[trigger] s.entries[j]).vault.outpoint ==> i == j
    &&& forall|i: int| 0 <= i < s.entries.len() ==> entry_wf(#[trigger] s.entries[i], s.stakeholder)
}

/// Every signer of `signers` holds an entry in the transaction's signatures.
pub open spec fn fully_signed(tx: TxView, signers: Seq<Seq<u8>>) -> bool {
    covers(tx.sigs, signers)
}

/// The three revocation transactions of a set are fully signed.
pub open spec fn revocations_fully_signed(set: SetView, signers: Seq<Seq<u8>>) -> bool {
    &&& fully_signed(set.cancel, signers)
    &&& (set.emergency matches Some(t) ==> fully_signed(t, signers))
    &&& (set.unvault_emergency matches Some(t) ==> fully_signed(t, signers))
}

/// `new` is `old` with the signatures of `sub` merged in: the same
/// transaction, holding exactly the entries of both, one per key.
pub open spec fn merged(old: TxView, new: TxView, sub: Seq<(Seq<u8>, Seq<u8>)>) -> bool {
    &&& new.txid == old.txid
    &&& new.wtxid == old.wtxid
    &&& new.sighash == old.sighash
    &&& keys_unique(new.sigs)
    &&& forall|e: (Seq<u8>, Seq<u8>)| new.sigs.contains(e) <==> (old.sigs + sub).contains(e)
}

/// The signatures of `sub` can join those of `tx`: each comes from a signer
/// and no key would hold two different signatures.
pub open spec fn mergeable(tx: TxView, sub: Seq<(Seq<u8>, Seq<u8>)>, signers: Seq<Seq<u8>>) -> bool {
    &&& consistent(tx.sigs + sub)
    &&& forall|i: int| 0 <= i < sub.len() ==> is_signer(signers, (#[trigger] sub[i]).0)
}

/// Why the store refused a change.
#[derive(Debug, PartialEq, Eq, Structural)]
pub enum StoreError {
    /// No vault at this outpoint.
    UnknownOutpoint,
    /// A vault already exists at this outpoint.
    DuplicateOutpoint,
    /// The vault's status does not allow the change.
    InvalidStatus,
    /// The vault has no stored transaction of that role.
    MissingTransaction,
    /// The emergency transactions are given exactly when the daemon is a stakeholder.
    RoleMismatch,
    /// A signature comes from a key that is not one of the vault's signers.
    UnknownSigner,
    /// A key would hold two different signatures.
    ConflictingSignature,
    /// A signature does not verify.
    InvalidSignature,
}

/// Finds the entry of `pk` in a signature list.
fn find_key(sigs: &Vec<PartialSig>, pk: &Vec<u8>) -> (r: Option<usize>)
    ensures
        r matches Some(k) ==> k < sigs@.len() && sigs@[k as int].pubkey@ == pk@,
        r is None ==> !has_key(sigs_view(sigs@), pk@),
{
    let mut k: usize = 0;
    while k < sigs.len()
        invariant
            0 <= k <= sigs@.len(),
            forall|j: int| 0 <= j < k ==> (#[trigger] sigs@[j]).pubkey@ != pk@,
        decreases sigs@.len() - k,
    {
        if bytes_eq(&sigs[k].pubkey, pk) {
            return Some(k);
        }
        k = k + 1;
    }
    proof {
        let v = sigs_view(sigs@);
        assert forall|j: int| 0 <= j < v.len() implies (#[trigger] v[j]).0 != pk@ by {
            assert(v[j] == sigs@[j]@);
        }
    }
    None
}

/// Whether `pk` is one of `keys`.
fn find_signer(keys: &Vec<Vec<u8>>, pk: &Vec<u8>) -> (r: bool)
    ensures
        r == is_signer(keys_view(keys@), pk@),
{
    let ghost kv = keys_view(keys@);
    let mut k: usize = 0;
    while k < keys.len()
        invariant
            0 <= k <= keys@.len(),
            kv == keys_view(keys@),
            forall|j: int| 0 <= j < k ==> (#[trigger] keys@[j])@ != pk@,
        decreases keys@.len() - k,
    {
        if bytes_eq(&keys[k], pk) {
            assert(kv[k as int] == pk@);
            return true;
        }
        k = k + 1;
    }
    proof {
        if kv.contains(pk@) {
            let j = choose|j: int| 0 <= j < kv.len() && kv[j] == pk@;
            assert(kv[j] == keys@[j]@);
        }
    }
    false
}

/// Whether every signature of `sigs` comes from one of `keys`.
fn all_from_signers(sigs: &Vec<PartialSig>, keys: &Vec<Vec<u8>>) -> (r: bool)
    ensures
        r == forall|i: int| 0 <= i < sigs@.len() ==> is_signer(keys_view(keys@), (#[trigger] sigs_view(sigs@)[i]).0),
{
    let ghost sv = sigs_view(sigs@);
    let mut i: usize = 0;
    while i < sigs.len()
        invariant
            0 <= i <= sigs@.len(),
            sv == sigs_view(sigs@),
            forall|j: int| 0 <= j < i ==> is_signer(keys_view(keys@), (#[trigger] sv[j]).0),
        decreases sigs@.len() - i,
    {
        if !find_signer(keys, &sigs[i].pubkey) {
            assert(sv[i as int] == sigs@[i as int]@);
            return false;
        }
        assert(sv[i as int] == sigs@[i as int]@);
        i = i + 1;
    }
    true
}

proof fn lemma_unique_consistent(s: Seq<(Seq<u8>, Seq<u8>)>)
    requires
        keys_unique(s),
    ensures
        consistent(s),
{
}

/// Merges `sub` into the signature list `stored`; fails when a key would
/// hold two different signatures.
fn merge_sigs(stored: &Vec<PartialSig>, sub: &Vec<PartialSig>) -> (r: Option<Vec<PartialSig>>)
    requires
        keys_unique(sigs_view(stored@)),
    ensures
        r is Some <==> consistent(sigs_view(stored@) + sigs_view(sub@)),
        r matches Some(m) ==> keys_unique(sigs_view(m@)),
        r matches Some(m) ==> forall|e: (Seq<u8>, Seq<u8>)|
            sigs_view(m@).contains(e) <==> (sigs_view(stored@) + sigs_view(sub@)).contains(e),
{
    let ghost s = sigs_view(stored@);
    let ghost n = sigs_view(sub@);
    let mut w = crate::types::copy_sigs(stored);
    proof {
        lemma_unique_consistent(s);
        assert(s + n.subrange(0, 0) =~= s);
    }
    let mut i: usize = 0;
    while i < sub.len()
        invariant
            0 <= i <= sub@.len(),
            s == sigs_view(stored@),
            n == sigs_view(sub@),
            keys_unique(sigs_view(w@)),
            consistent(s + n.subrange(0, i as int)),
            forall|e: (Seq<u8>, Seq<u8>)| sigs_view(w@).contains(e) <==> (s + n.subrange(0, i as int)).contains(e),
        decreases sub@.len() - i,
    {
        let ghost prev = s + n.subrange(0, i as int);
        let ghost next = s + n.subrange(0, i + 1);
        let ghost wv = sigs_view(w@);
        assert(next =~= prev.push(n[i as int]));
        assert(n[i as int] == sub@[i as int]@);
        match find_key(&w, &sub[i].pubkey) {
            Some(k) => {
                assert(wv[k as int] == w@[k as int]@);
                assert(wv.contains(wv[k as int]));
                let same = bytes_eq(&w[k].sig, &sub[i].sig);
                if !same {
                    proof {
                        let a = choose|a: int| 0 <= a < prev.len() && prev[a] == wv[k as int];
                        let full = s + n;
                        assert(full[a] == prev[a]);
                        assert(full[s.len() + i] == n[i as int]);
                    }
                    return None;
                }
                proof {
                    assert(wv[k as int] == n[i as int]);
                    let a = choose|a: int| 0 <= a < prev.len() && prev[a] == wv[k as int];
                    assert forall|x: int, y: int|
                        0 <= x < next.len() && 0 <= y < next.len() && (#[trigger] next[x]).0 == (#[trigger] next[y]).0
                            implies next[x].1 == next[y].1 by {
                        if x == prev.len() as int {
                            assert(prev[a].0 == next[y].0);
                            if y < prev.len() {
                                assert(prev[y] == next[y]);
                            }
                        } else if y == prev.len() as int {
                            assert(prev[a].0 == next[x].0);
                            assert(prev[x] == next[x]);
                        } else {
                            assert(prev[x] == next[x]);
                            assert(prev[y] == next[y]);
                        }
                    }
                    assert forall|e: (Seq<u8>, Seq<u8>)| sigs_view(w@).contains(e) <==> next.contains(e) by {
                        if next.contains(e) {
                            let b = choose|b: int| 0 <= b < next.len() && next[b] == e;
                            if b < prev.len() {
                                assert(prev[b] == e);
                            }
                        }
                        if prev.contains(e) {
                            let b = choose|b: int| 0 <= b < prev.len() && prev[b] == e;
                            assert(next[b] == e);
                        }
                    }
                }
            },
            None => {
                w.push(sub[i].clone());
                proof {
                    let wv2 = sigs_view(w@);
                    assert(wv2 =~= wv.push(n[i as int]));
                    assert forall|x: int, y: int|
                        0 <= x < wv2.len() && 0 <= y < wv2.len() && (#[trigger] wv2[x]).0 == (#[trigger] wv2[y]).0
                            implies x == y by {
                        if x == wv.len() as int && y < wv.len() {
                            assert(wv[y] == wv2[y]);
                        } else if y == wv.len() as int && x < wv.len() {
                            assert(wv[x] == wv2[x]);
                        } else if x < wv.len() && y < wv.len() {
                            assert(wv[x] == wv2[x]);
                            assert(wv[y] == wv2[y]);
                        }
                    }
                    assert forall|x: int, y: int|
                        0 <= x < next.len() && 0 <= y < next.len() && (#[trigger] next[x]).0 == (#[trigger] next[y]).0
                            implies next[x].1 == next[y].1 by {
                        if x == prev.len() as int && y < prev.len() {
                            assert(prev[y] == next[y]);
                            assert(prev.contains(prev[y]));
                            assert(wv.contains(prev[y]));
                            let c = choose|c: int| 0 <= c < wv.len() && wv[c] == prev[y];
                            assert(wv[c].0 == n[i as int].0);
                        } else if y == prev.len() as int && x < prev.len() {
                            assert(prev[x] == next[x]);
                            assert(prev.contains(prev[x]));
                            assert(wv.contains(prev[x]));
                            let c = choose|c: int| 0 <= c < wv.len() && wv[c] == prev[x];
                            assert(wv[c].0 == n[i as int].0);
                        } else if x < prev.len() && y < prev.len() {
                            assert(prev[x] == next[x]);
                            assert(prev[y] == next[y]);
                        }
                    }
                    assert forall|e: (Seq<u8>, Seq<u8>)| wv2.contains(e) <==> next.contains(e) by {
                        if next.contains(e) {
                            let b = choose|b: int| 0 <= b < next.len() && next[b] == e;
                            if b < prev.len() {
                                assert(prev[b] == e);
                                assert(wv.contains(e));
                                let c = choose|c: int| 0 <= c < wv.len() && wv[c] == e;
                                assert(wv2[c] == e);
                            } else {
                                assert(wv2[wv.len() as int] == e);
                            }
                        }
                        if wv2.contains(e) {
                            let c = choose|c: int| 0 <= c < wv2.len() && wv2[c] == e;
                            if c < wv.len() {
                                assert(wv[c] == e);
                                assert(wv.contains(e));
                                let b = choose|b: int| 0 <= b < prev.len() && prev[b] == e;
                                assert(next[b] == e);
                            } else {
                                assert(next[prev.len() as int] == e);
                            }
                        }
                    }
                }
            },
        }
        i = i + 1;
    }
    assert(n.subrange(0, sub@.len() as int) =~= n);
    Some(w)
}


/// `t` with its signatures replaced.
pub open spec fn tx_with_sigs(t: TxView, sigs: Seq<(Seq<u8>, Seq<u8>)>) -> TxView {
    TxView { txid: t.txid, wtxid: t.wtxid, sighash: t.sighash, sigs }
}

/// `t` stripped of its signatures.
pub open spec fn unsigned(t: TxView) -> TxView {
    tx_with_sigs(t, Seq::empty())
}

pub open spec fn opt_with_sigs(t: Option<TxView>, sigs: Seq<(Seq<u8>, Seq<u8>)>) -> Option<TxView> {
    match t {
        Some(t) => Some(tx_with_sigs(t, sigs)),
        None => None,
    }
}

/// `set` with the signatures of its transaction of `role` replaced.
pub open spec fn set_with_sigs(set: SetView, role: TxRole, sigs: Seq<(Seq<u8>, Seq<u8>)>) -> SetView {
    match role {
        TxRole::Unvault => SetView { unvault: tx_with_sigs(set.unvault, sigs), ..set },
        TxRole::Cancel => SetView { cancel: tx_with_sigs(set.cancel, sigs), ..set },
        TxRole::Emergency => SetView { emergency: opt_with_sigs(set.emergency, sigs), ..set },
        TxRole::UnvaultEmergency => SetView {
            unvault_emergency: opt_with_sigs(set.unvault_emergency, sigs),
            ..set
        },
    }
}

pub open spec fn entry_with_set(e: EntryView, set: SetView) -> EntryView {
    EntryView { txs: Some(set), ..e }
}

pub open spec fn entry_with_status(e: EntryView, status: VaultStatus) -> EntryView {
    EntryView { vault: VaultView { status, ..e.vault }, ..e }
}

/// The stored transaction of `role` for the vault at `op`, if any.
pub open spec fn stored_row(s: StoreView, op: (Seq<u8>, u32), role: TxRole) -> Option<TxView> {
    if has_vault(s, op) {
        match entry_of(s, op).txs {
            Some(set) => row(set, role),
            None => None,
        }
    } else {
        None
    }
}

/// In a well-formed store, the vault found at a position is the one its
/// outpoint designates.
pub proof fn lemma_index(s: StoreView, op: (Seq<u8>, u32), i: int)
    requires
        store_wf(s),
        0 <= i < s.entries.len(),
        s.entries[i].vault.outpoint == op,
    ensures
        has_vault(s, op),
        vault_index(s, op) == i,
{
    assert(s.entries[i].vault.outpoint == op);
    let j = vault_index(s, op);
    assert(s.entries[j].vault.outpoint == op);
}

proof fn lemma_merged_row_wf(
    old_tx: TxView,
    new_tx: TxView,
    sub: Seq<(Seq<u8>, Seq<u8>)>,
    role: TxRole,
    signers: Seq<Seq<u8>>,
)
    requires
        row_wf(old_tx, role, signers),
        merged(old_tx, new_tx, sub),
        mergeable(old_tx, sub, signers),
        all_sigs_valid(old_tx.sighash, sub, role_flag(role)),
    ensures
        row_wf(new_tx, role, signers),
{
    let all = old_tx.sigs + sub;
    assert forall|k: int| 0 <= k < new_tx.sigs.len() implies sig_blob_valid(
        new_tx.sighash,
        (#[trigger] new_tx.sigs[k]).0,
        new_tx.sigs[k].1,
        role_flag(role),
    ) && is_signer(signers, new_tx.sigs[k].0) by {
        let e = new_tx.sigs[k];
        assert(new_tx.sigs.contains(e));
        assert(all.contains(e));
        let a = choose|a: int| 0 <= a < all.len() && all[a] == e;
        if a < old_tx.sigs.len() {
            assert(old_tx.sigs[a] == e);
        } else {
            assert(sub[a - old_tx.sigs.len()] == e);
        }
    }
}

impl VaultStore {
    /// The store's invariant holds.
    pub open spec fn wf(&self) -> bool {
        store_wf(self@)
    }

    /// An empty store, for a daemon that is a stakeholder or not.
    pub fn new(stakeholder: bool) -> (r: VaultStore)
        ensures
            r.wf(),
            r@.stakeholder == stakeholder,
            r@.entries.len() == 0,
    {
        let r = VaultStore { stakeholder, entries: Vec::new() };
        assert(r@.entries =~= Seq::<EntryView>::empty());
        r
    }

    /// Whether the daemon holds the stakeholder role.
    pub fn is_stakeholder(&self) -> (r: bool)
        ensures
            r == self@.stakeholder,
    {
        self.stakeholder
    }

    fn find(&self, op: &OutPoint) -> (r: Option<usize>)
        requires
            self.wf(),
        ensures
            r matches Some(i) ==> i < self@.entries.len() && has_vault(self@, op@) && vault_index(self@, op@)
                == i,
            r is None ==> !has_vault(self@, op@),
    {
        let mut k: usize = 0;
        while k < self.entries.len()
            invariant
                self.wf(),
                0 <= k <= self.entries@.len(),
                self@.entries.len() == self.entries@.len(),
                forall|j: int| 0 <= j < k ==> (#[trigger] self@.entries[j]).vault.outpoint != op@,
            decreases self.entries@.len() - k,
        {
            assert(self@.entries[k as int] == self.entries@[k as int]@);
            if self.entries[k].vault.deposit_outpoint.same(op) {
                proof {
                    lemma_index(self@, op@, k as int);
                }
                return Some(k);
            }
            k = k + 1;
        }
        None
    }

    /// The vault at a deposit outpoint, if any.
    pub fn vault_by_deposit(&self, op: &OutPoint) -> (r: Option<Vault>)
        requires
            self.wf(),
        ensures
            r is Some <==> has_vault(self@, op@),
            r matches Some(v) ==> v@ == entry_of(self@, op@).vault,
    {
        match self.find(op) {
            Some(i) => {
                assert(self@.entries[i as int] == self.entries@[i as int]@);
                Some(self.entries[i].vault.clone())
            },
            None => None,
        }
    }

    /// All vaults, in the store's order.
    pub fn vaults(&self) -> (r: Vec<Vault>)
        ensures
            r@.len() == self@.entries.len(),
            forall|i: int| 0 <= i < r@.len() ==> (#[trigger] r@[i])@ == self@.entries[i].vault,
    {
        let mut r: Vec<Vault> = Vec::new();
        let mut k: usize = 0;
        while k < self.entries.len()
            invariant
                0 <= k <= self.entries@.len(),
                self@.entries.len() == self.entries@.len(),
                r@.len() == k,
                forall|i: int| 0 <= i < k ==> (#[trigger] r@[i])@ == self@.entries[i].vault,
            decreases self.entries@.len() - k,
        {
            assert(self@.entries[k as int] == self.entries@[k as int]@);
            r.push(self.entries[k].vault.clone());
            k = k + 1;
        }
        r
    }

    /// The presigned transactions of the vault at `op`, if it exists and is confirmed.
    pub fn presigned_txs(&self, op: &OutPoint) -> (r: Option<PresignedSet>)
        requires
            self.wf(),
        ensures
            has_vault(self@, op@) ==> opt_set_view(r) == entry_of(self@, op@).txs,
            !has_vault(self@, op@) ==> r is None,
    {
        match self.find(op) {
            Some(i) => {
                assert(self@.entries[i as int] == self.entries@[i as int]@);
                match &self.entries[i].txs {
                    Some(set) => Some(set.clone()),
                    None => None,
                }
            },
            None => None,
        }
    }

    /// The stored transaction of `role` for the vault at `op`, if any.
    pub fn presigned_tx(&self, op: &OutPoint, role: TxRole) -> (r: Option<PresignedTx>)
        requires
            self.wf(),
        ensures
            opt_tx_view(r) == stored_row(self@, op@, role),
    {
        match self.presigned_txs(op) {
            Some(set) => match role {
                TxRole::Unvault => Some(set.unvault),
                TxRole::Cancel => Some(set.cancel),
                TxRole::Emergency => set.emergency,
                TxRole::UnvaultEmergency => set.unvault_emergency,
            },
            None => None,
        }
    }

    /// Records a new, unconfirmed vault with the public keys of the
    /// participants that sign its presigned transactions.
    pub fn insert_vault(
        &mut self,
        op: OutPoint,
        amount: u64,
        derivation_index: u32,
        updated_at: u64,
        signers: Vec<Vec<u8>>,
    ) -> (r: Result<(), StoreError>)
        requires
            old(self).wf(),
        ensures
            final(self).wf(),
            r is Err <==> has_vault(old(self)@, op@),
            funded_kept(old(self)@, final(self)@),
            r matches Err(e) ==> e == StoreError::DuplicateOutpoint && final(self)@ == old(self)@,
            r is Ok ==> final(self)@ == (StoreView {
                entries: old(self)@.entries.push(
                    EntryView {
                        vault: VaultView {
                            outpoint: op@,
                            amount,
                            derivation_index,
                            status: VaultStatus::Unconfirmed,
                            updated_at,
                        },
                        signers: keys_view(signers@),
                        txs: None,
                    },
                ),
                ..old(self)@
            }),
    {
        if self.find(&op).is_some() {
            return Err(StoreError::DuplicateOutpoint);
        }
        let ghost old_entries = self.entries@;
        let vault = Vault { deposit_outpoint: op, amount, derivation_index, status: VaultStatus::Unconfirmed, updated_at };
        let e = Entry { vault, signers, txs: None };
        self.entries.push(e);
        proof {
            assert(entries_view(self.entries@) =~= entries_view(old_entries).push(e@));
            let s = self@;
            assert forall|i: int, j: int|
                0 <= i < s.entries.len() && 0 <= j < s.entries.len() && (#[trigger] s.entries[i]).vault.outpoint
                    == (#[trigger] s.entries[j]).vault.outpoint implies i == j by {
                if i == s.entries.len() - 1 && j < i {
                    assert(old(self)@.entries[j] == s.entries[j]);
                } else if j == s.entries.len() - 1 && i < j {
                    assert(old(self)@.entries[i] == s.entries[i]);
                } else if i < s.entries.len() - 1 && j < s.entries.len() - 1 {
                    assert(old(self)@.entries[i] == s.entries[i]);
                    assert(old(self)@.entries[j] == s.entries[j]);
                }
            }
            assert forall|i: int| 0 <= i < s.entries.len() implies entry_wf(#[trigger] s.entries[i], s.stakeholder) by {
                if i < s.entries.len() - 1 {
                    assert(old(self)@.entries[i] == s.entries[i]);
                }
            }
        }
        Ok(())
    }
}


/// Every signer of `signers` holds an entry in the signature list.
pub open spec fn covers(sigs: Seq<(Seq<u8>, Seq<u8>)>, signers: Seq<Seq<u8>>) -> bool {
    forall|j: int| 0 <= j < signers.len() ==> has_key(sigs, #[trigger] signers[j])
}

/// The status a vault reaches once signatures from the coordinator are
/// stored: a vault whose revocations are all fully signed is secured, one
/// whose Unvault is fully signed is active.
pub open spec fn promoted(status: VaultStatus, set: SetView, signers: Seq<Seq<u8>>) -> VaultStatus {
    if status == VaultStatus::Securing && revocations_fully_signed(set, signers) {
        VaultStatus::Secured
    } else if status == VaultStatus::Activating && fully_signed(set.unvault, signers) {
        VaultStatus::Active
    } else {
        status
    }
}

proof fn lemma_update_wf(old: StoreView, new: StoreView, i: int)
    requires
        store_wf(old),
        0 <= i < old.entries.len(),
        new.stakeholder == old.stakeholder,
        new.entries == old.entries.update(i, new.entries[i]),
        new.entries[i].vault.outpoint == old.entries[i].vault.outpoint,
        entry_wf(new.entries[i], new.stakeholder),
    ensures
        store_wf(new),
{
    assert forall|a: int, b: int|
        0 <= a < new.entries.len() && 0 <= b < new.entries.len() && (#[trigger] new.entries[a]).vault.outpoint
            == (#[trigger] new.entries[b]).vault.outpoint implies a == b by {
        assert(new.entries[a].vault.outpoint == old.entries[a].vault.outpoint);
        assert(new.entries[b].vault.outpoint == old.entries[b].vault.outpoint);
    }
    assert forall|a: int| 0 <= a < new.entries.len() implies entry_wf(#[trigger] new.entries[a], new.stakeholder) by {
        if a != i {
            assert(new.entries[a] == old.entries[a]);
        }
    }
}

/// The transaction of `role` in a set.
fn row_ref(set: &PresignedSet, role: TxRole) -> (r: Option<&PresignedTx>)
    ensures
        r matches Some(t) ==> row(set@, role) == Some(t@),
        r is None ==> row(set@, role) is None,
{
    match role {
        TxRole::Unvault => Some(&set.unvault),
        TxRole::Cancel => Some(&set.cancel),
        TxRole::Emergency => match &set.emergency {
            Some(t) => Some(t),
            None => None,
        },
        TxRole::UnvaultEmergency => match &set.unvault_emergency {
            Some(t) => Some(t),
            None => None,
        },
    }
}

/// Whether every key of `signers` has an entry in `sigs`.
fn covers_all(sigs: &Vec<PartialSig>, signers: &Vec<Vec<u8>>) -> (r: bool)
    ensures
        r == covers(sigs_view(sigs@), keys_view(signers@)),
{
    let ghost kv = keys_view(signers@);
    let mut j: usize = 0;
    while j < signers.len()
        invariant
            0 <= j <= signers@.len(),
            kv == keys_view(signers@),
            forall|k: int| 0 <= k < j ==> has_key(sigs_view(sigs@), #[trigger] kv[k]),
        decreases signers@.len() - j,
    {
        assert(kv[j as int] == signers@[j as int]@);
        match find_key(sigs, &signers[j]) {
            Some(k) => {
                assert(sigs_view(sigs@)[k as int] == sigs@[k as int]@);
            },
            None => {
                return false;
            },
        }
        j = j + 1;
    }
    true
}

impl VaultStore {
    /// Marks an unconfirmed vault as funded and stores its presigned
    /// transactions, without any signature.
    pub fn confirm_vault(
        &mut self,
        op: &OutPoint,
        unvault: PresignedTx,
        cancel: PresignedTx,
        emergency: Option<PresignedTx>,
        unvault_emergency: Option<PresignedTx>,
    ) -> (r: Result<(), StoreError>)
        requires
            old(self).wf(),
        ensures
            final(self).wf(),
            !has_vault(old(self)@, op@) ==> r == Err::<(), StoreError>(StoreError::UnknownOutpoint),
            has_vault(old(self)@, op@) && entry_of(old(self)@, op@).vault.status != VaultStatus::Unconfirmed
                ==> r == Err::<(), StoreError>(StoreError::InvalidStatus),
            has_vault(old(self)@, op@) && entry_of(old(self)@, op@).vault.status == VaultStatus::Unconfirmed
                && (emergency is Some != old(self)@.stakeholder || unvault_emergency is Some
                != old(self)@.stakeholder) ==> r == Err::<(), StoreError>(StoreError::RoleMismatch),
            has_vault(old(self)@, op@) && entry_of(old(self)@, op@).vault.status == VaultStatus::Unconfirmed
                && (emergency is Some == old(self)@.stakeholder) && (unvault_emergency is Some
                == old(self)@.stakeholder) ==> r is Ok,
            r is Err ==> final(self)@ == old(self)@,
            funded_kept(old(self)@, final(self)@),
            r is Ok ==> final(self)@ == (StoreView {
                entries: old(self)@.entries.update(
                    vault_index(old(self)@, op@),
                    EntryView {
                        vault: VaultView { status: VaultStatus::Funded, ..entry_of(old(self)@, op@).vault },
                        txs: Some(
                            SetView {
                                unvault: unsigned(unvault@),
                                cancel: unsigned(cancel@),
                                emergency: opt_with_sigs(opt_tx_view(emergency), Seq::empty()),
                                unvault_emergency: opt_with_sigs(opt_tx_view(unvault_emergency), Seq::empty()),
                            },
                        ),
                        ..entry_of(old(self)@, op@)
                    },
                ),
                ..old(self)@
            }),
    {
        let i = match self.find(op) {
            Some(i) => i,
            None => {
                return Err(StoreError::UnknownOutpoint);
            },
        };
        assert(self@.entries[i as int] == self.entries@[i as int]@);
        if self.entries[i].vault.status != VaultStatus::Unconfirmed {
            return Err(StoreError::InvalidStatus);
        }
        if emergency.is_some() != self.stakeholder || unvault_emergency.is_some() != self.stakeholder {
            return Err(StoreError::RoleMismatch);
        }
        let set = PresignedSet {
            unvault: strip(unvault),
            cancel: strip(cancel),
            emergency: strip_opt(emergency),
            unvault_emergency: strip_opt(unvault_emergency),
        };
        let ghost old_entries = self.entries@;
        let old_e = self.entries.remove(i);
        let Entry { vault, signers, txs: _ } = old_e;
        let vault = Vault { status: VaultStatus::Funded, ..vault };
        let ne = Entry { vault, signers, txs: Some(set) };
        self.entries.insert(i, ne);
        proof {
            assert(self.entries@ =~= old_entries.update(i as int, ne));
            assert(entries_view(self.entries@) =~= entries_view(old_entries).update(i as int, ne@));
            let st = set@;
            assert(st.unvault.sigs =~= Seq::<(Seq<u8>, Seq<u8>)>::empty());
            assert forall|role: TxRole| (#[trigger] row(st, role)) is Some implies row_wf(
                row(st, role)->Some_0,
                role,
                ne@.signers,
            ) by {
                assert(row(st, role)->Some_0.sigs.len() == 0);
            }
            lemma_update_wf(old(self)@, self@, i as int);
        }
        Ok(())
    }

    /// Replaces the signatures of the transaction of `role` of the vault at
    /// position `i`.
    fn write_row(&mut self, i: usize, role: TxRole, sigs: Vec<PartialSig>)
        requires
            old(self).wf(),
            i < old(self)@.entries.len(),
            old(self)@.entries[i as int].txs is Some,
            row(old(self)@.entries[i as int].txs->Some_0, role) is Some,
            row_wf(
                tx_with_sigs(row(old(self)@.entries[i as int].txs->Some_0, role)->Some_0, sigs_view(sigs@)),
                role,
                old(self)@.entries[i as int].signers,
            ),
        ensures
            final(self).wf(),
            final(self)@ == (StoreView {
                entries: old(self)@.entries.update(
                    i as int,
                    entry_with_set(
                        old(self)@.entries[i as int],
                        set_with_sigs(old(self)@.entries[i as int].txs->Some_0, role, sigs_view(sigs@)),
                    ),
                ),
                ..old(self)@
            }),
    {
        let ghost old_entries = self.entries@;
        let ghost sv = sigs_view(sigs@);
        assert(old(self)@.entries[i as int] == old_entries[i as int]@);
        let old_e = self.entries.remove(i);
        let Entry { vault, signers, txs } = old_e;
        let mut set = match txs {
            Some(set) => set,
            None => {
                proof {
                    assert(false);
                }
                PresignedSet {
                    unvault: empty_tx(),
                    cancel: empty_tx(),
                    emergency: None,
                    unvault_emergency: None,
                }
            },
        };
        let ghost oset = set@;
        match role {
            TxRole::Unvault => {
                set.unvault.partial_sigs = sigs;
            },
            TxRole::Cancel => {
                set.cancel.partial_sigs = sigs;
            },
            TxRole::Emergency => {
                set.emergency = match set.emergency {
                    Some(t) => Some(PresignedTx { partial_sigs: sigs, ..t }),
                    None => None,
                };
            },
            TxRole::UnvaultEmergency => {
                set.unvault_emergency = match set.unvault_emergency {
                    Some(t) => Some(PresignedTx { partial_sigs: sigs, ..t }),
                    None => None,
                };
            },
        }
        let ne = Entry { vault, signers, txs: Some(set) };
        proof {
            assert(set@ == set_with_sigs(oset, role, sv));
        }
        self.entries.insert(i, ne);
        proof {
            assert(self.entries@ =~= old_entries.update(i as int, ne));
            assert(entries_view(self.entries@) =~= entries_view(old_entries).update(i as int, ne@));
            let st = set@;
            assert forall|r2: TxRole| (#[trigger] row(st, r2)) is Some implies row_wf(
                row(st, r2)->Some_0,
                r2,
                ne@.signers,
            ) by {
                if r2 != role {
                    assert(row(st, r2) == row(oset, r2));
                }
            }
            lemma_update_wf(old(self)@, self@, i as int);
        }
    }

    /// Sets the status of the (confirmed) vault at position `i`.
    fn set_status(&mut self, i: usize, status: VaultStatus)
        requires
            old(self).wf(),
            i < old(self)@.entries.len(),
            old(self)@.entries[i as int].txs is Some,
            status != VaultStatus::Unconfirmed,
        ensures
            final(self).wf(),
            final(self)@ == (StoreView {
                entries: old(self)@.entries.update(i as int, entry_with_status(old(self)@.entries[i as int], status)),
                ..old(self)@
            }),
    {
        let ghost old_entries = self.entries@;
        assert(old(self)@.entries[i as int] == old_entries[i as int]@);
        let old_e = self.entries.remove(i);
        let Entry { vault, signers, txs } = old_e;
        let ne = Entry { vault: Vault { status, ..vault }, signers, txs };
        self.entries.insert(i, ne);
        proof {
            assert(self.entries@ =~= old_entries.update(i as int, ne));
            assert(entries_view(self.entries@) =~= entries_view(old_entries).update(i as int, ne@));
            lemma_update_wf(old(self)@, self@, i as int);
        }
    }

    /// The signatures of the transaction of `role` of the vault at position
    /// `i` once `sigs` are merged in; fails on a signature from a key that is
    /// not a signer, or on a key that would hold two different signatures.
    fn prepare(&self, i: usize, role: TxRole, sigs: &Vec<PartialSig>) -> (r: Result<Vec<PartialSig>, StoreError>)
        requires
            self.wf(),
            i < self@.entries.len(),
            self@.entries[i as int].txs is Some,
            row(self@.entries[i as int].txs->Some_0, role) is Some,
        ensures
            ({
                let tx = row(self@.entries[i as int].txs->Some_0, role)->Some_0;
                let signers = self@.entries[i as int].signers;
                &&& r is Ok <==> mergeable(tx, sigs_view(sigs@), signers)
                &&& r matches Ok(m) ==> merged(tx, tx_with_sigs(tx, sigs_view(m@)), sigs_view(sigs@))
                &&& r matches Err(e) ==> (e == StoreError::UnknownSigner && !(forall|k: int|
                    0 <= k < sigs@.len() ==> is_signer(signers, (#[trigger] sigs_view(sigs@)[k]).0))) || (e
                    == StoreError::ConflictingSignature && !consistent(tx.sigs + sigs_view(sigs@)))
            }),
    {
        assert(self@.entries[i as int] == self.entries@[i as int]@);
        let e = &self.entries[i];
        let set = match &e.txs {
            Some(set) => set,
            None => {
                proof {
                    assert(false);
                }
                return Err(StoreError::MissingTransaction);
            },
        };
        let tx = match row_ref(set, role) {
            Some(tx) => tx,
            None => {
                return Err(StoreError::MissingTransaction);
            },
        };
        assert(set@.unvault == row(set@, TxRole::Unvault)->Some_0);
        assert(row_wf(tx@, role, e@.signers));
        if !all_from_signers(sigs, &e.signers) {
            return Err(StoreError::UnknownSigner);
        }
        match merge_sigs(&tx.partial_sigs, sigs) {
            Some(m) => Ok(m),
            None => Err(StoreError::ConflictingSignature),
        }
    }
}

/// `t` without its signatures.
fn strip(t: PresignedTx) -> (r: PresignedTx)
    ensures
        r@ == unsigned(t@),
{
    let r = PresignedTx { partial_sigs: Vec::new(), ..t };
    assert(r@.sigs =~= Seq::<(Seq<u8>, Seq<u8>)>::empty());
    r
}

fn strip_opt(t: Option<PresignedTx>) -> (r: Option<PresignedTx>)
    ensures
        opt_tx_view(r) == opt_with_sigs(opt_tx_view(t), Seq::empty()),
{
    match t {
        Some(t) => Some(strip(t)),
        None => None,
    }
}

fn empty_tx() -> PresignedTx {
    PresignedTx { txid: Vec::new(), wtxid: Vec::new(), sighash: Vec::new(), partial_sigs: Vec::new() }
}


/// The vault at position `i` keeps everything but its status and the
/// signatures of its presigned transactions; the other vaults are untouched.
pub open spec fn only_entry_changed(old: StoreView, new: StoreView, i: int) -> bool {
    &&& new.stakeholder == old.stakeholder
    &&& new.entries.len() == old.entries.len()
    &&& forall|j: int| 0 <= j < old.entries.len() && j != i ==> new.entries[j] == old.entries[j]
    &&& new.entries[i].signers == old.entries[i].signers
    &&& new.entries[i].vault == VaultView { status: new.entries[i].vault.status, ..old.entries[i].vault }
    &&& new.entries[i].txs is Some
}

/// The transaction of `role` of the vault at position `i` received `sub`.
pub open spec fn row_merged_at(
    old: StoreView,
    new: StoreView,
    i: int,
    role: TxRole,
    sub: Seq<(Seq<u8>, Seq<u8>)>,
) -> bool {
    &&& row(new.entries[i].txs->Some_0, role) is Some
    &&& merged(row(old.entries[i].txs->Some_0, role)->Some_0, row(new.entries[i].txs->Some_0, role)->Some_0, sub)
}

/// The transaction of `role` of the vault at position `i` is unchanged.
pub open spec fn row_kept_at(old: StoreView, new: StoreView, i: int, role: TxRole) -> bool {
    row(new.entries[i].txs->Some_0, role) == row(old.entries[i].txs->Some_0, role)
}

impl VaultStore {
    /// Merges `sigs` (already checked) into the transaction of `role` of the
    /// vault at position `i`.
    fn merge_row(&mut self, i: usize, role: TxRole, sigs: &Vec<PartialSig>) -> (r: Result<(), StoreError>)
        requires
            old(self).wf(),
            i < old(self)@.entries.len(),
            old(self)@.entries[i as int].txs is Some,
            row(old(self)@.entries[i as int].txs->Some_0, role) is Some,
            all_sigs_valid(
                row(old(self)@.entries[i as int].txs->Some_0, role)->Some_0.sighash,
                sigs_view(sigs@),
                role_flag(role),
            ),
        ensures
            final(self).wf(),
            r is Ok <==> mergeable(
                row(old(self)@.entries[i as int].txs->Some_0, role)->Some_0,
                sigs_view(sigs@),
                old(self)@.entries[i as int].signers,
            ),
            r is Err ==> final(self)@ == old(self)@,
            r matches Err(e) ==> e == StoreError::UnknownSigner || e == StoreError::ConflictingSignature,
            r is Ok ==> final(self)@ == (StoreView {
                entries: old(self)@.entries.update(
                    i as int,
                    entry_with_set(
                        old(self)@.entries[i as int],
                        set_with_sigs(
                            old(self)@.entries[i as int].txs->Some_0,
                            role,
                            final(self)@.entries[i as int].txs->Some_0.sigs_of(role),
                        ),
                    ),
                ),
                ..old(self)@
            }),
            r is Ok ==> row_merged_at(old(self)@, final(self)@, i as int, role, sigs_view(sigs@)),
    {
        let m = match self.prepare(i, role, sigs) {
            Ok(m) => m,
            Err(e) => {
                return Err(e);
            },
        };
        proof {
            let oe = self@.entries[i as int];
            let tx = row(oe.txs->Some_0, role)->Some_0;
            assert(oe.txs->Some_0.unvault == row(oe.txs->Some_0, TxRole::Unvault)->Some_0);
            lemma_merged_row_wf(tx, tx_with_sigs(tx, sigs_view(m@)), sigs_view(sigs@), role, oe.signers);
        }
        let ghost mv = sigs_view(m@);
        self.write_row(i, role, m);
        proof {
            let ns = self@.entries[i as int].txs->Some_0;
            assert(ns.sigs_of(role) == mv);
        }
        Ok(())
    }

    /// Whether the three revocation transactions of the vault at position `i`
    /// are fully signed.
    fn revocations_complete(&self, i: usize) -> (r: bool)
        requires
            i < self@.entries.len(),
            self@.entries[i as int].txs is Some,
        ensures
            r == revocations_fully_signed(self@.entries[i as int].txs->Some_0, self@.entries[i as int].signers),
    {
        assert(self@.entries[i as int] == self.entries@[i as int]@);
        let e = &self.entries[i];
        match &e.txs {
            Some(set) => {
                if !covers_all(&set.cancel.partial_sigs, &e.signers) {
                    return false;
                }
                match &set.emergency {
                    Some(t) => {
                        if !covers_all(&t.partial_sigs, &e.signers) {
                            return false;
                        }
                    },
                    None => {},
                }
                match &set.unvault_emergency {
                    Some(t) => {
                        if !covers_all(&t.partial_sigs, &e.signers) {
                            return false;
                        }
                    },
                    None => {},
                }
                true
            },
            None => false,
        }
    }

    /// Whether the Unvault transaction of the vault at position `i` is fully signed.
    fn unvault_complete(&self, i: usize) -> (r: bool)
        requires
            i < self@.entries.len(),
            self@.entries[i as int].txs is Some,
        ensures
            r == fully_signed(self@.entries[i as int].txs->Some_0.unvault, self@.entries[i as int].signers),
    {
        assert(self@.entries[i as int] == self.entries@[i as int]@);
        let e = &self.entries[i];
        match &e.txs {
            Some(set) => covers_all(&set.unvault.partial_sigs, &e.signers),
            None => false,
        }
    }
}

impl SetView {
    /// The signatures of the transaction of `role` (empty when it is not held).
    pub open spec fn sigs_of(self, role: TxRole) -> Seq<(Seq<u8>, Seq<u8>)> {
        match row(self, role) {
            Some(t) => t.sigs,
            None => Seq::empty(),
        }
    }
}


/// The signers of the vault at `op`.
pub open spec fn signers_at(s: StoreView, op: (Seq<u8>, u32)) -> Seq<Seq<u8>> {
    entry_of(s, op).signers
}

/// The presigned transactions of the vault at position `i`.
pub open spec fn set_at(s: StoreView, i: int) -> SetView {
    s.entries[i].txs->Some_0
}

/// The revocation signatures `c`, `e` and `u` were merged into the vault at
/// `op`, which is now `Secured` if its three revocations are fully signed and
/// `Securing` otherwise; nothing else changed.
pub open spec fn revocations_stored(
    old: StoreView,
    new: StoreView,
    op: (Seq<u8>, u32),
    c: Seq<(Seq<u8>, Seq<u8>)>,
    e: Seq<(Seq<u8>, Seq<u8>)>,
    u: Seq<(Seq<u8>, Seq<u8>)>,
) -> bool {
    let i = vault_index(old, op);
    &&& only_entry_changed(old, new, i)
    &&& row_kept_at(old, new, i, TxRole::Unvault)
    &&& row_merged_at(old, new, i, TxRole::Cancel, c)
    &&& row_merged_at(old, new, i, TxRole::Emergency, e)
    &&& row_merged_at(old, new, i, TxRole::UnvaultEmergency, u)
    &&& new.entries[i].vault.status == if revocations_fully_signed(set_at(new, i), old.entries[i].signers) {
        VaultStatus::Secured
    } else {
        VaultStatus::Securing
    }
}

/// The Unvault signatures `sigs` were merged into the vault at `op`, which is
/// now `Active` if its Unvault is fully signed and `Activating` otherwise;
/// nothing else changed.
pub open spec fn unvault_stored(
    old: StoreView,
    new: StoreView,
    op: (Seq<u8>, u32),
    sigs: Seq<(Seq<u8>, Seq<u8>)>,
) -> bool {
    let i = vault_index(old, op);
    &&& only_entry_changed(old, new, i)
    &&& row_merged_at(old, new, i, TxRole::Unvault, sigs)
    &&& forall|r2: TxRole| r2 != TxRole::Unvault ==> #[trigger] row_kept_at(old, new, i, r2)
    &&& new.entries[i].vault.status == if fully_signed(set_at(new, i).unvault, old.entries[i].signers) {
        VaultStatus::Active
    } else {
        VaultStatus::Activating
    }
}

/// No vault that was funded has changed status (and none has gone).
pub open spec fn funded_kept(old: StoreView, new: StoreView) -> bool {
    &&& new.entries.len() >= old.entries.len()
    &&& forall|j: int|
        0 <= j < old.entries.len() && (#[trigger] old.entries[j]).vault.status == VaultStatus::Funded
            ==> new.entries[j].vault.status == VaultStatus::Funded
}

/// The signatures `sub` were merged into the transaction of `role` of the
/// vault at `op`, whose status is then `promoted`; nothing else changed.
pub open spec fn signatures_added(
    old: StoreView,
    new: StoreView,
    op: (Seq<u8>, u32),
    role: TxRole,
    sub: Seq<(Seq<u8>, Seq<u8>)>,
) -> bool {
    let i = vault_index(old, op);
    &&& only_entry_changed(old, new, i)
    &&& row(set_at(old, i), role) is Some
    &&& row_merged_at(old, new, i, role, sub)
    &&& forall|r2: TxRole| r2 != role ==> #[trigger] row_kept_at(old, new, i, r2)
    &&& new.entries[i].vault.status == promoted(old.entries[i].vault.status, set_at(new, i), old.entries[i].signers)
}

/// Whether `pk` holds an entry in a signature list.
pub fn holds_key(sigs: &Vec<PartialSig>, pk: &Vec<u8>) -> (r: bool)
    ensures
        r == has_key(sigs_view(sigs@), pk@),
{
    match find_key(sigs, pk) {
        Some(k) => {
            assert(sigs_view(sigs@)[k as int] == sigs@[k as int]@);
            true
        },
        None => false,
    }
}

impl VaultStore {
    /// Stores signatures fetched from the coordinator for the transaction of
    /// `role` of the vault at `op`. They are checked first: nothing is written
    /// unless every one verifies, comes from one of the vault's signers and
    /// agrees with what is stored. A vault being secured becomes `Secured` once
    /// its three revocations are fully signed, one being activated becomes
    /// `Active` once its Unvault is.
    pub fn add_signatures(&mut self, op: &OutPoint, role: TxRole, sigs: &Vec<PartialSig>) -> (r: Result<(), StoreError>)
        requires
            old(self).wf(),
        ensures
            final(self).wf(),
            !has_vault(old(self)@, op@) ==> r == Err::<(), StoreError>(StoreError::UnknownOutpoint),
            has_vault(old(self)@, op@) && stored_row(old(self)@, op@, role) is None ==> r == Err::<
                (),
                StoreError,
            >(StoreError::MissingTransaction),
            stored_row(old(self)@, op@, role) matches Some(t) ==> {
                &&& !all_sigs_valid(t.sighash, sigs_view(sigs@), role_flag(role)) ==> r == Err::<
                    (),
                    StoreError,
                >(StoreError::InvalidSignature)
                &&& all_sigs_valid(t.sighash, sigs_view(sigs@), role_flag(role)) ==> (r is Ok <==> mergeable(
                    t,
                    sigs_view(sigs@),
                    signers_at(old(self)@, op@),
                ))
            },
            r is Err ==> final(self)@ == old(self)@,
            funded_kept(old(self)@, final(self)@),
            r is Ok ==> signatures_added(old(self)@, final(self)@, op@, role, sigs_view(sigs@)),
    {
        let i = match self.find(op) {
            Some(i) => i,
            None => {
                return Err(StoreError::UnknownOutpoint);
            },
        };
        assert(self@.entries[i as int] == self.entries@[i as int]@);
        let valid = match &self.entries[i].txs {
            Some(set) => match row_ref(set, role) {
                Some(tx) => check_role_signatures(role, tx, sigs).is_ok(),
                None => {
                    return Err(StoreError::MissingTransaction);
                },
            },
            None => {
                return Err(StoreError::MissingTransaction);
            },
        };
        if !valid {
            return Err(StoreError::InvalidSignature);
        }
        let status = self.entries[i].vault.status;
        match self.merge_row(i, role, sigs) {
            Ok(()) => {},
            Err(e) => {
                return Err(e);
            },
        }
        let ghost mid = self@;
        proof {
            assert forall|r2: TxRole| r2 != role implies #[trigger] row_kept_at(old(self)@, mid, i as int, r2) by {
                assert(row(set_at(mid, i as int), r2) == row(set_at(old(self)@, i as int), r2));
            }
        }
        if status == VaultStatus::Securing && self.revocations_complete(i) {
            self.set_status(i, VaultStatus::Secured);
        } else if status == VaultStatus::Activating && self.unvault_complete(i) {
            self.set_status(i, VaultStatus::Active);
        }
        proof {
            assert(set_at(self@, i as int) == set_at(mid, i as int));
        }
        Ok(())
    }

    /// Stores our signatures (already checked) on the three revocation
    /// transactions of a funded vault, all or none, and moves the vault to
    /// `Securing`, or to `Secured` when the three are then fully signed.
    pub(crate) fn merge_revocation_signatures(
        &mut self,
        op: &OutPoint,
        cancel: &Vec<PartialSig>,
        emer: &Vec<PartialSig>,
        unvault_emer: &Vec<PartialSig>,
    ) -> (r: Result<(), StoreError>)
        requires
            old(self).wf(),
            old(self)@.stakeholder,
            has_vault(old(self)@, op@),
            entry_of(old(self)@, op@).vault.status == VaultStatus::Funded,
            all_sigs_valid(
                stored_row(old(self)@, op@, TxRole::Cancel)->Some_0.sighash,
                sigs_view(cancel@),
                role_flag(TxRole::Cancel),
            ),
            all_sigs_valid(
                stored_row(old(self)@, op@, TxRole::Emergency)->Some_0.sighash,
                sigs_view(emer@),
                role_flag(TxRole::Emergency),
            ),
            all_sigs_valid(
                stored_row(old(self)@, op@, TxRole::UnvaultEmergency)->Some_0.sighash,
                sigs_view(unvault_emer@),
                role_flag(TxRole::UnvaultEmergency),
            ),
        ensures
            final(self).wf(),
            r is Ok <==> {
                &&& mergeable(stored_row(old(self)@, op@, TxRole::Cancel)->Some_0, sigs_view(cancel@), signers_at(old(self)@, op@))
                &&& mergeable(stored_row(old(self)@, op@, TxRole::Emergency)->Some_0, sigs_view(emer@), signers_at(old(self)@, op@))
                &&& mergeable(
                    stored_row(old(self)@, op@, TxRole::UnvaultEmergency)->Some_0,
                    sigs_view(unvault_emer@),
                    signers_at(old(self)@, op@),
                )
            },
            r is Err ==> final(self)@ == old(self)@,
            r matches Err(e) ==> e == StoreError::UnknownSigner || e == StoreError::ConflictingSignature,
            r is Ok ==> revocations_stored(
                old(self)@,
                final(self)@,
                op@,
                sigs_view(cancel@),
                sigs_view(emer@),
                sigs_view(unvault_emer@),
            ),
    {
        let i = match self.find(op) {
            Some(i) => i,
            None => {
                return Err(StoreError::UnknownOutpoint);
            },
        };
        let ghost s0 = self@;
        let ghost set0 = set_at(s0, i as int);
        let ghost signers = s0.entries[i as int].signers;
        assert(set0.unvault == row(set0, TxRole::Unvault)->Some_0);
        let c = match self.prepare(i, TxRole::Cancel, cancel) {
            Ok(m) => m,
            Err(e) => {
                return Err(e);
            },
        };
        let e = match self.prepare(i, TxRole::Emergency, emer) {
            Ok(m) => m,
            Err(e) => {
                return Err(e);
            },
        };
        let u = match self.prepare(i, TxRole::UnvaultEmergency, unvault_emer) {
            Ok(m) => m,
            Err(e) => {
                return Err(e);
            },
        };
        proof {
            let tc = row(set0, TxRole::Cancel)->Some_0;
            let te = row(set0, TxRole::Emergency)->Some_0;
            let tu = row(set0, TxRole::UnvaultEmergency)->Some_0;
            lemma_merged_row_wf(tc, tx_with_sigs(tc, sigs_view(c@)), sigs_view(cancel@), TxRole::Cancel, signers);
            lemma_merged_row_wf(te, tx_with_sigs(te, sigs_view(e@)), sigs_view(emer@), TxRole::Emergency, signers);
            lemma_merged_row_wf(
                tu,
                tx_with_sigs(tu, sigs_view(u@)),
                sigs_view(unvault_emer@),
                TxRole::UnvaultEmergency,
                signers,
            );
        }
        self.write_row(i, TxRole::Cancel, c);
        self.write_row(i, TxRole::Emergency, e);
        self.write_row(i, TxRole::UnvaultEmergency, u);
        let ghost mid = self@;
        let status = if self.revocations_complete(i) {
            VaultStatus::Secured
        } else {
            VaultStatus::Securing
        };
        self.set_status(i, status);
        proof {
            assert(set_at(self@, i as int) == set_at(mid, i as int));
            assert(row_kept_at(s0, self@, i as int, TxRole::Unvault));
        }
        Ok(())
    }

    /// Stores our signatures (already checked) on the Unvault transaction of
    /// a secured vault and moves it to `Activating`, or to `Active` when the
    /// Unvault is then fully signed.
    pub(crate) fn merge_unvault_signatures(&mut self, op: &OutPoint, sigs: &Vec<PartialSig>) -> (r: Result<(), StoreError>)
        requires
            old(self).wf(),
            has_vault(old(self)@, op@),
            entry_of(old(self)@, op@).vault.status == VaultStatus::Secured,
            all_sigs_valid(
                stored_row(old(self)@, op@, TxRole::Unvault)->Some_0.sighash,
                sigs_view(sigs@),
                role_flag(TxRole::Unvault),
            ),
        ensures
            final(self).wf(),
            r is Ok <==> mergeable(
                stored_row(old(self)@, op@, TxRole::Unvault)->Some_0,
                sigs_view(sigs@),
                signers_at(old(self)@, op@),
            ),
            r is Err ==> final(self)@ == old(self)@,
            r matches Err(e) ==> e == StoreError::UnknownSigner || e == StoreError::ConflictingSignature,
            r is Ok ==> unvault_stored(old(self)@, final(self)@, op@, sigs_view(sigs@)),
    {
        let i = match self.find(op) {
            Some(i) => i,
            None => {
                return Err(StoreError::UnknownOutpoint);
            },
        };
        match self.merge_row(i, TxRole::Unvault, sigs) {
            Ok(()) => {},
            Err(e) => {
                return Err(e);
            },
        }
        let ghost mid = self@;
        proof {
            assert forall|r2: TxRole| r2 != TxRole::Unvault implies #[trigger] row_kept_at(old(self)@, mid, i as int, r2) by {
                assert(row(set_at(mid, i as int), r2) == row(set_at(old(self)@, i as int), r2));
            }
        }
        let status = if self.unvault_complete(i) {
            VaultStatus::Active
        } else {
            VaultStatus::Activating
        };
        self.set_status(i, status);
        proof {
            assert(set_at(self@, i as int) == set_at(mid, i as int));
        }
        Ok(())
    }
}

} // verus!
