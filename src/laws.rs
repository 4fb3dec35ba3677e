//! Properties that hold across the store's operations and the control
//! requests, proved from their contracts.

use crate::control::{
    all_listable, db_tx, pick, revocation_outcome, revocation_verdict, unvault_outcome, unvault_verdict,
    SigMessage, SubmitError,
};
use crate::sigcheck::{all_sigs_valid, ecdsa_verifies, sig_blob_valid};
use crate::store::{
    entry_of, has_vault, lemma_index, row, set_at, store_wf, stored_row, vault_index, SetView, StoreView,
};
use crate::types::{has_key, is_revocation, TxRole, TxView, VaultStatus, SIGHASH_ALL, SIGHASH_ALL_ANYONECANPAY};
use vstd::prelude::*;

verus! {

/// Every vault keeps its outpoint and its stored transactions keep their
/// txid, wtxid and sighash: signatures are all that can change in them.
pub open spec fn keeps_transactions(old: StoreView, new: StoreView) -> bool {
    &&& new.entries.len() == old.entries.len()
    &&& forall|i: int|
        0 <= i < old.entries.len() ==> (#[trigger] new.entries[i]).vault.outpoint == old.entries[i].vault.outpoint
    &&& forall|i: int, role: TxRole|
        0 <= i < old.entries.len() && old.entries[i].txs is Some ==> {
            &&& new.entries[i].txs is Some
            &&& (#[trigger] row(new.entries[i].txs->Some_0, role)) is Some == row(
                old.entries[i].txs->Some_0,
                role,
            ) is Some
            &&& row(old.entries[i].txs->Some_0, role) matches Some(t) ==> {
                let n = row(new.entries[i].txs->Some_0, role)->Some_0;
                n.txid == t.txid && n.wtxid == t.wtxid && n.sighash == t.sighash
            }
        }
}

/// A revocation submission never alters a stored transaction: it only adds
/// signatures to it.
pub proof fn lemma_revocation_keeps_transactions(
    old: StoreView,
    new: StoreView,
    pk: Option<Seq<u8>>,
    op: (Seq<u8>, u32),
    c: TxView,
    e: TxView,
    u: TxView,
    r: Result<Vec<SigMessage>, SubmitError>,
)
    requires
        store_wf(old),
        old.stakeholder,
        revocation_outcome(old, new, pk, op, c, e, u, r),
    ensures
        keeps_transactions(old, new),
{
    if revocation_verdict(old, pk, op, c, e, u) is Accepted {
        let i = vault_index(old, op);
        assert(crate::store::entry_wf(old.entries[i], old.stakeholder));
        assert forall|j: int, role: TxRole| 0 <= j < old.entries.len() && old.entries[j].txs is Some implies {
            &&& new.entries[j].txs is Some
            &&& (#[trigger] row(new.entries[j].txs->Some_0, role)) is Some == row(old.entries[j].txs->Some_0, role) is Some
            &&& row(old.entries[j].txs->Some_0, role) matches Some(t) ==> {
                let n = row(new.entries[j].txs->Some_0, role)->Some_0;
                n.txid == t.txid && n.wtxid == t.wtxid && n.sighash == t.sighash
            }
        } by {
            if j != i {
                assert(new.entries[j] == old.entries[j]);
            } else if role == TxRole::Unvault {
                assert(crate::store::row_kept_at(old, new, i, role));
            } else {
                assert(crate::store::row_merged_at(old, new, i, role, pick(role, c, e, u).sigs));
            }
        }
        assert forall|j: int| 0 <= j < old.entries.len() implies (#[trigger] new.entries[j]).vault.outpoint
            == old.entries[j].vault.outpoint by {
            if j != i {
                assert(new.entries[j] == old.entries[j]);
            }
        }
    }
}

/// An Unvault submission never alters a stored transaction: it only adds
/// signatures to it.
pub proof fn lemma_unvault_keeps_transactions(
    old: StoreView,
    new: StoreView,
    pk: Option<Seq<u8>>,
    op: (Seq<u8>, u32),
    t: TxView,
    r: Result<Vec<SigMessage>, SubmitError>,
)
    requires
        store_wf(old),
        unvault_outcome(old, new, pk, op, t, r),
    ensures
        keeps_transactions(old, new),
{
    if unvault_verdict(old, pk, op, t) is Accepted {
        let i = vault_index(old, op);
        assert forall|j: int, role: TxRole| 0 <= j < old.entries.len() && old.entries[j].txs is Some implies {
            &&& new.entries[j].txs is Some
            &&& (#[trigger] row(new.entries[j].txs->Some_0, role)) is Some == row(old.entries[j].txs->Some_0, role) is Some
            &&& row(old.entries[j].txs->Some_0, role) matches Some(t) ==> {
                let n = row(new.entries[j].txs->Some_0, role)->Some_0;
                n.txid == t.txid && n.wtxid == t.wtxid && n.sighash == t.sighash
            }
        } by {
            if j != i {
                assert(new.entries[j] == old.entries[j]);
            } else if role != TxRole::Unvault {
                assert(crate::store::row_kept_at(old, new, i, role));
            }
        }
        assert forall|j: int| 0 <= j < old.entries.len() implies (#[trigger] new.entries[j]).vault.outpoint
            == old.entries[j].vault.outpoint by {
            if j != i {
                assert(new.entries[j] == old.entries[j]);
            }
        }
    }
}

/// Signatures fetched from the coordinator never alter a stored
/// transaction: they are only added to it.
pub proof fn lemma_fetched_signatures_keep_transactions(
    old: StoreView,
    new: StoreView,
    op: (Seq<u8>, u32),
    role: TxRole,
    sub: Seq<(Seq<u8>, Seq<u8>)>,
)
    requires
        store_wf(old),
        has_vault(old, op),
        crate::store::signatures_added(old, new, op, role, sub),
    ensures
        keeps_transactions(old, new),
{
    let i = vault_index(old, op);
    assert forall|j: int, r2: TxRole| 0 <= j < old.entries.len() && old.entries[j].txs is Some implies {
        &&& new.entries[j].txs is Some
        &&& (#[trigger] row(new.entries[j].txs->Some_0, r2)) is Some == row(old.entries[j].txs->Some_0, r2) is Some
        &&& row(old.entries[j].txs->Some_0, r2) matches Some(t) ==> {
            let n = row(new.entries[j].txs->Some_0, r2)->Some_0;
            n.txid == t.txid && n.wtxid == t.wtxid && n.sighash == t.sighash
        }
    } by {
        if j != i {
            assert(new.entries[j] == old.entries[j]);
        } else if r2 != role {
            assert(crate::store::row_kept_at(old, new, i, r2));
        }
    }
    assert forall|j: int| 0 <= j < old.entries.len() implies (#[trigger] new.entries[j]).vault.outpoint
        == old.entries[j].vault.outpoint by {
        if j != i {
            assert(new.entries[j] == old.entries[j]);
        }
    }
}

/// Every signature stored on a revocation transaction (Cancel, Emergency,
/// Unvault-Emergency) carries the `ALL|ANYONECANPAY` flag and its DER part
/// verifies against that transaction's sighash under the signer's key.
pub proof fn lemma_stored_revocation_signature_valid(s: StoreView, op: (Seq<u8>, u32), role: TxRole, k: int)
    requires
        store_wf(s),
        is_revocation(role),
        stored_row(s, op, role) is Some,
        0 <= k < stored_row(s, op, role)->Some_0.sigs.len(),
    ensures
        ({
            let t = stored_row(s, op, role)->Some_0;
            &&& t.sigs[k].1.last() == SIGHASH_ALL_ANYONECANPAY
            &&& ecdsa_verifies(t.sighash, t.sigs[k].1.drop_last(), t.sigs[k].0)
        }),
{
    let i = vault_index(s, op);
    assert(crate::store::entry_wf(s.entries[i], s.stakeholder));
    let t = stored_row(s, op, role)->Some_0;
    assert(sig_blob_valid(t.sighash, t.sigs[k].0, t.sigs[k].1, crate::types::role_flag(role)));
}

/// Every signature stored on an Unvault transaction carries the `ALL` flag
/// and its DER part verifies against that transaction's sighash under the
/// signer's key.
pub proof fn lemma_stored_unvault_signature_valid(s: StoreView, op: (Seq<u8>, u32), k: int)
    requires
        store_wf(s),
        stored_row(s, op, TxRole::Unvault) is Some,
        0 <= k < stored_row(s, op, TxRole::Unvault)->Some_0.sigs.len(),
    ensures
        ({
            let t = stored_row(s, op, TxRole::Unvault)->Some_0;
            &&& t.sigs[k].1.last() == SIGHASH_ALL
            &&& ecdsa_verifies(t.sighash, t.sigs[k].1.drop_last(), t.sigs[k].0)
        }),
{
    let i = vault_index(s, op);
    assert(crate::store::entry_wf(s.entries[i], s.stakeholder));
    let t = stored_row(s, op, TxRole::Unvault)->Some_0;
    assert(sig_blob_valid(t.sighash, t.sigs[k].0, t.sigs[k].1, SIGHASH_ALL));
}

/// A revocation submission takes a funded vault to `Secured` only by being
/// accepted with our key and storing our signature on each of its three
/// revocation transactions; it leaves the status of every other vault as it
/// was.
pub proof fn lemma_secured_only_with_our_signatures(
    old: StoreView,
    new: StoreView,
    pk: Option<Seq<u8>>,
    op: (Seq<u8>, u32),
    c: TxView,
    e: TxView,
    u: TxView,
    r: Result<Vec<SigMessage>, SubmitError>,
    j: int,
)
    requires
        store_wf(old),
        revocation_outcome(old, new, pk, op, c, e, u, r),
        0 <= j < old.entries.len(),
        old.entries[j].vault.status == VaultStatus::Funded,
        new.entries[j].vault.status == VaultStatus::Secured,
    ensures
        revocation_verdict(old, pk, op, c, e, u) is Accepted,
        r is Ok,
        pk is Some,
        j == vault_index(old, op),
        has_key(set_at(new, j).cancel.sigs, pk->Some_0),
        has_key(set_at(new, j).emergency->Some_0.sigs, pk->Some_0),
        has_key(set_at(new, j).unvault_emergency->Some_0.sigs, pk->Some_0),
{
    let i = vault_index(old, op);
    if revocation_verdict(old, pk, op, c, e, u) is Accepted {
        if j != i {
            assert(new.entries[j] == old.entries[j]);
        }
        let k = pk->Some_0;
        lemma_merged_has_key(
            row(set_at(old, i), TxRole::Cancel)->Some_0,
            row(set_at(new, i), TxRole::Cancel)->Some_0,
            c.sigs,
            k,
        );
        lemma_merged_has_key(
            row(set_at(old, i), TxRole::Emergency)->Some_0,
            row(set_at(new, i), TxRole::Emergency)->Some_0,
            e.sigs,
            k,
        );
        lemma_merged_has_key(
            row(set_at(old, i), TxRole::UnvaultEmergency)->Some_0,
            row(set_at(new, i), TxRole::UnvaultEmergency)->Some_0,
            u.sigs,
            k,
        );
    }
}

proof fn lemma_merged_has_key(old_tx: TxView, new_tx: TxView, sub: Seq<(Seq<u8>, Seq<u8>)>, pk: Seq<u8>)
    requires
        crate::store::merged(old_tx, new_tx, sub),
        has_key(sub, pk),
    ensures
        has_key(new_tx.sigs, pk),
{
    let k = choose|k: int| 0 <= k < sub.len() && (#[trigger] sub[k]).0 == pk;
    let all = old_tx.sigs + sub;
    assert(all[old_tx.sigs.len() + k] == sub[k]);
    assert(all.contains(sub[k]));
    assert(new_tx.sigs.contains(sub[k]));
    let m = choose|m: int| 0 <= m < new_tx.sigs.len() && new_tx.sigs[m] == sub[k];
    assert(new_tx.sigs[m].0 == pk);
}

/// The stored revocation transaction of `role` of a confirmed vault is well
/// formed for that role.
proof fn lemma_db_row_wf(s: StoreView, op: (Seq<u8>, u32), role: TxRole)
    requires
        store_wf(s),
        s.stakeholder,
        has_vault(s, op),
        entry_of(s, op).vault.status != VaultStatus::Unconfirmed,
    ensures
        stored_row(s, op, role) is Some,
        crate::store::row_wf(db_tx(s, op, role), role, entry_of(s, op).signers),
{
    let i = vault_index(s, op);
    assert(crate::store::entry_wf(s.entries[i], s.stakeholder));
    let set = s.entries[i].txs->Some_0;
    assert(set.unvault == row(set, TxRole::Unvault)->Some_0);
    assert(row(set, role) is Some);
}

/// A revocation submission writes nothing as soon as one of the submitted
/// signatures does not verify against its stored transaction; it is refused.
pub proof fn lemma_revocation_all_or_nothing(
    old: StoreView,
    new: StoreView,
    pk: Option<Seq<u8>>,
    op: (Seq<u8>, u32),
    c: TxView,
    e: TxView,
    u: TxView,
    r: Result<Vec<SigMessage>, SubmitError>,
    role: TxRole,
)
    requires
        store_wf(old),
        old.stakeholder,
        revocation_outcome(old, new, pk, op, c, e, u, r),
        is_revocation(role),
        has_vault(old, op),
        !all_sigs_valid(db_tx(old, op, role).sighash, pick(role, c, e, u).sigs, SIGHASH_ALL_ANYONECANPAY),
    ensures
        r is Err,
        new == old,
{
    let v = revocation_verdict(old, pk, op, c, e, u);
    if crate::control::revocation_ids_verdict(old, op, c, e, u) is AlreadyRecorded {
        lemma_db_row_wf(old, op, role);
        let db = db_tx(old, op, role);
        let sub = pick(role, c, e, u);
        assert(crate::control::recorded_in(db, sub));
        assert forall|k: int| 0 <= k < sub.sigs.len() implies sig_blob_valid(
            db.sighash,
            (#[trigger] sub.sigs[k]).0,
            sub.sigs[k].1,
            SIGHASH_ALL_ANYONECANPAY,
        ) by {
            assert(sub.sigs.contains(sub.sigs[k]));
            let m = choose|m: int| 0 <= m < db.sigs.len() && db.sigs[m] == sub.sigs[k];
            assert(sig_blob_valid(db.sighash, db.sigs[m].0, db.sigs[m].1, crate::types::role_flag(role)));
        }
        assert(false);
    }
    assert(!(v is Accepted));
}

/// Once a revocation submission succeeds, listing the presigned transactions
/// of that vault succeeds and shows every submitted signature on its
/// transaction.
pub proof fn lemma_accepted_signatures_listed(
    old: StoreView,
    new: StoreView,
    pk: Option<Seq<u8>>,
    op: (Seq<u8>, u32),
    c: TxView,
    e: TxView,
    u: TxView,
    r: Result<Vec<SigMessage>, SubmitError>,
    listed: Seq<((Seq<u8>, u32), SetView)>,
)
    requires
        store_wf(old),
        store_wf(new),
        old.stakeholder,
        revocation_outcome(old, new, pk, op, c, e, u, r),
        r is Ok,
        listed == seq![op].map_values(|o: (Seq<u8>, u32)| (o, entry_of(new, o).txs->Some_0)),
    ensures
        all_listable(new, seq![op]),
        listed.len() == 1,
        listed[0].0 == op,
        forall|x: (Seq<u8>, Seq<u8>)| c.sigs.contains(x) ==> listed[0].1.cancel.sigs.contains(x),
        forall|x: (Seq<u8>, Seq<u8>)| e.sigs.contains(x) ==> listed[0].1.emergency->Some_0.sigs.contains(x),
        forall|x: (Seq<u8>, Seq<u8>)| u.sigs.contains(x) ==> listed[0].1.unvault_emergency->Some_0.sigs.contains(x),
{
    let i = vault_index(old, op);
    assert(seq![op][0] == op);
    if revocation_verdict(old, pk, op, c, e, u) is Accepted {
        lemma_index(new, op, i);
        assert forall|x: (Seq<u8>, Seq<u8>)| c.sigs.contains(x) implies listed[0].1.cancel.sigs.contains(x) by {
            let k = choose|k: int| 0 <= k < c.sigs.len() && c.sigs[k] == x;
            let all = row(set_at(old, i), TxRole::Cancel)->Some_0.sigs + c.sigs;
            assert(all[row(set_at(old, i), TxRole::Cancel)->Some_0.sigs.len() + k] == x);
        }
        assert forall|x: (Seq<u8>, Seq<u8>)| e.sigs.contains(x) implies listed[0].1.emergency->Some_0.sigs.contains(x) by {
            let k = choose|k: int| 0 <= k < e.sigs.len() && e.sigs[k] == x;
            let all = row(set_at(old, i), TxRole::Emergency)->Some_0.sigs + e.sigs;
            assert(all[row(set_at(old, i), TxRole::Emergency)->Some_0.sigs.len() + k] == x);
        }
        assert forall|x: (Seq<u8>, Seq<u8>)| u.sigs.contains(x) implies listed[0].1.unvault_emergency->Some_0.sigs.contains(
            x,
        ) by {
            let k = choose|k: int| 0 <= k < u.sigs.len() && u.sigs[k] == x;
            let all = row(set_at(old, i), TxRole::UnvaultEmergency)->Some_0.sigs + u.sigs;
            assert(all[row(set_at(old, i), TxRole::UnvaultEmergency)->Some_0.sigs.len() + k] == x);
        }
    } else {
        lemma_db_row_wf(old, op, TxRole::Emergency);
        lemma_db_row_wf(old, op, TxRole::UnvaultEmergency);
    }
}

/// Submitting the same revocation transactions a second time, once the first
/// submission succeeded, changes nothing and succeeds with no message: every
/// signature is recorded already.
pub proof fn lemma_revocation_idempotent(
    s0: StoreView,
    s1: StoreView,
    s2: StoreView,
    pk: Option<Seq<u8>>,
    op: (Seq<u8>, u32),
    c: TxView,
    e: TxView,
    u: TxView,
    r1: Result<Vec<SigMessage>, SubmitError>,
    r2: Result<Vec<SigMessage>, SubmitError>,
)
    requires
        store_wf(s0),
        store_wf(s1),
        s0.stakeholder,
        revocation_outcome(s0, s1, pk, op, c, e, u, r1),
        r1 is Ok,
        revocation_outcome(s1, s2, pk, op, c, e, u, r2),
    ensures
        s2 == s1,
        r2 matches Ok(m) && m@.len() == 0,
{
    let i = vault_index(s0, op);
    if revocation_verdict(s0, pk, op, c, e, u) is Accepted {
        lemma_index(s1, op, i);
        lemma_merged_recorded(row(set_at(s0, i), TxRole::Cancel)->Some_0, row(set_at(s1, i), TxRole::Cancel)->Some_0, c);
        lemma_merged_recorded(
            row(set_at(s0, i), TxRole::Emergency)->Some_0,
            row(set_at(s1, i), TxRole::Emergency)->Some_0,
            e,
        );
        lemma_merged_recorded(
            row(set_at(s0, i), TxRole::UnvaultEmergency)->Some_0,
            row(set_at(s1, i), TxRole::UnvaultEmergency)->Some_0,
            u,
        );
        assert(crate::control::revocations_recorded(s1, op, c, e, u));
    }
}

proof fn lemma_merged_recorded(old_tx: TxView, new_tx: TxView, sub: TxView)
    requires
        crate::store::merged(old_tx, new_tx, sub.sigs),
        old_tx.wtxid == sub.wtxid,
    ensures
        crate::control::recorded_in(new_tx, sub),
{
    assert forall|x: (Seq<u8>, Seq<u8>)| sub.sigs.contains(x) implies new_tx.sigs.contains(x) by {
        let k = choose|k: int| 0 <= k < sub.sigs.len() && sub.sigs[k] == x;
        let all = old_tx.sigs + sub.sigs;
        assert(all[old_tx.sigs.len() + k] == x);
    }
}

} // verus!
