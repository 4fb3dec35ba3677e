//! Our stakeholder public key at a vault's derivation index.

use revault_tx::bitcoin::secp256k1;
use revault_tx::bitcoin::util::bip32::{ChildNumber, ExtendedPubKey};
use vstd::prelude::*;

verus! {

/// The serialized public key of the normal child `index` of the BIP32
/// extended public key whose 78-byte encoding is `xpub`; `None` when the
/// encoding does not decode or the child cannot be derived.
pub uninterp spec fn child_pubkey(xpub: Seq<u8>, index: u32) -> Option<Seq<u8>>;

/// Relies on bitcoin's `ExtendedPubKey::derive_pub` for one normal child step,
/// with its input read by `ExtendedPubKey::decode` (which refuses anything but
/// 78 bytes) and `ChildNumber::from_normal_idx` (which refuses an index of
/// 2^31 or more), and its output written by `PublicKey::to_bytes`. The
/// derivation is a function of the key and the index alone. A child's depth
/// is its parent's plus one, held in a byte: a key whose depth byte (the
/// fifth) is 255 has no child that can be computed, so it is left out.
#[verifier::external_body]
pub(crate) fn derive_child_pubkey(xpub: &[u8], index: u32) -> (r: Option<Vec<u8>>)
    requires
        xpub@.len() == 78 ==> xpub@[4] < 255,
    ensures
        r is Some <==> child_pubkey(xpub@, index) is Some,
        r matches Some(pk) ==> child_pubkey(xpub@, index) == Some(pk@),
        xpub@.len() != 78 ==> r is None,
        index >= 0x8000_0000 ==> r is None,
{
    let xpub = ExtendedPubKey::decode(xpub).ok()?;
    let child = ChildNumber::from_normal_idx(index).ok()?;
    let derived = xpub.derive_pub(&secp256k1::Secp256k1::verification_only(), &[child]).ok()?;
    Some(derived.public_key.to_bytes())
}

/// Our key at `index`: none for an extended key at the largest depth, whose
/// children cannot be computed; otherwise the derived child.
pub open spec fn our_key(xpub: Seq<u8>, index: u32) -> Option<Seq<u8>> {
    if xpub.len() == 78 && xpub[4] == 255 {
        None
    } else {
        child_pubkey(xpub, index)
    }
}

/// Our key at `index`, derived from our extended public key `xpub`.
pub fn our_stakeholder_key(xpub: &Vec<u8>, index: u32) -> (r: Option<Vec<u8>>)
    ensures
        r is Some <==> our_key(xpub@, index) is Some,
        r matches Some(pk) ==> our_key(xpub@, index) == Some(pk@),
{
    if xpub.len() == 78 && xpub[4] == 255 {
        return None;
    }
    derive_child_pubkey(xpub.as_slice(), index)
}

} // verus!
