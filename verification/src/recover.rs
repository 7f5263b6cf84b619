use vstd::prelude::*;

use crate::tx::{StakedStateAddress, TxWitness};
use vstd::slice::{slice_subrange, slice_to_vec};

verus! {

// ---------------------------------------------------------------------------
// Address recovery: the signer's 20-byte address is derived from the witness
// and the signed digest, through secp256k1 public-key recovery followed by a
// Keccak-256 hash of the recovered key.
// ---------------------------------------------------------------------------

/// The outcome of secp256k1 public-key recovery on a compact signature, a
/// recovery identifier and a 32-byte digest: the 65-byte uncompressed public
/// key, or nothing when the signature is unrecoverable.
pub uninterp spec fn recover_of(sig: Seq<u8>, recid: u8, msg: Seq<u8>) -> Option<Seq<u8>>;

/// Relies on secp256k1's ECDSA key recovery (`RecoverableSignature::from_compact`
/// and `recover_ecdsa`) and `PublicKey::serialize_uncompressed`: the outcome
/// depends on the arguments alone, and a recovered key serializes to exactly
/// 65 bytes.
#[verifier::external_body]
fn secp_recover(sig: &Vec<u8>, recid: u8, msg: &Vec<u8>) -> (r: Option<Vec<u8>>)
    requires
        sig@.len() == 64,
        recid <= 3,
        msg@.len() == 32,
    ensures
        (r matches Some(pk) ==> recover_of(sig@, recid, msg@) == Some(pk@) && pk@.len() == 65),
        (r is None ==> recover_of(sig@, recid, msg@) is None),
{
    let rid = secp256k1::ecdsa::RecoveryId::try_from(recid as i32).ok()?;
    let rsig = secp256k1::ecdsa::RecoverableSignature::from_compact(sig.as_slice(), rid).ok()?;
    let mut digest = [0u8; 32];
    digest.copy_from_slice(msg.as_slice());
    let pk = rsig.recover_ecdsa(secp256k1::Message::from_digest(digest)).ok()?;
    Some(pk.serialize_uncompressed().to_vec())
}

/// The Keccak-256 digest of a byte sequence.
pub uninterp spec fn keccak256_of(data: Seq<u8>) -> Seq<u8>;

/// Relies on sha3's `Keccak256::digest`: a fixed 256-bit digest of the input
/// bytes alone.
#[verifier::external_body]
fn keccak256(data: &Vec<u8>) -> (r: Vec<u8>)
    ensures
        r@ == keccak256_of(data@),
        r@.len() == 32,
{
    let out = <sha3::Keccak256 as sha3::Digest>::digest(data.as_slice());
    out.to_vec()
}

/// The address a witness resolves to for a given digest: the last 20 bytes of
/// the Keccak-256 hash of the recovered public key's 64-byte body, or nothing
/// when no key can be recovered.
pub open spec fn recovered_address(sig: Seq<u8>, recid: u8, msg: Seq<u8>) -> Option<Seq<u8>> {
    match recover_of(sig, recid, msg) {
        Option::Some(pk) => Option::Some(keccak256_of(pk.subrange(1, 65)).subrange(12, 32)),
        Option::None => Option::None,
    }
}

/// Recovers the staked-state address implied by a witness over the given
/// 32-byte transaction identifier.
pub fn recover_address(witness: &TxWitness, txid: &Vec<u8>) -> (r: Option<StakedStateAddress>)
    requires
        witness.deep_view().wf(),
        txid@.len() == 32,
    ensures
        (r matches Some(a) ==> Option::Some(a.bytes@) == recovered_address(
            witness.sig@,
            witness.recid,
            txid@,
        ) && a.wf()),
        (r is None ==> recovered_address(witness.sig@, witness.recid, txid@) is None),
{
    match secp_recover(&witness.sig, witness.recid, txid) {
        None => None,
        Some(pk) => {
            let body: Vec<u8> = slice_to_vec(slice_subrange(pk.as_slice(), 1, 65));
            let h: Vec<u8> = keccak256(&body);
            let addr: Vec<u8> = slice_to_vec(slice_subrange(h.as_slice(), 12, 32));
            Some(StakedStateAddress { bytes: addr })
        },
    }
}

} // verus!
