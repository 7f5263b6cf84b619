use vstd::prelude::*;

pub mod b64;
pub mod codec;
pub mod json;
pub mod recover;
pub mod summary;
pub mod tx;

use crate::b64::{base64_decode, base64_decode_of};
use crate::codec::{decode_spec, decode_tx, lemma_decode_sound};
use crate::json::{json_of, render_json};
use crate::summary::{decoded_tx_from_tx_aux, recovery_ok, summary_of};

verus! {

/// The failure kinds of a summarization request; every rejection is
/// permanent and deterministic for the given input.
#[derive(Clone, Copy, Debug, PartialEq, Eq, Structural)]
pub enum DecodeError {
    /// The input was not valid base64.
    BadBase64,
    /// The decoded bytes match none of the six transaction encodings.
    BadTransaction,
    /// The withdraw witness did not yield a recoverable address.
    RecoveryFailed,
}

/// Decodes one base64-encoded, binary-serialized transaction and returns the
/// bytes of its JSON summary.  Each failure kind is reported exactly when it
/// occurs: bad base64, bytes that encode no transaction, or a withdraw whose
/// witness yields no recoverable address.
pub fn decode_base64(encoded_tx: &str) -> (r: Result<Vec<u8>, DecodeError>)
    ensures
        match base64_decode_of(encoded_tx@) {
            Option::None => r == Err::<Vec<u8>, DecodeError>(DecodeError::BadBase64),
            Option::Some(bytes) => match decode_spec(bytes) {
                Option::None => r == Err::<Vec<u8>, DecodeError>(DecodeError::BadTransaction),
                Option::Some(tv) => if recovery_ok(tv) {
                    (r matches Ok(js) && js@ == json_of(summary_of(tv)))
                } else {
                    r == Err::<Vec<u8>, DecodeError>(DecodeError::RecoveryFailed)
                },
            },
        },
{
    let bytes = match base64_decode(encoded_tx) {
        Some(b) => b,
        None => {
            return Err(DecodeError::BadBase64);
        },
    };
    let tx_aux = match decode_tx(&bytes) {
        Some(t) => t,
        None => {
            return Err(DecodeError::BadTransaction);
        },
    };
    proof {
        lemma_decode_sound(bytes@);
    }
    let decoded = match decoded_tx_from_tx_aux(tx_aux) {
        Ok(d) => d,
        Err(e) => {
            return Err(e);
        },
    };
    Ok(render_json(&decoded))
}

} // verus!
