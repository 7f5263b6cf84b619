use base64::Engine;
use txauxdecoder::codec::{decode_tx, encode_tx};
use txauxdecoder::summary::{decoded_tx_from_tx_aux, DecodedTxType};
use txauxdecoder::tx::{
    CouncilNode, NodeJoinRequestTx, PlainTx, StakedStateAddress, TxAux, TxEnclaveAux, TxPayload,
    TxPublicAux, TxWitness, TxoPointer, UnbondTx, UnjailTx,
};
use txauxdecoder::{decode_base64, DecodeError};

fn b64(bytes: &[u8]) -> String {
    base64::engine::general_purpose::STANDARD.encode(bytes)
}

fn hex(bytes: &[u8]) -> String {
    let mut s = String::new();
    for b in bytes {
        s.push_str(&format!("{:02x}", b));
    }
    s
}

fn ptr(fill: u8, index: u16) -> TxoPointer {
    TxoPointer { id: vec![fill; 32], index }
}

fn dummy_witness() -> TxWitness {
    // Unrecoverable on purpose: r and s are far above the curve order.
    TxWitness { recid: 0, sig: vec![0xFF; 64] }
}

/// A witness over `txid` signed with a fixed secret key, and the address that
/// recovery must yield for it.
fn known_witness(txid: [u8; 32]) -> (TxWitness, String) {
    let sk = secp256k1::SecretKey::from_secret_bytes([0x11; 32]).unwrap();
    let msg = secp256k1::Message::from_digest(txid);
    let sig = secp256k1::ecdsa::RecoverableSignature::sign_ecdsa_recoverable(msg, &sk);
    let (recid, sig64) = sig.serialize_compact();
    let pk = secp256k1::PublicKey::from_secret_key(&sk);
    let uncompressed = pk.serialize_uncompressed();
    let digest = <sha3::Keccak256 as sha3::Digest>::digest(&uncompressed[1..65]);
    let address = hex(&digest[12..32]);
    (TxWitness { recid: recid.to_u8(), sig: sig64.to_vec() }, address)
}

fn transfer_tx() -> TxAux {
    TxAux::EnclaveTx(TxEnclaveAux::TransferTx {
        inputs: vec![ptr(0xAA, 1), ptr(0xBB, 2)],
        no_of_outputs: 3,
    })
}

fn deposit_tx() -> TxAux {
    TxAux::EnclaveTx(TxEnclaveAux::DepositStakeTx {
        tx: PlainTx { inputs: vec![ptr(0x01, 7), ptr(0x02, 9)] },
    })
}

fn withdraw_tx(witness: TxWitness, txid: [u8; 32]) -> TxAux {
    TxAux::EnclaveTx(TxEnclaveAux::WithdrawUnbondedStakeTx {
        no_of_outputs: 4,
        witness,
        payload: TxPayload { txid: txid.to_vec() },
    })
}

fn unbond_tx() -> TxAux {
    TxAux::PublicTx(TxPublicAux::UnbondStakeTx(
        UnbondTx { from_staked_account: StakedStateAddress { bytes: vec![0xCD; 20] } },
        dummy_witness(),
    ))
}

fn nodejoin_tx() -> TxAux {
    TxAux::PublicTx(TxPublicAux::NodeJoinTx(
        NodeJoinRequestTx {
            address: StakedStateAddress { bytes: vec![0xEF; 20] },
            node_meta: CouncilNode {
                name: vec![0x41, 0x42, 0x43],
                security_contact: Some(vec![0x44, 0x45]),
                consensus_pubkey: vec![0x66; 32],
            },
        },
        dummy_witness(),
    ))
}

fn unjail_tx() -> TxAux {
    TxAux::PublicTx(TxPublicAux::UnjailTx(
        UnjailTx { address: StakedStateAddress { bytes: vec![0x77; 20] } },
        dummy_witness(),
    ))
}

fn summarize_via_boundary(tx: &TxAux) -> serde_json::Value {
    let encoded = b64(&encode_tx(tx));
    let out = decode_base64(&encoded).unwrap();
    serde_json::from_str(&String::from_utf8(out).unwrap()).unwrap()
}

fn presence(v: &serde_json::Value) -> (bool, bool, bool, bool) {
    (
        !v["inputs"].is_null(),
        !v["output_count"].is_null(),
        !v["staked_state_address"].is_null(),
        !v["council_node_meta"].is_null(),
    )
}

#[test]
fn transfer_presence_pattern() {
    let v = summarize_via_boundary(&transfer_tx());
    assert_eq!(v["tx_type"], "Transfer");
    assert_eq!(presence(&v), (true, true, false, false));
}

#[test]
fn deposit_presence_pattern() {
    let v = summarize_via_boundary(&deposit_tx());
    assert_eq!(v["tx_type"], "Deposit");
    assert_eq!(presence(&v), (true, false, false, false));
}

#[test]
fn withdraw_presence_pattern() {
    let (w, _) = known_witness([0x22; 32]);
    let v = summarize_via_boundary(&withdraw_tx(w, [0x22; 32]));
    assert_eq!(v["tx_type"], "Withdraw");
    assert_eq!(presence(&v), (false, true, true, false));
}

#[test]
fn unbond_presence_pattern() {
    let v = summarize_via_boundary(&unbond_tx());
    assert_eq!(v["tx_type"], "Unbond");
    assert_eq!(presence(&v), (false, false, true, false));
}

#[test]
fn nodejoin_presence_pattern() {
    let v = summarize_via_boundary(&nodejoin_tx());
    assert_eq!(v["tx_type"], "NodeJoin");
    assert_eq!(presence(&v), (false, false, true, true));
}

#[test]
fn unjail_presence_pattern() {
    let v = summarize_via_boundary(&unjail_tx());
    assert_eq!(v["tx_type"], "Unjail");
    assert_eq!(presence(&v), (false, false, true, false));
}

#[test]
fn summarizing_twice_is_byte_identical() {
    let encoded = b64(&encode_tx(&transfer_tx()));
    let first = decode_base64(&encoded).unwrap();
    let second = decode_base64(&encoded).unwrap();
    assert_eq!(first, second);
}

#[test]
fn withdraw_recovers_known_address() {
    let txid = [0x22; 32];
    let (w, address) = known_witness(txid);
    let v = summarize_via_boundary(&withdraw_tx(w, txid));
    assert_eq!(v["staked_state_address"], format!("0x{}", address));
    assert_eq!(v["output_count"], 4);
}

#[test]
fn withdraw_unrecoverable_witness_fails() {
    let encoded = b64(&encode_tx(&withdraw_tx(dummy_witness(), [0x22; 32])));
    assert_eq!(decode_base64(&encoded), Err(DecodeError::RecoveryFailed));
}

#[test]
fn deposit_reaches_through_nesting() {
    let v = summarize_via_boundary(&deposit_tx());
    let inputs = v["inputs"].as_array().unwrap();
    assert_eq!(inputs.len(), 2);
    assert_eq!(inputs[0]["id"], "01".repeat(32));
    assert_eq!(inputs[0]["index"], 7);
    assert_eq!(inputs[1]["id"], "02".repeat(32));
    assert_eq!(inputs[1]["index"], 9);
}

#[test]
fn valid_base64_of_garbage_bytes_is_rejected() {
    let encoded = b64(&[9u8, 9, 9, 9, 9]);
    assert_eq!(decode_base64(&encoded), Err(DecodeError::BadTransaction));
}

#[test]
fn trailing_bytes_are_rejected() {
    let mut bytes = encode_tx(&unjail_tx());
    bytes.push(0);
    assert_eq!(decode_base64(&b64(&bytes)), Err(DecodeError::BadTransaction));
}

#[test]
fn truncated_payload_is_rejected() {
    let mut bytes = encode_tx(&transfer_tx());
    bytes.pop();
    assert_eq!(decode_base64(&b64(&bytes)), Err(DecodeError::BadTransaction));
}

#[test]
fn bad_base64_is_rejected() {
    assert_eq!(decode_base64("not *** base64"), Err(DecodeError::BadBase64));
}

#[test]
fn transfer_example_scenario() {
    let encoded = b64(&encode_tx(&transfer_tx()));
    let out = String::from_utf8(decode_base64(&encoded).unwrap()).unwrap();
    let expected = format!(
        "{{\"tx_type\":\"Transfer\",\"inputs\":[{{\"id\":\"{}\",\"index\":1}},{{\"id\":\"{}\",\"index\":2}}],\"output_count\":3,\"staked_state_address\":null,\"council_node_meta\":null}}",
        "aa".repeat(32),
        "bb".repeat(32),
    );
    assert_eq!(out, expected);
}

#[test]
fn encode_then_decode_roundtrip() {
    let bytes = encode_tx(&nodejoin_tx());
    let back = decode_tx(&bytes).unwrap();
    assert_eq!(encode_tx(&back), bytes);
}

#[test]
fn summarizer_is_exhaustive_over_six_kinds() {
    let kinds = [
        (transfer_tx(), DecodedTxType::Transfer),
        (deposit_tx(), DecodedTxType::Deposit),
        (unbond_tx(), DecodedTxType::Unbond),
        (nodejoin_tx(), DecodedTxType::NodeJoin),
        (unjail_tx(), DecodedTxType::Unjail),
    ];
    for (tx, expected) in kinds {
        let d = decoded_tx_from_tx_aux(tx).unwrap();
        assert_eq!(d.tx_type, expected);
    }
    let (w, _) = known_witness([0x22; 32]);
    let d = decoded_tx_from_tx_aux(withdraw_tx(w, [0x22; 32])).unwrap();
    assert_eq!(d.tx_type, DecodedTxType::Withdraw);
}

#[test]
fn transfer_with_no_inputs_has_empty_array() {
    let tx = TxAux::EnclaveTx(TxEnclaveAux::TransferTx { inputs: vec![], no_of_outputs: 0 });
    let out = String::from_utf8(decode_base64(&b64(&encode_tx(&tx))).unwrap()).unwrap();
    assert_eq!(
        out,
        "{\"tx_type\":\"Transfer\",\"inputs\":[],\"output_count\":0,\
         \"staked_state_address\":null,\"council_node_meta\":null}"
    );
}

#[test]
fn largest_output_count_renders_in_decimal() {
    let tx = TxAux::EnclaveTx(TxEnclaveAux::TransferTx { inputs: vec![], no_of_outputs: 65535 });
    let v = summarize_via_boundary(&tx);
    assert_eq!(v["output_count"], 65535);
}

#[test]
fn nodejoin_without_security_contact_renders_null_contact() {
    let tx = TxAux::PublicTx(TxPublicAux::NodeJoinTx(
        NodeJoinRequestTx {
            address: StakedStateAddress { bytes: vec![0xEF; 20] },
            node_meta: CouncilNode {
                name: vec![0x41],
                security_contact: None,
                consensus_pubkey: vec![0x66; 32],
            },
        },
        dummy_witness(),
    ));
    let v = summarize_via_boundary(&tx);
    assert!(v["council_node_meta"]["security_contact"].is_null());
    assert_eq!(v["council_node_meta"]["name"], "41");
    assert_eq!(v["council_node_meta"]["consensus_pubkey"], "66".repeat(32));
}
