use vstd::prelude::*;

use crate::tx::{
    CouncilNode, CouncilNodeV, NodeJoinRequestTx, NodeJoinRequestTxV, PlainTx, PlainTxV, TxAux,
    TxAuxV, TxEnclaveAux, TxEnclaveAuxV, TxPublicAux, TxPublicAuxV, TxPayload, TxPayloadV,
    TxWitness, TxWitnessV, TxoPointer, TxoPointerV, UnbondTx, UnbondTxV, UnjailTx, UnjailTxV,
    StakedStateAddress,
};
use vstd::arithmetic::div_mod::{lemma_fundamental_div_mod, lemma_fundamental_div_mod_converse};
use vstd::slice::{slice_subrange, slice_to_vec};

verus! {

// ---------------------------------------------------------------------------
// The binary form of a transaction: a family tag byte, a kind tag byte, then
// the kind's fields.  Multi-byte integers are little endian; sequences carry
// a four-byte length prefix.  `encoding_of` is the defining description of
// the format; the parser below is proved sound and complete against it.
// ---------------------------------------------------------------------------

pub open spec fn le16_of(v: u16) -> Seq<u8> {
    seq![(v % 256) as u8, (v / 256) as u8]
}

pub open spec fn le32_of(n: int) -> Seq<u8> {
    seq![
        (n % 256) as u8,
        ((n / 256) % 256) as u8,
        ((n / 256 / 256) % 256) as u8,
        ((n / 256 / 256 / 256) % 256) as u8,
    ]
}

pub open spec fn enc_ptr(p: TxoPointerV) -> Seq<u8> {
    p.id + le16_of(p.index)
}

pub open spec fn enc_ptr_items(s: Seq<TxoPointerV>) -> Seq<u8>
    decreases s.len(),
{
    if s.len() == 0 {
        Seq::<u8>::empty()
    } else {
        enc_ptr(s[0]) + enc_ptr_items(s.drop_first())
    }
}

pub open spec fn enc_ptr_list(s: Seq<TxoPointerV>) -> Seq<u8> {
    le32_of(s.len() as int) + enc_ptr_items(s)
}

pub open spec fn enc_bytes(b: Seq<u8>) -> Seq<u8> {
    le32_of(b.len() as int) + b
}

pub open spec fn enc_opt_bytes(o: Option<Seq<u8>>) -> Seq<u8> {
    match o {
        Option::None => seq![0u8],
        Option::Some(b) => seq![1u8] + enc_bytes(b),
    }
}

pub open spec fn enc_witness(w: TxWitnessV) -> Seq<u8> {
    seq![w.recid] + w.sig
}

pub open spec fn enc_council(c: CouncilNodeV) -> Seq<u8> {
    enc_bytes(c.name) + enc_opt_bytes(c.security_contact) + c.consensus_pubkey
}

pub open spec fn encoding_of(t: TxAuxV) -> Seq<u8> {
    match t {
        TxAuxV::EnclaveTx(e) => match e {
            TxEnclaveAuxV::TransferTx { inputs, no_of_outputs } => {
                seq![0u8, 0u8] + enc_ptr_list(inputs) + le16_of(no_of_outputs)
            },
            TxEnclaveAuxV::DepositStakeTx { tx } => seq![0u8, 1u8] + enc_ptr_list(tx.inputs),
            TxEnclaveAuxV::WithdrawUnbondedStakeTx { no_of_outputs, witness, payload } => {
                seq![0u8, 2u8] + le16_of(no_of_outputs) + enc_witness(witness) + payload.txid
            },
        },
        TxAuxV::PublicTx(p) => match p {
            TxPublicAuxV::UnbondStakeTx(t, w) => {
                seq![1u8, 0u8] + t.from_staked_account + enc_witness(w)
            },
            TxPublicAuxV::NodeJoinTx(t, w) => {
                seq![1u8, 1u8] + t.address + enc_council(t.node_meta) + enc_witness(w)
            },
            TxPublicAuxV::UnjailTx(t, w) => seq![1u8, 2u8] + t.address + enc_witness(w),
        },
    }
}

// ---------------------------------------------------------------------------
// The parser, at the specification level: each step takes the buffer and an
// offset and yields the parsed value and the next offset, or nothing.
// ---------------------------------------------------------------------------

pub open spec fn p_arr(b: Seq<u8>, i: int, n: int) -> Option<(Seq<u8>, int)> {
    if 0 <= i && 0 <= n && i + n <= b.len() {
        Option::Some((b.subrange(i, i + n), i + n))
    } else {
        Option::None
    }
}

pub open spec fn p_byte(b: Seq<u8>, i: int) -> Option<(u8, int)> {
    if 0 <= i < b.len() {
        Option::Some((b[i], i + 1))
    } else {
        Option::None
    }
}

pub open spec fn p_u16(b: Seq<u8>, i: int) -> Option<(u16, int)> {
    match p_arr(b, i, 2) {
        Option::Some((s, j)) => Option::Some(((s[0] + 256 * s[1]) as u16, j)),
        Option::None => Option::None,
    }
}

pub open spec fn p_u32(b: Seq<u8>, i: int) -> Option<(int, int)> {
    match p_arr(b, i, 4) {
        Option::Some((s, j)) => {
            Option::Some((s[0] + 256 * s[1] + 65536 * s[2] + 16777216 * s[3], j))
        },
        Option::None => Option::None,
    }
}

pub open spec fn p_bytes(b: Seq<u8>, i: int) -> Option<(Seq<u8>, int)> {
    match p_u32(b, i) {
        Option::Some((n, j)) => match p_arr(b, j, n) {
            Option::Some((s, k)) => Option::Some((s, k)),
            Option::None => Option::None,
        },
        Option::None => Option::None,
    }
}

pub open spec fn p_ptr(b: Seq<u8>, i: int) -> Option<(TxoPointerV, int)> {
    match p_arr(b, i, 32) {
        Option::Some((id, j)) => match p_u16(b, j) {
            Option::Some((x, k)) => Option::Some((TxoPointerV { id, index: x }, k)),
            Option::None => Option::None,
        },
        Option::None => Option::None,
    }
}

pub open spec fn p_ptr_items(b: Seq<u8>, i: int, n: nat) -> Option<(Seq<TxoPointerV>, int)>
    decreases n,
{
    if n == 0 {
        Option::Some((Seq::<TxoPointerV>::empty(), i))
    } else {
        match p_ptr(b, i) {
            Option::Some((p, j)) => match p_ptr_items(b, j, (n - 1) as nat) {
                Option::Some((s, k)) => Option::Some((seq![p] + s, k)),
                Option::None => Option::None,
            },
            Option::None => Option::None,
        }
    }
}

pub open spec fn p_ptr_list(b: Seq<u8>, i: int) -> Option<(Seq<TxoPointerV>, int)> {
    match p_u32(b, i) {
        Option::Some((n, j)) => p_ptr_items(b, j, n as nat),
        Option::None => Option::None,
    }
}

pub open spec fn p_witness(b: Seq<u8>, i: int) -> Option<(TxWitnessV, int)> {
    match p_byte(b, i) {
        Option::Some((r, j)) => if r <= 3 {
            match p_arr(b, j, 64) {
                Option::Some((sig, k)) => Option::Some((TxWitnessV { recid: r, sig }, k)),
                Option::None => Option::None,
            }
        } else {
            Option::None
        },
        Option::None => Option::None,
    }
}

pub open spec fn p_opt_bytes(b: Seq<u8>, i: int) -> Option<(Option<Seq<u8>>, int)> {
    match p_byte(b, i) {
        Option::Some((t, j)) => if t == 0 {
            Option::Some((Option::None, j))
        } else if t == 1 {
            match p_bytes(b, j) {
                Option::Some((s, k)) => Option::Some((Option::Some(s), k)),
                Option::None => Option::None,
            }
        } else {
            Option::None
        },
        Option::None => Option::None,
    }
}

pub open spec fn p_council(b: Seq<u8>, i: int) -> Option<(CouncilNodeV, int)> {
    match p_bytes(b, i) {
        Option::Some((name, j)) => match p_opt_bytes(b, j) {
            Option::Some((sc, k)) => match p_arr(b, k, 32) {
                Option::Some((pk, l)) => {
                    Option::Some(
                        (CouncilNodeV { name, security_contact: sc, consensus_pubkey: pk }, l),
                    )
                },
                Option::None => Option::None,
            },
            Option::None => Option::None,
        },
        Option::None => Option::None,
    }
}

/// What the byte buffer decodes to: the transaction whose encoding the buffer
/// is, or nothing when it is the encoding of no transaction.
pub open spec fn decode_spec(b: Seq<u8>) -> Option<TxAuxV> {
    if b.len() < 2 {
        Option::None
    } else {
        let t0 = b[0];
        let t1 = b[1];
        if t0 == 0 {
            if t1 == 0 {
                match p_ptr_list(b, 2) {
                    Option::Some((inputs, i)) => match p_u16(b, i) {
                        Option::Some((noo, j)) => if j == b.len() {
                            Option::Some(
                                TxAuxV::EnclaveTx(
                                    TxEnclaveAuxV::TransferTx { inputs, no_of_outputs: noo },
                                ),
                            )
                        } else {
                            Option::None
                        },
                        Option::None => Option::None,
                    },
                    Option::None => Option::None,
                }
            } else if t1 == 1 {
                match p_ptr_list(b, 2) {
                    Option::Some((inputs, i)) => if i == b.len() {
                        Option::Some(
                            TxAuxV::EnclaveTx(
                                TxEnclaveAuxV::DepositStakeTx { tx: PlainTxV { inputs } },
                            ),
                        )
                    } else {
                        Option::None
                    },
                    Option::None => Option::None,
                }
            } else if t1 == 2 {
                match p_u16(b, 2) {
                    Option::Some((noo, i)) => match p_witness(b, i) {
                        Option::Some((w, j)) => match p_arr(b, j, 32) {
                            Option::Some((txid, k)) => if k == b.len() {
                                Option::Some(
                                    TxAuxV::EnclaveTx(
                                        TxEnclaveAuxV::WithdrawUnbondedStakeTx {
                                            no_of_outputs: noo,
                                            witness: w,
                                            payload: TxPayloadV { txid },
                                        },
                                    ),
                                )
                            } else {
                                Option::None
                            },
                            Option::None => Option::None,
                        },
                        Option::None => Option::None,
                    },
                    Option::None => Option::None,
                }
            } else {
                Option::None
            }
        } else if t0 == 1 {
            if t1 == 0 {
                match p_arr(b, 2, 20) {
                    Option::Some((addr, i)) => match p_witness(b, i) {
                        Option::Some((w, j)) => if j == b.len() {
                            Option::Some(
                                TxAuxV::PublicTx(
                                    TxPublicAuxV::UnbondStakeTx(
                                        UnbondTxV { from_staked_account: addr },
                                        w,
                                    ),
                                ),
                            )
                        } else {
                            Option::None
                        },
                        Option::None => Option::None,
                    },
                    Option::None => Option::None,
                }
            } else if t1 == 1 {
                match p_arr(b, 2, 20) {
                    Option::Some((addr, i)) => match p_council(b, i) {
                        Option::Some((c, j)) => match p_witness(b, j) {
                            Option::Some((w, k)) => if k == b.len() {
                                Option::Some(
                                    TxAuxV::PublicTx(
                                        TxPublicAuxV::NodeJoinTx(
                                            NodeJoinRequestTxV { address: addr, node_meta: c },
                                            w,
                                        ),
                                    ),
                                )
                            } else {
                                Option::None
                            },
                            Option::None => Option::None,
                        },
                        Option::None => Option::None,
                    },
                    Option::None => Option::None,
                }
            } else if t1 == 2 {
                match p_arr(b, 2, 20) {
                    Option::Some((addr, i)) => match p_witness(b, i) {
                        Option::Some((w, j)) => if j == b.len() {
                            Option::Some(
                                TxAuxV::PublicTx(
                                    TxPublicAuxV::UnjailTx(UnjailTxV { address: addr }, w),
                                ),
                            )
                        } else {
                            Option::None
                        },
                        Option::None => Option::None,
                    },
                    Option::None => Option::None,
                }
            } else {
                Option::None
            }
        } else {
            Option::None
        }
    }
}

// ---------------------------------------------------------------------------
// The parser, executable: each function returns exactly what its
// specification-level counterpart describes.
// ---------------------------------------------------------------------------

fn d_arr(b: &Vec<u8>, i: usize, n: usize) -> (r: Option<(Vec<u8>, usize)>)
    ensures
        match p_arr(b@, i as int, n as int) {
            Option::Some((s, j)) => (r matches Some(rr) && rr.0@ == s && rr.1 as int == j),
            Option::None => r is None,
        },
{
    if n > b.len() || i > b.len() - n {
        return None;
    }
    let s: &[u8] = slice_subrange(b.as_slice(), i, i + n);
    let v: Vec<u8> = slice_to_vec(s);
    Some((v, i + n))
}

fn d_byte(b: &Vec<u8>, i: usize) -> (r: Option<(u8, usize)>)
    ensures
        match p_byte(b@, i as int) {
            Option::Some((x, j)) => (r matches Some(rr) && rr.0 == x && rr.1 as int == j),
            Option::None => r is None,
        },
{
    if i >= b.len() {
        return None;
    }
    Some((b[i], i + 1))
}

fn d_u16(b: &Vec<u8>, i: usize) -> (r: Option<(u16, usize)>)
    ensures
        match p_u16(b@, i as int) {
            Option::Some((x, j)) => (r matches Some(rr) && rr.0 == x && rr.1 as int == j),
            Option::None => r is None,
        },
{
    if b.len() < 2 || i > b.len() - 2 {
        return None;
    }
    let v: u16 = (b[i] as u16) + 256 * (b[i + 1] as u16);
    Some((v, i + 2))
}

fn d_u32(b: &Vec<u8>, i: usize) -> (r: Option<(u32, usize)>)
    ensures
        match p_u32(b@, i as int) {
            Option::Some((x, j)) => (r matches Some(rr) && rr.0 as int == x && rr.1 as int == j),
            Option::None => r is None,
        },
{
    if b.len() < 4 || i > b.len() - 4 {
        return None;
    }
    let v: u32 = (b[i] as u32) + 256 * (b[i + 1] as u32) + 65536 * (b[i + 2] as u32) + 16777216
        * (b[i + 3] as u32);
    Some((v, i + 4))
}

fn d_bytes(b: &Vec<u8>, i: usize) -> (r: Option<(Vec<u8>, usize)>)
    ensures
        match p_bytes(b@, i as int) {
            Option::Some((s, j)) => (r matches Some(rr) && rr.0@ == s && rr.1 as int == j),
            Option::None => r is None,
        },
{
    match d_u32(b, i) {
        None => None,
        Some((n, j)) => match d_arr(b, j, n as usize) {
            None => None,
            Some((s, k)) => Some((s, k)),
        },
    }
}

fn d_ptr(b: &Vec<u8>, i: usize) -> (r: Option<(TxoPointer, usize)>)
    ensures
        match p_ptr(b@, i as int) {
            Option::Some((p, j)) => (r matches Some(rr) && rr.0.deep_view() == p && rr.1 as int
                == j),
            Option::None => r is None,
        },
{
    match d_arr(b, i, 32) {
        None => None,
        Some((id, j)) => match d_u16(b, j) {
            None => None,
            Some((x, k)) => Some((TxoPointer { id, index: x }, k)),
        },
    }
}

fn d_ptr_items(b: &Vec<u8>, i: usize, n: u32) -> (r: Option<(Vec<TxoPointer>, usize)>)
    ensures
        match p_ptr_items(b@, i as int, n as nat) {
            Option::Some((s, j)) => (r matches Some(rr) && rr.0.deep_view() == s && rr.1 as int
                == j),
            Option::None => r is None,
        },
    decreases n,
{
    if n == 0 {
        let v: Vec<TxoPointer> = Vec::new();
        assert(v.deep_view() =~= Seq::<TxoPointerV>::empty());
        return Some((v, i));
    }
    match d_ptr(b, i) {
        None => None,
        Some((p, j)) => match d_ptr_items(b, j, n - 1) {
            None => None,
            Some((s, k)) => {
                let ghost old_s = s.deep_view();
                let ghost pv = p.deep_view();
                let mut s2: Vec<TxoPointer> = s;
                s2.insert(0, p);
                proof {
                    assert(s2.deep_view() =~= seq![pv] + old_s);
                }
                Some((s2, k))
            },
        },
    }
}

fn d_ptr_list(b: &Vec<u8>, i: usize) -> (r: Option<(Vec<TxoPointer>, usize)>)
    ensures
        match p_ptr_list(b@, i as int) {
            Option::Some((s, j)) => (r matches Some(rr) && rr.0.deep_view() == s && rr.1 as int
                == j),
            Option::None => r is None,
        },
{
    match d_u32(b, i) {
        None => None,
        Some((n, j)) => d_ptr_items(b, j, n),
    }
}

fn d_witness(b: &Vec<u8>, i: usize) -> (r: Option<(TxWitness, usize)>)
    ensures
        match p_witness(b@, i as int) {
            Option::Some((w, j)) => (r matches Some(rr) && rr.0.deep_view() == w && rr.1 as int
                == j),
            Option::None => r is None,
        },
{
    match d_byte(b, i) {
        None => None,
        Some((rid, j)) => if rid <= 3 {
            match d_arr(b, j, 64) {
                None => None,
                Some((sig, k)) => Some((TxWitness { recid: rid, sig }, k)),
            }
        } else {
            None
        },
    }
}

fn d_opt_bytes(b: &Vec<u8>, i: usize) -> (r: Option<(Option<Vec<u8>>, usize)>)
    ensures
        match p_opt_bytes(b@, i as int) {
            Option::Some((o, j)) => (r matches Some(rr) && rr.0.deep_view() == o && rr.1 as int
                == j),
            Option::None => r is None,
        },
{
    match d_byte(b, i) {
        None => None,
        Some((t, j)) => if t == 0 {
            Some((None, j))
        } else if t == 1 {
            match d_bytes(b, j) {
                None => None,
                Some((s, k)) => Some((Some(s), k)),
            }
        } else {
            None
        },
    }
}

fn d_council(b: &Vec<u8>, i: usize) -> (r: Option<(CouncilNode, usize)>)
    ensures
        match p_council(b@, i as int) {
            Option::Some((c, j)) => (r matches Some(rr) && rr.0.deep_view() == c && rr.1 as int
                == j),
            Option::None => r is None,
        },
{
    match d_bytes(b, i) {
        None => None,
        Some((name, j)) => match d_opt_bytes(b, j) {
            None => None,
            Some((sc, k)) => match d_arr(b, k, 32) {
                None => None,
                Some((pk, l)) => {
                    Some((CouncilNode { name, security_contact: sc, consensus_pubkey: pk }, l))
                },
            },
        },
    }
}

/// Decodes one transaction from the byte buffer.  The result is the
/// transaction the buffer encodes, and nothing when the buffer is the
/// encoding of no transaction: an unknown tag, a truncated payload or
/// trailing bytes are all rejected.
pub fn decode_tx(bytes: &Vec<u8>) -> (r: Option<TxAux>)
    ensures
        match decode_spec(bytes@) {
            Option::Some(tv) => (r matches Some(t) && t.deep_view() == tv),
            Option::None => r is None,
        },
{
    if bytes.len() < 2 {
        return None;
    }
    let t0: u8 = bytes[0];
    let t1: u8 = bytes[1];
    if t0 == 0 {
        if t1 == 0 {
            match d_ptr_list(bytes, 2) {
                None => None,
                Some((inputs, i)) => match d_u16(bytes, i) {
                    None => None,
                    Some((noo, j)) => if j == bytes.len() {
                        Some(TxAux::EnclaveTx(TxEnclaveAux::TransferTx {
                            inputs,
                            no_of_outputs: noo,
                        }))
                    } else {
                        None
                    },
                },
            }
        } else if t1 == 1 {
            match d_ptr_list(bytes, 2) {
                None => None,
                Some((inputs, i)) => if i == bytes.len() {
                    Some(TxAux::EnclaveTx(TxEnclaveAux::DepositStakeTx {
                        tx: PlainTx { inputs },
                    }))
                } else {
                    None
                },
            }
        } else if t1 == 2 {
            match d_u16(bytes, 2) {
                None => None,
                Some((noo, i)) => match d_witness(bytes, i) {
                    None => None,
                    Some((w, j)) => match d_arr(bytes, j, 32) {
                        None => None,
                        Some((txid, k)) => if k == bytes.len() {
                            Some(TxAux::EnclaveTx(TxEnclaveAux::WithdrawUnbondedStakeTx {
                                no_of_outputs: noo,
                                witness: w,
                                payload: TxPayload { txid },
                            }))
                        } else {
                            None
                        },
                    },
                },
            }
        } else {
            None
        }
    } else if t0 == 1 {
        if t1 == 0 {
            match d_arr(bytes, 2, 20) {
                None => None,
                Some((addr, i)) => match d_witness(bytes, i) {
                    None => None,
                    Some((w, j)) => if j == bytes.len() {
                        Some(TxAux::PublicTx(TxPublicAux::UnbondStakeTx(
                            UnbondTx { from_staked_account: StakedStateAddress { bytes: addr } },
                            w,
                        )))
                    } else {
                        None
                    },
                },
            }
        } else if t1 == 1 {
            match d_arr(bytes, 2, 20) {
                None => None,
                Some((addr, i)) => match d_council(bytes, i) {
                    None => None,
                    Some((c, j)) => match d_witness(bytes, j) {
                        None => None,
                        Some((w, k)) => if k == bytes.len() {
                            Some(TxAux::PublicTx(TxPublicAux::NodeJoinTx(
                                NodeJoinRequestTx {
                                    address: StakedStateAddress { bytes: addr },
                                    node_meta: c,
                                },
                                w,
                            )))
                        } else {
                            None
                        },
                    },
                },
            }
        } else if t1 == 2 {
            match d_arr(bytes, 2, 20) {
                None => None,
                Some((addr, i)) => match d_witness(bytes, i) {
                    None => None,
                    Some((w, j)) => if j == bytes.len() {
                        Some(TxAux::PublicTx(TxPublicAux::UnjailTx(
                            UnjailTx { address: StakedStateAddress { bytes: addr } },
                            w,
                        )))
                    } else {
                        None
                    },
                },
            }
        } else {
            None
        }
    } else {
        None
    }
}

// ---------------------------------------------------------------------------
// The encoder: builds the byte form that `encoding_of` describes.
// ---------------------------------------------------------------------------

fn e_u16(out: &mut Vec<u8>, v: u16)
    ensures
        final(out)@ == old(out)@ + le16_of(v),
{
    out.push((v % 256) as u8);
    out.push((v / 256) as u8);
    proof {
        assert(out@ =~= old(out)@ + le16_of(v));
    }
}

fn e_u32(out: &mut Vec<u8>, n: u32)
    ensures
        final(out)@ == old(out)@ + le32_of(n as int),
{
    out.push((n % 256) as u8);
    out.push(((n / 256) % 256) as u8);
    out.push(((n / 256 / 256) % 256) as u8);
    out.push(((n / 256 / 256 / 256) % 256) as u8);
    proof {
        assert(out@ =~= old(out)@ + le32_of(n as int));
    }
}

fn e_arr(out: &mut Vec<u8>, v: &Vec<u8>)
    ensures
        final(out)@ == old(out)@ + v@,
{
    let mut k: usize = 0;
    while k < v.len()
        invariant
            k <= v@.len(),
            out@ == old(out)@ + v@.take(k as int),
        decreases v@.len() - k,
    {
        out.push(v[k]);
        proof {
            assert(out@ =~= old(out)@ + v@.take(k + 1));
        }
        k = k + 1;
    }
    proof {
        assert(out@ =~= old(out)@ + v@);
    }
}

fn e_ptr(out: &mut Vec<u8>, p: &TxoPointer)
    ensures
        final(out)@ == old(out)@ + enc_ptr(p.deep_view()),
{
    e_arr(out, &p.id);
    e_u16(out, p.index);
    proof {
        assert(out@ =~= old(out)@ + enc_ptr(p.deep_view()));
    }
}

fn e_ptr_items(out: &mut Vec<u8>, s: &Vec<TxoPointer>, k: usize)
    requires
        k <= s@.len(),
    ensures
        final(out)@ == old(out)@ + enc_ptr_items(s.deep_view().skip(k as int)),
    decreases s@.len() - k,
{
    if k == s.len() {
        proof {
            assert(s.deep_view().skip(k as int) =~= Seq::<TxoPointerV>::empty());
            assert(out@ =~= old(out)@ + enc_ptr_items(s.deep_view().skip(k as int)));
        }
        return;
    }
    e_ptr(out, &s[k]);
    e_ptr_items(out, s, k + 1);
    proof {
        let sv = s.deep_view();
        assert(sv.skip(k as int)[0] == sv[k as int]);
        assert(sv.skip(k as int).drop_first() =~= sv.skip(k + 1));
        assert(out@ =~= old(out)@ + enc_ptr_items(sv.skip(k as int)));
    }
}

fn e_ptr_list(out: &mut Vec<u8>, s: &Vec<TxoPointer>)
    requires
        s@.len() <= 0xFFFF_FFFF,
    ensures
        final(out)@ == old(out)@ + enc_ptr_list(s.deep_view()),
{
    e_u32(out, s.len() as u32);
    e_ptr_items(out, s, 0);
    proof {
        assert(s.deep_view().skip(0) =~= s.deep_view());
        assert(out@ =~= old(out)@ + enc_ptr_list(s.deep_view()));
    }
}

fn e_bytes(out: &mut Vec<u8>, v: &Vec<u8>)
    requires
        v@.len() <= 0xFFFF_FFFF,
    ensures
        final(out)@ == old(out)@ + enc_bytes(v@),
{
    e_u32(out, v.len() as u32);
    e_arr(out, v);
    proof {
        assert(out@ =~= old(out)@ + enc_bytes(v@));
    }
}

fn e_opt_bytes(out: &mut Vec<u8>, o: &Option<Vec<u8>>)
    requires
        (o matches Some(v) ==> v@.len() <= 0xFFFF_FFFF),
    ensures
        final(out)@ == old(out)@ + enc_opt_bytes(o.deep_view()),
{
    match o {
        None => {
            out.push(0);
            proof {
                assert(out@ =~= old(out)@ + enc_opt_bytes(o.deep_view()));
            }
        },
        Some(v) => {
            out.push(1);
            e_bytes(out, v);
            proof {
                assert(out@ =~= old(out)@ + enc_opt_bytes(o.deep_view()));
            }
        },
    }
}

fn e_witness(out: &mut Vec<u8>, w: &TxWitness)
    ensures
        final(out)@ == old(out)@ + enc_witness(w.deep_view()),
{
    out.push(w.recid);
    e_arr(out, &w.sig);
    proof {
        assert(out@ =~= old(out)@ + enc_witness(w.deep_view()));
    }
}

fn e_council(out: &mut Vec<u8>, c: &CouncilNode)
    requires
        c.deep_view().wf(),
    ensures
        final(out)@ == old(out)@ + enc_council(c.deep_view()),
{
    e_bytes(out, &c.name);
    e_opt_bytes(out, &c.security_contact);
    e_arr(out, &c.consensus_pubkey);
    proof {
        assert(out@ =~= old(out)@ + enc_council(c.deep_view()));
    }
}

/// Builds the byte form of a transaction.
pub fn encode_tx(t: &TxAux) -> (r: Vec<u8>)
    requires
        t.wf(),
    ensures
        r@ == encoding_of(t.deep_view()),
{
    let mut out: Vec<u8> = Vec::new();
    match t {
        TxAux::EnclaveTx(e) => match e {
            TxEnclaveAux::TransferTx { inputs, no_of_outputs } => {
                out.push(0);
                out.push(0);
                e_ptr_list(&mut out, inputs);
                e_u16(&mut out, *no_of_outputs);
                proof {
                    assert(out@ =~= encoding_of(t.deep_view()));
                }
            },
            TxEnclaveAux::DepositStakeTx { tx } => {
                out.push(0);
                out.push(1);
                e_ptr_list(&mut out, &tx.inputs);
                proof {
                    assert(out@ =~= encoding_of(t.deep_view()));
                }
            },
            TxEnclaveAux::WithdrawUnbondedStakeTx { no_of_outputs, witness, payload } => {
                out.push(0);
                out.push(2);
                e_u16(&mut out, *no_of_outputs);
                e_witness(&mut out, witness);
                e_arr(&mut out, &payload.txid);
                proof {
                    assert(out@ =~= encoding_of(t.deep_view()));
                }
            },
        },
        TxAux::PublicTx(p) => match p {
            TxPublicAux::UnbondStakeTx(u, w) => {
                out.push(1);
                out.push(0);
                e_arr(&mut out, &u.from_staked_account.bytes);
                e_witness(&mut out, w);
                proof {
                    assert(out@ =~= encoding_of(t.deep_view()));
                }
            },
            TxPublicAux::NodeJoinTx(n, w) => {
                out.push(1);
                out.push(1);
                e_arr(&mut out, &n.address.bytes);
                e_council(&mut out, &n.node_meta);
                e_witness(&mut out, w);
                proof {
                    assert(out@ =~= encoding_of(t.deep_view()));
                }
            },
            TxPublicAux::UnjailTx(u, w) => {
                out.push(1);
                out.push(2);
                e_arr(&mut out, &u.address.bytes);
                e_witness(&mut out, w);
                proof {
                    assert(out@ =~= encoding_of(t.deep_view()));
                }
            },
        },
    }
    out
}

// ---------------------------------------------------------------------------
// The parser is sound: whatever it accepts at an offset is the encoding of
// the parsed value, occupying exactly the consumed range.
// ---------------------------------------------------------------------------

proof fn lemma_split(b: Seq<u8>, i: int, j: int, k: int)
    requires
        0 <= i <= j <= k <= b.len(),
    ensures
        b.subrange(i, k) == b.subrange(i, j) + b.subrange(j, k),
{
    assert(b.subrange(i, k) =~= b.subrange(i, j) + b.subrange(j, k));
}

proof fn lemma_p_u16_sound(b: Seq<u8>, i: int)
    ensures
        p_u16(b, i) matches Some(r) ==> {
            &&& 0 <= i
            &&& r.1 == i + 2 <= b.len()
            &&& b.subrange(i, i + 2) == le16_of(r.0)
        },
{
    match p_u16(b, i) {
        Option::Some((v, j)) => {
            let s = b.subrange(i, i + 2);
            assert(v as int == s[0] + 256 * s[1]);
            lemma_fundamental_div_mod_converse(v as int, 256, s[1] as int, s[0] as int);
            assert(le16_of(v) =~= s);
        },
        Option::None => {},
    }
}

proof fn lemma_p_u32_sound(b: Seq<u8>, i: int)
    ensures
        p_u32(b, i) matches Some(r) ==> {
            &&& 0 <= i
            &&& r.1 == i + 4 <= b.len()
            &&& 0 <= r.0 <= 0xFFFF_FFFF
            &&& b.subrange(i, i + 4) == le32_of(r.0)
        },
{
    match p_u32(b, i) {
        Option::Some((n, j)) => {
            let s = b.subrange(i, i + 4);
            let q1 = s[1] + 256 * s[2] + 65536 * s[3];
            let q2 = s[2] + 256 * s[3];
            let q3 = s[3] as int;
            assert(n == s[0] + 256 * q1);
            lemma_fundamental_div_mod_converse(n, 256, q1, s[0] as int);
            lemma_fundamental_div_mod_converse(q1, 256, q2, s[1] as int);
            lemma_fundamental_div_mod_converse(q2, 256, q3, s[2] as int);
            lemma_fundamental_div_mod_converse(q3, 256, 0, s[3] as int);
            assert(le32_of(n) =~= s);
        },
        Option::None => {},
    }
}

// ---------------------------------------------------------------------------
// The parser is complete: at the offset where a piece's encoding stands, the
// parser accepts and yields exactly that piece.
// ---------------------------------------------------------------------------

proof fn lemma_p_arr_at(b: Seq<u8>, pre: Seq<u8>, x: Seq<u8>, rest: Seq<u8>)
    requires
        b == pre + x + rest,
    ensures
        p_arr(b, pre.len() as int, x.len() as int) == Option::Some(
            (x, pre.len() + x.len() as int),
        ),
{
    assert(b.subrange(pre.len() as int, (pre.len() + x.len()) as int) =~= x);
}

proof fn lemma_p_u16_at(b: Seq<u8>, pre: Seq<u8>, v: u16, rest: Seq<u8>)
    requires
        b == pre + le16_of(v) + rest,
    ensures
        p_u16(b, pre.len() as int) == Option::Some((v, pre.len() + 2 as int)),
{
    let i = pre.len() as int;
    lemma_p_arr_at(b, pre, le16_of(v), rest);
    let s = b.subrange(i, i + 2);
    assert(s =~= le16_of(v));
    lemma_fundamental_div_mod(v as int, 256);
    assert(s[0] + 256 * s[1] == v as int);
}

proof fn lemma_p_u32_at(b: Seq<u8>, pre: Seq<u8>, n: int, rest: Seq<u8>)
    requires
        b == pre + le32_of(n) + rest,
        0 <= n <= 0xFFFF_FFFF,
    ensures
        p_u32(b, pre.len() as int) == Option::Some((n, pre.len() + 4 as int)),
{
    let i = pre.len() as int;
    lemma_p_arr_at(b, pre, le32_of(n), rest);
    let s = b.subrange(i, i + 4);
    assert(s =~= le32_of(n));
    let q1 = n / 256;
    let q2 = q1 / 256;
    let q3 = q2 / 256;
    lemma_fundamental_div_mod(n, 256);
    lemma_fundamental_div_mod(q1, 256);
    lemma_fundamental_div_mod(q2, 256);
    assert(0 <= q3 < 256);
    lemma_fundamental_div_mod_converse(q3, 256, 0, q3);
    assert(s[0] + 256 * s[1] + 65536 * s[2] + 16777216 * s[3] == n);
}

proof fn lemma_p_bytes_sound(b: Seq<u8>, i: int)
    ensures
        p_bytes(b, i) matches Some(r) ==> {
            &&& 0 <= i <= r.1 <= b.len()
            &&& r.0.len() <= 0xFFFF_FFFF
            &&& b.subrange(i, r.1) == enc_bytes(r.0)
        },
{
    match p_bytes(b, i) {
        Option::Some((s, k)) => {
            lemma_p_u32_sound(b, i);
            match p_u32(b, i) {
                Option::Some((n, j)) => {
                    lemma_split(b, i, j, k);
                    assert(b.subrange(j, k) =~= s);
                },
                Option::None => {},
            }
        },
        Option::None => {},
    }
}

proof fn lemma_p_bytes_at(b: Seq<u8>, pre: Seq<u8>, x: Seq<u8>, rest: Seq<u8>)
    requires
        b == pre + enc_bytes(x) + rest,
        x.len() <= 0xFFFF_FFFF,
    ensures
        p_bytes(b, pre.len() as int) == Option::Some((x, pre.len() + 4 + x.len() as int)),
{
    assert(b =~= pre + le32_of(x.len() as int) + (x + rest));
    lemma_p_u32_at(b, pre, x.len() as int, x + rest);
    assert(b =~= (pre + le32_of(x.len() as int)) + x + rest);
    lemma_p_arr_at(b, pre + le32_of(x.len() as int), x, rest);
}

proof fn lemma_p_ptr_sound(b: Seq<u8>, i: int)
    ensures
        p_ptr(b, i) matches Some(r) ==> {
            &&& 0 <= i
            &&& r.1 == i + 34 <= b.len()
            &&& r.0.wf()
            &&& b.subrange(i, r.1) == enc_ptr(r.0)
        },
{
    match p_ptr(b, i) {
        Option::Some((p, k)) => {
            lemma_p_u16_sound(b, i + 32);
            lemma_split(b, i, i + 32, k);
        },
        Option::None => {},
    }
}

proof fn lemma_p_ptr_at(b: Seq<u8>, pre: Seq<u8>, p: TxoPointerV, rest: Seq<u8>)
    requires
        b == pre + enc_ptr(p) + rest,
        p.wf(),
    ensures
        p_ptr(b, pre.len() as int) == Option::Some((p, pre.len() + 34 as int)),
{
    assert(b =~= pre + p.id + (le16_of(p.index) + rest));
    lemma_p_arr_at(b, pre, p.id, le16_of(p.index) + rest);
    assert(b =~= (pre + p.id) + le16_of(p.index) + rest);
    lemma_p_u16_at(b, pre + p.id, p.index, rest);
}

proof fn lemma_p_witness_sound(b: Seq<u8>, i: int)
    ensures
        p_witness(b, i) matches Some(r) ==> {
            &&& 0 <= i
            &&& r.1 == i + 65 <= b.len()
            &&& r.0.wf()
            &&& b.subrange(i, r.1) == enc_witness(r.0)
        },
{
    match p_witness(b, i) {
        Option::Some((w, k)) => {
            lemma_split(b, i, i + 1, k);
            assert(b.subrange(i, i + 1) =~= seq![w.recid]);
        },
        Option::None => {},
    }
}

proof fn lemma_p_witness_at(b: Seq<u8>, pre: Seq<u8>, w: TxWitnessV, rest: Seq<u8>)
    requires
        b == pre + enc_witness(w) + rest,
        w.wf(),
    ensures
        p_witness(b, pre.len() as int) == Option::Some((w, pre.len() + 65 as int)),
{
    let i = pre.len() as int;
    assert(b[i] == w.recid);
    assert(b =~= (pre + seq![w.recid]) + w.sig + rest);
    lemma_p_arr_at(b, pre + seq![w.recid], w.sig, rest);
}

proof fn lemma_p_opt_bytes_sound(b: Seq<u8>, i: int)
    ensures
        p_opt_bytes(b, i) matches Some(r) ==> {
            &&& 0 <= i <= r.1 <= b.len()
            &&& (r.0 matches Some(c) ==> c.len() <= 0xFFFF_FFFF)
            &&& b.subrange(i, r.1) == enc_opt_bytes(r.0)
        },
{
    match p_opt_bytes(b, i) {
        Option::Some((o, k)) => {
            match o {
                Option::None => {
                    assert(b.subrange(i, i + 1) =~= seq![b[i]]);
                },
                Option::Some(c) => {
                    lemma_p_bytes_sound(b, i + 1);
                    lemma_split(b, i, i + 1, k);
                    assert(b.subrange(i, i + 1) =~= seq![1u8]);
                },
            }
        },
        Option::None => {},
    }
}

#[verifier::rlimit(100)]
proof fn lemma_p_opt_bytes_at(b: Seq<u8>, pre: Seq<u8>, o: Option<Seq<u8>>, rest: Seq<u8>)
    requires
        b == pre + enc_opt_bytes(o) + rest,
        (o matches Some(c) ==> c.len() <= 0xFFFF_FFFF),
    ensures
        p_opt_bytes(b, pre.len() as int) == Option::Some(
            (o, pre.len() + enc_opt_bytes(o).len() as int),
        ),
{
    let i = pre.len() as int;
    match o {
        Option::None => {
            assert(b[i] == 0);
            assert(enc_opt_bytes(o).len() == 1);
            assert(p_opt_bytes(b, i) == Option::Some((o, i + 1)));
        },
        Option::Some(c) => {
            assert(b[i] == 1);
            assert(b =~= (pre + seq![1u8]) + enc_bytes(c) + rest);
            lemma_p_bytes_at(b, pre + seq![1u8], c, rest);
            assert(p_bytes(b, i + 1) == Option::Some((c, i + 1 + 4 + c.len())));
            assert(enc_opt_bytes(o).len() == 1 + 4 + c.len());
            assert(p_opt_bytes(b, i) == Option::Some((o, i + 1 + 4 + c.len())));
        },
    }
}

proof fn lemma_p_council_sound(b: Seq<u8>, i: int)
    ensures
        p_council(b, i) matches Some(r) ==> {
            &&& 0 <= i <= r.1 <= b.len()
            &&& r.0.wf()
            &&& b.subrange(i, r.1) == enc_council(r.0)
        },
{
    match p_council(b, i) {
        Option::Some((c, l)) => {
            lemma_p_bytes_sound(b, i);
            match p_bytes(b, i) {
                Option::Some((name, j)) => {
                    lemma_p_opt_bytes_sound(b, j);
                    match p_opt_bytes(b, j) {
                        Option::Some((sc, k)) => {
                            lemma_split(b, i, j, k);
                            lemma_split(b, i, k, l);
                        },
                        Option::None => {},
                    }
                },
                Option::None => {},
            }
        },
        Option::None => {},
    }
}

#[verifier::rlimit(100)]
#[verifier::spinoff_prover]
proof fn lemma_p_council_at(b: Seq<u8>, pre: Seq<u8>, c: CouncilNodeV, rest: Seq<u8>)
    requires
        b == pre + enc_council(c) + rest,
        c.wf(),
    ensures
        p_council(b, pre.len() as int) == Option::Some(
            (c, pre.len() + enc_council(c).len() as int),
        ),
{
    let e1 = enc_bytes(c.name);
    let e2 = enc_opt_bytes(c.security_contact);
    let e3 = c.consensus_pubkey;
    let i = pre.len() as int;
    let j = i + 4 + c.name.len() as int;
    let k = j + e2.len() as int;
    assert(p_bytes(b, i) == Option::Some((c.name, j))) by {
        assert(b =~= pre + e1 + ((e2 + e3) + rest));
        lemma_p_bytes_at(b, pre, c.name, (e2 + e3) + rest);
    }
    assert(p_opt_bytes(b, j) == Option::Some((c.security_contact, k))) by {
        assert(b =~= (pre + e1) + e2 + (e3 + rest));
        lemma_p_opt_bytes_at(b, pre + e1, c.security_contact, e3 + rest);
    }
    assert(p_arr(b, k, 32) == Option::Some((e3, k + 32))) by {
        assert(b =~= ((pre + e1) + e2) + e3 + rest);
        lemma_p_arr_at(b, (pre + e1) + e2, c.consensus_pubkey, rest);
    }
    assert(enc_council(c).len() == 4 + c.name.len() + e2.len() + 32);
}

proof fn lemma_p_ptr_items_sound(b: Seq<u8>, i: int, n: nat)
    ensures
        p_ptr_items(b, i, n) matches Some(r) ==> {
            &&& 0 <= i <= r.1 <= b.len() || n == 0
            &&& r.0.len() == n
            &&& forall|t: int| 0 <= t < r.0.len() ==> (#[trigger] r.0[t]).wf()
            &&& i <= r.1
            &&& (0 <= i <= b.len() ==> b.subrange(i, r.1) == enc_ptr_items(r.0))
        },
    decreases n,
{
    if n == 0 {
        if 0 <= i <= b.len() {
            assert(b.subrange(i, i) =~= Seq::<u8>::empty());
        }
    } else {
        match p_ptr(b, i) {
            Option::Some((p, j)) => {
                lemma_p_ptr_sound(b, i);
                lemma_p_ptr_items_sound(b, j, (n - 1) as nat);
                match p_ptr_items(b, j, (n - 1) as nat) {
                    Option::Some((s, k)) => {
                        let whole = seq![p] + s;
                        assert(whole[0] == p);
                        assert(whole.drop_first() =~= s);
                        lemma_split(b, i, j, k);
                    },
                    Option::None => {},
                }
            },
            Option::None => {},
        }
    }
}

proof fn lemma_p_ptr_items_at(b: Seq<u8>, pre: Seq<u8>, s: Seq<TxoPointerV>, rest: Seq<u8>)
    requires
        b == pre + enc_ptr_items(s) + rest,
        forall|t: int| 0 <= t < s.len() ==> (#[trigger] s[t]).wf(),
    ensures
        p_ptr_items(b, pre.len() as int, s.len() as nat) == Option::Some(
            (s, pre.len() + enc_ptr_items(s).len() as int),
        ),
    decreases s.len(),
{
    if s.len() == 0 {
        assert(s =~= Seq::<TxoPointerV>::empty());
    } else {
        assert(b =~= pre + enc_ptr(s[0]) + (enc_ptr_items(s.drop_first()) + rest));
        lemma_p_ptr_at(b, pre, s[0], enc_ptr_items(s.drop_first()) + rest);
        let pre2 = pre + enc_ptr(s[0]);
        assert(b =~= pre2 + enc_ptr_items(s.drop_first()) + rest);
        lemma_p_ptr_items_at(b, pre2, s.drop_first(), rest);
        assert(seq![s[0]] + s.drop_first() =~= s);
    }
}

proof fn lemma_p_ptr_list_sound(b: Seq<u8>, i: int)
    ensures
        p_ptr_list(b, i) matches Some(r) ==> {
            &&& 0 <= i <= r.1 <= b.len()
            &&& r.0.len() <= 0xFFFF_FFFF
            &&& forall|t: int| 0 <= t < r.0.len() ==> (#[trigger] r.0[t]).wf()
            &&& b.subrange(i, r.1) == enc_ptr_list(r.0)
        },
{
    match p_ptr_list(b, i) {
        Option::Some((s, k)) => {
            lemma_p_u32_sound(b, i);
            match p_u32(b, i) {
                Option::Some((n, j)) => {
                    lemma_p_ptr_items_sound(b, j, n as nat);
                    lemma_split(b, i, j, k);
                },
                Option::None => {},
            }
        },
        Option::None => {},
    }
}

proof fn lemma_p_ptr_list_at(b: Seq<u8>, pre: Seq<u8>, s: Seq<TxoPointerV>, rest: Seq<u8>)
    requires
        b == pre + enc_ptr_list(s) + rest,
        s.len() <= 0xFFFF_FFFF,
        forall|t: int| 0 <= t < s.len() ==> (#[trigger] s[t]).wf(),
    ensures
        p_ptr_list(b, pre.len() as int) == Option::Some(
            (s, pre.len() + enc_ptr_list(s).len() as int),
        ),
{
    assert(b =~= pre + le32_of(s.len() as int) + (enc_ptr_items(s) + rest));
    lemma_p_u32_at(b, pre, s.len() as int, enc_ptr_items(s) + rest);
    let pre2 = pre + le32_of(s.len() as int);
    assert(b =~= pre2 + enc_ptr_items(s) + rest);
    lemma_p_ptr_items_at(b, pre2, s, rest);
}

/// Soundness of decoding: whatever the buffer decodes to is well formed, and
/// the buffer is exactly its encoding — malformed bytes are never coerced
/// into some transaction.
#[verifier::rlimit(100)]
#[verifier::spinoff_prover]
pub proof fn lemma_decode_sound(b: Seq<u8>)
    ensures
        decode_spec(b) matches Some(tv) ==> tv.wf() && encoding_of(tv) == b,
{
    if b.len() >= 2 {
        let t0 = b[0];
        let t1 = b[1];
        assert(b.subrange(0, 2) =~= seq![t0, t1]);
        if t0 == 0 && t1 == 0 {
            match p_ptr_list(b, 2) {
                Option::Some((ins, i)) => {
                    lemma_p_ptr_list_sound(b, 2);
                    match p_u16(b, i) {
                        Option::Some((noo, j)) => {
                            lemma_p_u16_sound(b, i);
                            if j == b.len() {
                                lemma_split(b, 0, 2, i);
                                lemma_split(b, 0, i, j);
                                assert(b.subrange(0, b.len() as int) =~= b);
                            }
                        },
                        Option::None => {},
                    }
                },
                Option::None => {},
            }
        } else if t0 == 0 && t1 == 1 {
            match p_ptr_list(b, 2) {
                Option::Some((ins, i)) => {
                    lemma_p_ptr_list_sound(b, 2);
                    if i == b.len() {
                        lemma_split(b, 0, 2, i);
                        assert(b.subrange(0, b.len() as int) =~= b);
                    }
                },
                Option::None => {},
            }
        } else if t0 == 0 && t1 == 2 {
            match p_u16(b, 2) {
                Option::Some((noo, i)) => {
                    lemma_p_u16_sound(b, 2);
                    match p_witness(b, i) {
                        Option::Some((w, j)) => {
                            lemma_p_witness_sound(b, i);
                            match p_arr(b, j, 32) {
                                Option::Some((txid, k)) => {
                                    if k == b.len() {
                                        lemma_split(b, 0, 2, i);
                                        lemma_split(b, 0, i, j);
                                        lemma_split(b, 0, j, k);
                                        assert(b.subrange(0, b.len() as int) =~= b);
                                    }
                                },
                                Option::None => {},
                            }
                        },
                        Option::None => {},
                    }
                },
                Option::None => {},
            }
        } else if t0 == 1 && (t1 == 0 || t1 == 2) {
            match p_arr(b, 2, 20) {
                Option::Some((addr, i)) => {
                    match p_witness(b, i) {
                        Option::Some((w, j)) => {
                            lemma_p_witness_sound(b, i);
                            if j == b.len() {
                                lemma_split(b, 0, 2, i);
                                lemma_split(b, 0, i, j);
                                assert(b.subrange(0, b.len() as int) =~= b);
                            }
                        },
                        Option::None => {},
                    }
                },
                Option::None => {},
            }
        } else if t0 == 1 && t1 == 1 {
            match p_arr(b, 2, 20) {
                Option::Some((addr, i)) => {
                    match p_council(b, i) {
                        Option::Some((c, j)) => {
                            lemma_p_council_sound(b, i);
                            match p_witness(b, j) {
                                Option::Some((w, k)) => {
                                    lemma_p_witness_sound(b, j);
                                    if k == b.len() {
                                        lemma_split(b, 0, 2, i);
                                        lemma_split(b, 0, i, j);
                                        lemma_split(b, 0, j, k);
                                        assert(b.subrange(0, b.len() as int) =~= b);
                                    }
                                },
                                Option::None => {},
                            }
                        },
                        Option::None => {},
                    }
                },
                Option::None => {},
            }
        }
    }
}

/// Completeness of decoding, per kind.
#[verifier::rlimit(100)]
#[verifier::spinoff_prover]
proof fn lemma_ed_transfer(inputs: Seq<TxoPointerV>, no_of_outputs: u16)
    requires
        inputs.len() <= 0xFFFF_FFFF,
        forall|t: int| 0 <= t < inputs.len() ==> (#[trigger] inputs[t]).wf(),
    ensures
        decode_spec(
            encoding_of(TxAuxV::EnclaveTx(TxEnclaveAuxV::TransferTx { inputs, no_of_outputs })),
        ) == Option::Some(
            TxAuxV::EnclaveTx(TxEnclaveAuxV::TransferTx { inputs, no_of_outputs }),
        ),
{
    let b = encoding_of(TxAuxV::EnclaveTx(TxEnclaveAuxV::TransferTx { inputs, no_of_outputs }));
    let pre = seq![0u8, 0u8];
    let i = 2 + enc_ptr_list(inputs).len() as int;
    assert(b[0] == 0 && b[1] == 0);
    assert(p_ptr_list(b, 2) == Option::Some((inputs, i))) by {
        assert(b =~= pre + enc_ptr_list(inputs) + le16_of(no_of_outputs));
        lemma_p_ptr_list_at(b, pre, inputs, le16_of(no_of_outputs));
    }
    assert(p_u16(b, i) == Option::Some((no_of_outputs, i + 2))) by {
        assert(b =~= (pre + enc_ptr_list(inputs)) + le16_of(no_of_outputs) + Seq::<u8>::empty());
        lemma_p_u16_at(b, pre + enc_ptr_list(inputs), no_of_outputs, Seq::<u8>::empty());
    }
    assert(i + 2 == b.len());
}

#[verifier::rlimit(100)]
#[verifier::spinoff_prover]
proof fn lemma_ed_deposit(tx: PlainTxV)
    requires
        tx.wf(),
    ensures
        decode_spec(encoding_of(TxAuxV::EnclaveTx(TxEnclaveAuxV::DepositStakeTx { tx })))
            == Option::Some(TxAuxV::EnclaveTx(TxEnclaveAuxV::DepositStakeTx { tx })),
{
    let b = encoding_of(TxAuxV::EnclaveTx(TxEnclaveAuxV::DepositStakeTx { tx }));
    let pre = seq![0u8, 1u8];
    let i = 2 + enc_ptr_list(tx.inputs).len() as int;
    assert(b[0] == 0 && b[1] == 1);
    assert(p_ptr_list(b, 2) == Option::Some((tx.inputs, i))) by {
        assert(b =~= pre + enc_ptr_list(tx.inputs) + Seq::<u8>::empty());
        lemma_p_ptr_list_at(b, pre, tx.inputs, Seq::<u8>::empty());
    }
    assert(i == b.len());
    assert(PlainTxV { inputs: tx.inputs } == tx);
}

#[verifier::rlimit(100)]
#[verifier::spinoff_prover]
proof fn lemma_ed_withdraw(no_of_outputs: u16, witness: TxWitnessV, payload: TxPayloadV)
    requires
        witness.wf(),
        payload.wf(),
    ensures
        decode_spec(
            encoding_of(
                TxAuxV::EnclaveTx(
                    TxEnclaveAuxV::WithdrawUnbondedStakeTx { no_of_outputs, witness, payload },
                ),
            ),
        ) == Option::Some(
            TxAuxV::EnclaveTx(
                TxEnclaveAuxV::WithdrawUnbondedStakeTx { no_of_outputs, witness, payload },
            ),
        ),
{
    let b = encoding_of(
        TxAuxV::EnclaveTx(
            TxEnclaveAuxV::WithdrawUnbondedStakeTx { no_of_outputs, witness, payload },
        ),
    );
    let pre = seq![0u8, 2u8];
    assert(b[0] == 0 && b[1] == 2);
    assert(p_u16(b, 2) == Option::Some((no_of_outputs, 4int))) by {
        assert(b =~= pre + le16_of(no_of_outputs) + (enc_witness(witness) + payload.txid));
        lemma_p_u16_at(b, pre, no_of_outputs, enc_witness(witness) + payload.txid);
    }
    assert(p_witness(b, 4) == Option::Some((witness, 69int))) by {
        assert(b =~= (pre + le16_of(no_of_outputs)) + enc_witness(witness) + payload.txid);
        lemma_p_witness_at(b, pre + le16_of(no_of_outputs), witness, payload.txid);
    }
    assert(p_arr(b, 69, 32) == Option::Some((payload.txid, 101int))) by {
        assert(b =~= ((pre + le16_of(no_of_outputs)) + enc_witness(witness)) + payload.txid
            + Seq::<u8>::empty());
        lemma_p_arr_at(
            b,
            (pre + le16_of(no_of_outputs)) + enc_witness(witness),
            payload.txid,
            Seq::<u8>::empty(),
        );
    }
    assert(b.len() == 101);
    assert(TxPayloadV { txid: payload.txid } == payload);
}

#[verifier::rlimit(100)]
#[verifier::spinoff_prover]
proof fn lemma_ed_unbond(t: UnbondTxV, w: TxWitnessV)
    requires
        t.wf(),
        w.wf(),
    ensures
        decode_spec(encoding_of(TxAuxV::PublicTx(TxPublicAuxV::UnbondStakeTx(t, w))))
            == Option::Some(TxAuxV::PublicTx(TxPublicAuxV::UnbondStakeTx(t, w))),
{
    let b = encoding_of(TxAuxV::PublicTx(TxPublicAuxV::UnbondStakeTx(t, w)));
    let pre = seq![1u8, 0u8];
    assert(b[0] == 1 && b[1] == 0);
    assert(p_arr(b, 2, 20) == Option::Some((t.from_staked_account, 22int))) by {
        assert(b =~= pre + t.from_staked_account + enc_witness(w));
        lemma_p_arr_at(b, pre, t.from_staked_account, enc_witness(w));
    }
    assert(p_witness(b, 22) == Option::Some((w, 87int))) by {
        assert(b =~= (pre + t.from_staked_account) + enc_witness(w) + Seq::<u8>::empty());
        lemma_p_witness_at(b, pre + t.from_staked_account, w, Seq::<u8>::empty());
    }
    assert(b.len() == 87);
    assert(UnbondTxV { from_staked_account: t.from_staked_account } == t);
}

#[verifier::rlimit(100)]
#[verifier::spinoff_prover]
proof fn lemma_ed_nodejoin(t: NodeJoinRequestTxV, w: TxWitnessV)
    requires
        t.wf(),
        w.wf(),
    ensures
        decode_spec(encoding_of(TxAuxV::PublicTx(TxPublicAuxV::NodeJoinTx(t, w))))
            == Option::Some(TxAuxV::PublicTx(TxPublicAuxV::NodeJoinTx(t, w))),
{
    let b = encoding_of(TxAuxV::PublicTx(TxPublicAuxV::NodeJoinTx(t, w)));
    let pre = seq![1u8, 1u8];
    let j = 22 + enc_council(t.node_meta).len() as int;
    assert(b[0] == 1 && b[1] == 1);
    assert(p_arr(b, 2, 20) == Option::Some((t.address, 22int))) by {
        assert(b =~= pre + t.address + (enc_council(t.node_meta) + enc_witness(w)));
        lemma_p_arr_at(b, pre, t.address, enc_council(t.node_meta) + enc_witness(w));
    }
    assert(p_council(b, 22) == Option::Some((t.node_meta, j))) by {
        assert(b =~= (pre + t.address) + enc_council(t.node_meta) + enc_witness(w));
        lemma_p_council_at(b, pre + t.address, t.node_meta, enc_witness(w));
    }
    assert(p_witness(b, j) == Option::Some((w, j + 65))) by {
        assert(b =~= ((pre + t.address) + enc_council(t.node_meta)) + enc_witness(w)
            + Seq::<u8>::empty());
        lemma_p_witness_at(
            b,
            (pre + t.address) + enc_council(t.node_meta),
            w,
            Seq::<u8>::empty(),
        );
    }
    assert(j + 65 == b.len());
    assert(NodeJoinRequestTxV { address: t.address, node_meta: t.node_meta } == t);
}

#[verifier::rlimit(100)]
#[verifier::spinoff_prover]
proof fn lemma_ed_unjail(t: UnjailTxV, w: TxWitnessV)
    requires
        t.wf(),
        w.wf(),
    ensures
        decode_spec(encoding_of(TxAuxV::PublicTx(TxPublicAuxV::UnjailTx(t, w))))
            == Option::Some(TxAuxV::PublicTx(TxPublicAuxV::UnjailTx(t, w))),
{
    let b = encoding_of(TxAuxV::PublicTx(TxPublicAuxV::UnjailTx(t, w)));
    let pre = seq![1u8, 2u8];
    assert(b[0] == 1 && b[1] == 2);
    assert(p_arr(b, 2, 20) == Option::Some((t.address, 22int))) by {
        assert(b =~= pre + t.address + enc_witness(w));
        lemma_p_arr_at(b, pre, t.address, enc_witness(w));
    }
    assert(p_witness(b, 22) == Option::Some((w, 87int))) by {
        assert(b =~= (pre + t.address) + enc_witness(w) + Seq::<u8>::empty());
        lemma_p_witness_at(b, pre + t.address, w, Seq::<u8>::empty());
    }
    assert(b.len() == 87);
    assert(UnjailTxV { address: t.address } == t);
}

/// Completeness of decoding: the encoding of every well-formed transaction
/// decodes, and decodes back to that same transaction.
pub proof fn lemma_encode_decode(tv: TxAuxV)
    requires
        tv.wf(),
    ensures
        decode_spec(encoding_of(tv)) == Option::Some(tv),
{
    match tv {
        TxAuxV::EnclaveTx(e) => match e {
            TxEnclaveAuxV::TransferTx { inputs, no_of_outputs } => {
                lemma_ed_transfer(inputs, no_of_outputs);
            },
            TxEnclaveAuxV::DepositStakeTx { tx } => {
                lemma_ed_deposit(tx);
            },
            TxEnclaveAuxV::WithdrawUnbondedStakeTx { no_of_outputs, witness, payload } => {
                lemma_ed_withdraw(no_of_outputs, witness, payload);
            },
        },
        TxAuxV::PublicTx(p) => match p {
            TxPublicAuxV::UnbondStakeTx(t, w) => {
                lemma_ed_unbond(t, w);
            },
            TxPublicAuxV::NodeJoinTx(t, w) => {
                lemma_ed_nodejoin(t, w);
            },
            TxPublicAuxV::UnjailTx(t, w) => {
                lemma_ed_unjail(t, w);
            },
        },
    }
}

/// A buffer that is the encoding of no well-formed transaction decodes to
/// nothing: it is rejected, never coerced into a default.
pub proof fn lemma_reject_unencodable(b: Seq<u8>)
    requires
        forall|tv: TxAuxV| tv.wf() ==> #[trigger] encoding_of(tv) != b,
    ensures
        decode_spec(b) is None,
{
    match decode_spec(b) {
        Option::Some(tv) => {
            lemma_decode_sound(b);
        },
        Option::None => {},
    }
}

/// No two well-formed transactions share an encoding.
pub proof fn lemma_encoding_injective(t1: TxAuxV, t2: TxAuxV)
    requires
        t1.wf(),
        t2.wf(),
        encoding_of(t1) == encoding_of(t2),
    ensures
        t1 == t2,
{
    lemma_encode_decode(t1);
    lemma_encode_decode(t2);
}

} // verus!
