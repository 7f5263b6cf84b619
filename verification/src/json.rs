use vstd::prelude::*;

use crate::summary::{DecodedTx, DecodedTxType, DecodedTxV};
use crate::tx::{CouncilNode, CouncilNodeV, TxoPointer, TxoPointerV};

verus! {

// ---------------------------------------------------------------------------
// The JSON form of a summary record, as bytes.  Field names are fixed; an
// absent field renders as null; byte strings render as lowercase hex, an
// address with a 0x prefix; counts render in decimal.  `json_of` defines the
// exact output; the writer is proved to produce it.
// ---------------------------------------------------------------------------

/// The lowercase hex digit of a value below sixteen.
pub open spec fn hexdig(n: int) -> u8 {
    if n < 10 {
        (48 + n) as u8
    } else {
        (87 + n) as u8
    }
}

/// The lowercase hex rendering of a byte sequence, two digits per byte.
pub open spec fn hex_of(s: Seq<u8>) -> Seq<u8>
    decreases s.len(),
{
    if s.len() == 0 {
        Seq::<u8>::empty()
    } else {
        seq![hexdig(s[0] as int / 16), hexdig(s[0] as int % 16)] + hex_of(s.drop_first())
    }
}

/// The decimal rendering of a nonnegative integer, without leading zeros.
pub open spec fn dec_of(n: int) -> Seq<u8>
    recommends
        0 <= n,
    decreases n,
{
    if n < 10 {
        seq![(48 + n) as u8]
    } else {
        dec_of(n / 10) + seq![(48 + n % 10) as u8]
    }
}

pub open spec fn lit_open_tag() -> Seq<u8> {
    seq![123u8, 34u8, 116u8, 120u8, 95u8, 116u8, 121u8, 112u8, 101u8, 34u8, 58u8, 34u8]
}

pub open spec fn lit_key_inputs() -> Seq<u8> {
    seq![34u8, 44u8, 34u8, 105u8, 110u8, 112u8, 117u8, 116u8, 115u8, 34u8, 58u8]
}

pub open spec fn lit_key_count() -> Seq<u8> {
    seq![
        44u8, 34u8, 111u8, 117u8, 116u8, 112u8, 117u8, 116u8, 95u8, 99u8, 111u8, 117u8, 110u8,
        116u8, 34u8, 58u8,
    ]
}

pub open spec fn lit_key_addr() -> Seq<u8> {
    seq![
        44u8, 34u8, 115u8, 116u8, 97u8, 107u8, 101u8, 100u8, 95u8, 115u8, 116u8, 97u8, 116u8,
        101u8, 95u8, 97u8, 100u8, 100u8, 114u8, 101u8, 115u8, 115u8, 34u8, 58u8,
    ]
}

pub open spec fn lit_key_meta() -> Seq<u8> {
    seq![
        44u8, 34u8, 99u8, 111u8, 117u8, 110u8, 99u8, 105u8, 108u8, 95u8, 110u8, 111u8, 100u8,
        101u8, 95u8, 109u8, 101u8, 116u8, 97u8, 34u8, 58u8,
    ]
}

pub open spec fn lit_null() -> Seq<u8> {
    seq![110u8, 117u8, 108u8, 108u8]
}

pub open spec fn lit_ptr_open() -> Seq<u8> {
    seq![123u8, 34u8, 105u8, 100u8, 34u8, 58u8, 34u8]
}

pub open spec fn lit_ptr_index() -> Seq<u8> {
    seq![34u8, 44u8, 34u8, 105u8, 110u8, 100u8, 101u8, 120u8, 34u8, 58u8]
}

pub open spec fn lit_addr_open() -> Seq<u8> {
    seq![34u8, 48u8, 120u8]
}

pub open spec fn lit_meta_open() -> Seq<u8> {
    seq![123u8, 34u8, 110u8, 97u8, 109u8, 101u8, 34u8, 58u8, 34u8]
}

pub open spec fn lit_meta_contact() -> Seq<u8> {
    seq![
        34u8, 44u8, 34u8, 115u8, 101u8, 99u8, 117u8, 114u8, 105u8, 116u8, 121u8, 95u8, 99u8,
        111u8, 110u8, 116u8, 97u8, 99u8, 116u8, 34u8, 58u8,
    ]
}

pub open spec fn lit_meta_pubkey() -> Seq<u8> {
    seq![
        44u8, 34u8, 99u8, 111u8, 110u8, 115u8, 101u8, 110u8, 115u8, 117u8, 115u8, 95u8, 112u8,
        117u8, 98u8, 107u8, 101u8, 121u8, 34u8, 58u8, 34u8,
    ]
}

/// The literal tag string of each of the six kinds.
pub open spec fn name_of(t: DecodedTxType) -> Seq<u8> {
    match t {
        DecodedTxType::Transfer => seq![84u8, 114u8, 97u8, 110u8, 115u8, 102u8, 101u8, 114u8],
        DecodedTxType::Deposit => seq![68u8, 101u8, 112u8, 111u8, 115u8, 105u8, 116u8],
        DecodedTxType::Unbond => seq![85u8, 110u8, 98u8, 111u8, 110u8, 100u8],
        DecodedTxType::Withdraw => seq![87u8, 105u8, 116u8, 104u8, 100u8, 114u8, 97u8, 119u8],
        DecodedTxType::NodeJoin => seq![78u8, 111u8, 100u8, 101u8, 74u8, 111u8, 105u8, 110u8],
        DecodedTxType::Unjail => seq![85u8, 110u8, 106u8, 97u8, 105u8, 108u8],
    }
}

/// One output reference as a JSON object.
pub open spec fn j_ptr(p: TxoPointerV) -> Seq<u8> {
    lit_ptr_open() + hex_of(p.id) + lit_ptr_index() + dec_of(p.index as int) + seq![125u8]
}

pub open spec fn j_rest(s: Seq<TxoPointerV>) -> Seq<u8>
    decreases s.len(),
{
    if s.len() == 0 {
        Seq::<u8>::empty()
    } else {
        seq![44u8] + j_ptr(s[0]) + j_rest(s.drop_first())
    }
}

pub open spec fn j_items(s: Seq<TxoPointerV>) -> Seq<u8> {
    if s.len() == 0 {
        Seq::<u8>::empty()
    } else {
        j_ptr(s[0]) + j_rest(s.drop_first())
    }
}

pub open spec fn j_inputs(o: Option<Seq<TxoPointerV>>) -> Seq<u8> {
    match o {
        Option::None => lit_null(),
        Option::Some(s) => seq![91u8] + j_items(s) + seq![93u8],
    }
}

pub open spec fn j_count(o: Option<u16>) -> Seq<u8> {
    match o {
        Option::None => lit_null(),
        Option::Some(n) => dec_of(n as int),
    }
}

pub open spec fn j_addr(o: Option<Seq<u8>>) -> Seq<u8> {
    match o {
        Option::None => lit_null(),
        Option::Some(a) => lit_addr_open() + hex_of(a) + seq![34u8],
    }
}

pub open spec fn j_contact(o: Option<Seq<u8>>) -> Seq<u8> {
    match o {
        Option::None => lit_null(),
        Option::Some(s) => seq![34u8] + hex_of(s) + seq![34u8],
    }
}

pub open spec fn j_meta(o: Option<CouncilNodeV>) -> Seq<u8> {
    match o {
        Option::None => lit_null(),
        Option::Some(c) => {
            lit_meta_open() + hex_of(c.name) + lit_meta_contact() + j_contact(c.security_contact)
                + lit_meta_pubkey() + hex_of(c.consensus_pubkey) + seq![34u8, 125u8]
        },
    }
}

/// The full JSON object of one summary record.
pub open spec fn json_of(d: DecodedTxV) -> Seq<u8> {
    lit_open_tag() + name_of(d.tx_type) + lit_key_inputs() + j_inputs(d.inputs) + lit_key_count()
        + j_count(d.output_count) + lit_key_addr() + j_addr(d.staked_state_address)
        + lit_key_meta() + j_meta(d.council_node_meta) + seq![125u8]
}

// ---------------------------------------------------------------------------
// The writer.
// ---------------------------------------------------------------------------

fn hexdig_e(n: u8) -> (r: u8)
    requires
        n < 16,
    ensures
        r == hexdig(n as int),
{
    if n < 10 {
        48 + n
    } else {
        87 + n
    }
}

fn w_hex(out: &mut Vec<u8>, v: &Vec<u8>, k: usize)
    requires
        k <= v@.len(),
    ensures
        final(out)@ == old(out)@ + hex_of(v@.skip(k as int)),
    decreases v@.len() - k,
{
    if k == v.len() {
        proof {
            assert(v@.skip(k as int) =~= Seq::<u8>::empty());
            assert(out@ =~= old(out)@ + hex_of(v@.skip(k as int)));
        }
        return;
    }
    let x: u8 = v[k];
    out.push(hexdig_e(x / 16));
    out.push(hexdig_e(x % 16));
    w_hex(out, v, k + 1);
    proof {
        assert(v@.skip(k as int).drop_first() =~= v@.skip(k + 1));
        assert(v@.skip(k as int)[0] == v@[k as int]);
        assert(out@ =~= old(out)@ + hex_of(v@.skip(k as int)));
    }
}

fn w_dec(out: &mut Vec<u8>, n: u16)
    ensures
        final(out)@ == old(out)@ + dec_of(n as int),
    decreases n,
{
    if n < 10 {
        out.push(48 + (n as u8));
        proof {
            assert(out@ =~= old(out)@ + dec_of(n as int));
        }
        return;
    }
    w_dec(out, n / 10);
    out.push(48 + ((n % 10) as u8));
    proof {
        assert(out@ =~= old(out)@ + dec_of(n as int));
    }
}

fn w_name(out: &mut Vec<u8>, t: DecodedTxType)
    ensures
        final(out)@ == old(out)@ + name_of(t),
{
    match t {
        DecodedTxType::Transfer => {
            out.push(84);
            out.push(114);
            out.push(97);
            out.push(110);
            out.push(115);
            out.push(102);
            out.push(101);
            out.push(114);
        },
        DecodedTxType::Deposit => {
            out.push(68);
            out.push(101);
            out.push(112);
            out.push(111);
            out.push(115);
            out.push(105);
            out.push(116);
        },
        DecodedTxType::Unbond => {
            out.push(85);
            out.push(110);
            out.push(98);
            out.push(111);
            out.push(110);
            out.push(100);
        },
        DecodedTxType::Withdraw => {
            out.push(87);
            out.push(105);
            out.push(116);
            out.push(104);
            out.push(100);
            out.push(114);
            out.push(97);
            out.push(119);
        },
        DecodedTxType::NodeJoin => {
            out.push(78);
            out.push(111);
            out.push(100);
            out.push(101);
            out.push(74);
            out.push(111);
            out.push(105);
            out.push(110);
        },
        DecodedTxType::Unjail => {
            out.push(85);
            out.push(110);
            out.push(106);
            out.push(97);
            out.push(105);
            out.push(108);
        },
    }
    proof {
        assert(out@ =~= old(out)@ + name_of(t));
    }
}

fn w_null(out: &mut Vec<u8>)
    ensures
        final(out)@ == old(out)@ + lit_null(),
{
    out.push(110);
    out.push(117);
    out.push(108);
    out.push(108);
    proof {
        assert(out@ =~= old(out)@ + lit_null());
    }
}

fn w_open_tag(out: &mut Vec<u8>)
    ensures
        final(out)@ == old(out)@ + lit_open_tag(),
{
    out.push(123);
    out.push(34);
    out.push(116);
    out.push(120);
    out.push(95);
    out.push(116);
    out.push(121);
    out.push(112);
    out.push(101);
    out.push(34);
    out.push(58);
    out.push(34);
    proof {
        assert(out@ =~= old(out)@ + lit_open_tag());
    }
}

fn w_key_inputs(out: &mut Vec<u8>)
    ensures
        final(out)@ == old(out)@ + lit_key_inputs(),
{
    out.push(34);
    out.push(44);
    out.push(34);
    out.push(105);
    out.push(110);
    out.push(112);
    out.push(117);
    out.push(116);
    out.push(115);
    out.push(34);
    out.push(58);
    proof {
        assert(out@ =~= old(out)@ + lit_key_inputs());
    }
}

fn w_key_count(out: &mut Vec<u8>)
    ensures
        final(out)@ == old(out)@ + lit_key_count(),
{
    out.push(44);
    out.push(34);
    out.push(111);
    out.push(117);
    out.push(116);
    out.push(112);
    out.push(117);
    out.push(116);
    out.push(95);
    out.push(99);
    out.push(111);
    out.push(117);
    out.push(110);
    out.push(116);
    out.push(34);
    out.push(58);
    proof {
        assert(out@ =~= old(out)@ + lit_key_count());
    }
}

fn w_key_addr(out: &mut Vec<u8>)
    ensures
        final(out)@ == old(out)@ + lit_key_addr(),
{
    out.push(44);
    out.push(34);
    out.push(115);
    out.push(116);
    out.push(97);
    out.push(107);
    out.push(101);
    out.push(100);
    out.push(95);
    out.push(115);
    out.push(116);
    out.push(97);
    out.push(116);
    out.push(101);
    out.push(95);
    out.push(97);
    out.push(100);
    out.push(100);
    out.push(114);
    out.push(101);
    out.push(115);
    out.push(115);
    out.push(34);
    out.push(58);
    proof {
        assert(out@ =~= old(out)@ + lit_key_addr());
    }
}

fn w_key_meta(out: &mut Vec<u8>)
    ensures
        final(out)@ == old(out)@ + lit_key_meta(),
{
    out.push(44);
    out.push(34);
    out.push(99);
    out.push(111);
    out.push(117);
    out.push(110);
    out.push(99);
    out.push(105);
    out.push(108);
    out.push(95);
    out.push(110);
    out.push(111);
    out.push(100);
    out.push(101);
    out.push(95);
    out.push(109);
    out.push(101);
    out.push(116);
    out.push(97);
    out.push(34);
    out.push(58);
    proof {
        assert(out@ =~= old(out)@ + lit_key_meta());
    }
}

fn w_ptr_open(out: &mut Vec<u8>)
    ensures
        final(out)@ == old(out)@ + lit_ptr_open(),
{
    out.push(123);
    out.push(34);
    out.push(105);
    out.push(100);
    out.push(34);
    out.push(58);
    out.push(34);
    proof {
        assert(out@ =~= old(out)@ + lit_ptr_open());
    }
}

fn w_ptr_index(out: &mut Vec<u8>)
    ensures
        final(out)@ == old(out)@ + lit_ptr_index(),
{
    out.push(34);
    out.push(44);
    out.push(34);
    out.push(105);
    out.push(110);
    out.push(100);
    out.push(101);
    out.push(120);
    out.push(34);
    out.push(58);
    proof {
        assert(out@ =~= old(out)@ + lit_ptr_index());
    }
}

fn w_meta_open(out: &mut Vec<u8>)
    ensures
        final(out)@ == old(out)@ + lit_meta_open(),
{
    out.push(123);
    out.push(34);
    out.push(110);
    out.push(97);
    out.push(109);
    out.push(101);
    out.push(34);
    out.push(58);
    out.push(34);
    proof {
        assert(out@ =~= old(out)@ + lit_meta_open());
    }
}

fn w_meta_contact(out: &mut Vec<u8>)
    ensures
        final(out)@ == old(out)@ + lit_meta_contact(),
{
    out.push(34);
    out.push(44);
    out.push(34);
    out.push(115);
    out.push(101);
    out.push(99);
    out.push(117);
    out.push(114);
    out.push(105);
    out.push(116);
    out.push(121);
    out.push(95);
    out.push(99);
    out.push(111);
    out.push(110);
    out.push(116);
    out.push(97);
    out.push(99);
    out.push(116);
    out.push(34);
    out.push(58);
    proof {
        assert(out@ =~= old(out)@ + lit_meta_contact());
    }
}

fn w_meta_pubkey(out: &mut Vec<u8>)
    ensures
        final(out)@ == old(out)@ + lit_meta_pubkey(),
{
    out.push(44);
    out.push(34);
    out.push(99);
    out.push(111);
    out.push(110);
    out.push(115);
    out.push(101);
    out.push(110);
    out.push(115);
    out.push(117);
    out.push(115);
    out.push(95);
    out.push(112);
    out.push(117);
    out.push(98);
    out.push(107);
    out.push(101);
    out.push(121);
    out.push(34);
    out.push(58);
    out.push(34);
    proof {
        assert(out@ =~= old(out)@ + lit_meta_pubkey());
    }
}

fn w_ptr(out: &mut Vec<u8>, p: &TxoPointer)
    ensures
        final(out)@ == old(out)@ + j_ptr(p.deep_view()),
{
    w_ptr_open(out);
    w_hex(out, &p.id, 0);
    w_ptr_index(out);
    w_dec(out, p.index);
    out.push(125);
    proof {
        assert(p.id@.skip(0) =~= p.id@);
        assert(out@ =~= old(out)@ + j_ptr(p.deep_view()));
    }
}

fn w_rest(out: &mut Vec<u8>, s: &Vec<TxoPointer>, k: usize)
    requires
        k <= s@.len(),
    ensures
        final(out)@ == old(out)@ + j_rest(s.deep_view().skip(k as int)),
    decreases s@.len() - k,
{
    if k == s.len() {
        proof {
            assert(s.deep_view().skip(k as int) =~= Seq::<TxoPointerV>::empty());
            assert(out@ =~= old(out)@ + j_rest(s.deep_view().skip(k as int)));
        }
        return;
    }
    out.push(44);
    w_ptr(out, &s[k]);
    w_rest(out, s, k + 1);
    proof {
        let sv = s.deep_view();
        assert(sv.skip(k as int)[0] == sv[k as int]);
        assert(sv.skip(k as int).drop_first() =~= sv.skip(k + 1));
        assert(out@ =~= old(out)@ + j_rest(sv.skip(k as int)));
    }
}

fn w_inputs(out: &mut Vec<u8>, o: &Option<Vec<TxoPointer>>)
    ensures
        final(out)@ == old(out)@ + j_inputs(o.deep_view()),
{
    match o {
        None => {
            w_null(out);
        },
        Some(s) => {
            out.push(91);
            if s.len() > 0 {
                w_ptr(out, &s[0]);
                w_rest(out, s, 1);
            }
            out.push(93);
            proof {
                let sv = s.deep_view();
                if sv.len() > 0 {
                    assert(sv.drop_first() =~= sv.skip(1));
                }
            }
        },
    }
    proof {
        assert(out@ =~= old(out)@ + j_inputs(o.deep_view()));
    }
}

fn w_count(out: &mut Vec<u8>, o: Option<u16>)
    ensures
        final(out)@ == old(out)@ + j_count(o),
{
    match o {
        None => {
            w_null(out);
        },
        Some(n) => {
            w_dec(out, n);
        },
    }
    proof {
        assert(out@ =~= old(out)@ + j_count(o));
    }
}

fn w_addr(out: &mut Vec<u8>, o: &Option<crate::tx::StakedStateAddress>)
    ensures
        final(out)@ == old(out)@ + j_addr(o.deep_view()),
{
    match o {
        None => {
            w_null(out);
        },
        Some(a) => {
            out.push(34);
            out.push(48);
            out.push(120);
            w_hex(out, &a.bytes, 0);
            out.push(34);
            proof {
                assert(a.bytes@.skip(0) =~= a.bytes@);
            }
        },
    }
    proof {
        assert(out@ =~= old(out)@ + j_addr(o.deep_view()));
    }
}

fn w_contact(out: &mut Vec<u8>, o: &Option<Vec<u8>>)
    ensures
        final(out)@ == old(out)@ + j_contact(o.deep_view()),
{
    match o {
        None => {
            w_null(out);
        },
        Some(s) => {
            out.push(34);
            w_hex(out, s, 0);
            out.push(34);
            proof {
                assert(s@.skip(0) =~= s@);
                assert(s.deep_view() =~= s@);
            }
        },
    }
    proof {
        assert(out@ =~= old(out)@ + j_contact(o.deep_view()));
    }
}

fn w_meta(out: &mut Vec<u8>, o: &Option<CouncilNode>)
    ensures
        final(out)@ == old(out)@ + j_meta(o.deep_view()),
{
    match o {
        None => {
            w_null(out);
        },
        Some(c) => {
            w_meta_open(out);
            w_hex(out, &c.name, 0);
            w_meta_contact(out);
            w_contact(out, &c.security_contact);
            w_meta_pubkey(out);
            w_hex(out, &c.consensus_pubkey, 0);
            out.push(34);
            out.push(125);
            proof {
                assert(c.name@.skip(0) =~= c.name@);
                assert(c.consensus_pubkey@.skip(0) =~= c.consensus_pubkey@);
            }
        },
    }
    proof {
        assert(out@ =~= old(out)@ + j_meta(o.deep_view()));
    }
}

/// Renders one summary record as its JSON object.  The output is a function
/// of the record alone: rendering the same record always yields the same
/// bytes.
pub fn render_json(d: &DecodedTx) -> (r: Vec<u8>)
    ensures
        r@ == json_of(d.deep_view()),
{
    let mut out: Vec<u8> = Vec::new();
    w_open_tag(&mut out);
    w_name(&mut out, d.tx_type);
    w_key_inputs(&mut out);
    w_inputs(&mut out, &d.inputs);
    w_key_count(&mut out);
    w_count(&mut out, d.output_count);
    w_key_addr(&mut out);
    w_addr(&mut out, &d.staked_state_address);
    w_key_meta(&mut out);
    w_meta(&mut out, &d.council_node_meta);
    out.push(125);
    proof {
        assert(out@ =~= json_of(d.deep_view()));
    }
    out
}

} // verus!
