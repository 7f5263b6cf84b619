use vstd::prelude::*;

use crate::recover::{recover_address, recovered_address};
use crate::tx::{
    CouncilNode, CouncilNodeV, StakedStateAddress, TxAux, TxAuxV, TxEnclaveAux, TxEnclaveAuxV,
    TxPublicAux, TxPublicAuxV, TxoPointer, TxoPointerV,
};
use crate::DecodeError;

verus! {

// ---------------------------------------------------------------------------
// The summary record: one normalized shape for all six transaction kinds,
// with explicit absence for every field a kind does not have.
// ---------------------------------------------------------------------------

/// The six literal variant tags of the transaction union.
#[derive(Clone, Copy, Debug, PartialEq, Eq, Structural)]
pub enum DecodedTxType {
    Transfer,
    Deposit,
    Unbond,
    Withdraw,
    NodeJoin,
    Unjail,
}

/// The normalized summary of one transaction: the tag is always present, and
/// each other field is present exactly for the kinds that have it.
pub struct DecodedTx {
    pub tx_type: DecodedTxType,
    pub inputs: Option<Vec<TxoPointer>>,
    pub output_count: Option<u16>,
    pub staked_state_address: Option<StakedStateAddress>,
    pub council_node_meta: Option<CouncilNode>,
}

pub ghost struct DecodedTxV {
    pub tx_type: DecodedTxType,
    pub inputs: Option<Seq<TxoPointerV>>,
    pub output_count: Option<u16>,
    pub staked_state_address: Option<Seq<u8>>,
    pub council_node_meta: Option<CouncilNodeV>,
}

impl DeepView for DecodedTx {
    type V = DecodedTxV;

    open spec fn deep_view(&self) -> DecodedTxV {
        DecodedTxV {
            tx_type: self.tx_type,
            inputs: self.inputs.deep_view(),
            output_count: self.output_count,
            staked_state_address: self.staked_state_address.deep_view(),
            council_node_meta: self.council_node_meta.deep_view(),
        }
    }
}

/// The variant tag of a transaction.
pub open spec fn tx_kind(t: TxAuxV) -> DecodedTxType {
    match t {
        TxAuxV::EnclaveTx(e) => match e {
            TxEnclaveAuxV::TransferTx { .. } => DecodedTxType::Transfer,
            TxEnclaveAuxV::DepositStakeTx { .. } => DecodedTxType::Deposit,
            TxEnclaveAuxV::WithdrawUnbondedStakeTx { .. } => DecodedTxType::Withdraw,
        },
        TxAuxV::PublicTx(p) => match p {
            TxPublicAuxV::UnbondStakeTx(..) => DecodedTxType::Unbond,
            TxPublicAuxV::NodeJoinTx(..) => DecodedTxType::NodeJoin,
            TxPublicAuxV::UnjailTx(..) => DecodedTxType::Unjail,
        },
    }
}

/// Whether summarization can succeed: only a withdraw transaction whose
/// witness yields no recoverable address is refused.
pub open spec fn recovery_ok(t: TxAuxV) -> bool {
    match t {
        TxAuxV::EnclaveTx(TxEnclaveAuxV::WithdrawUnbondedStakeTx { witness, payload, .. }) => {
            recovered_address(witness.sig, witness.recid, payload.txid) is Some
        },
        _ => true,
    }
}

/// The summary of a transaction: the projection of each kind's fixed field
/// subset, with the withdraw address derived from its witness.
pub open spec fn summary_of(t: TxAuxV) -> DecodedTxV {
    match t {
        TxAuxV::EnclaveTx(e) => match e {
            TxEnclaveAuxV::TransferTx { inputs, no_of_outputs } => (DecodedTxV {
                tx_type: DecodedTxType::Transfer,
                inputs: Option::Some(inputs),
                output_count: Option::Some(no_of_outputs),
                staked_state_address: Option::None,
                council_node_meta: Option::None,
            }),
            TxEnclaveAuxV::DepositStakeTx { tx } => (DecodedTxV {
                tx_type: DecodedTxType::Deposit,
                inputs: Option::Some(tx.inputs),
                output_count: Option::None,
                staked_state_address: Option::None,
                council_node_meta: Option::None,
            }),
            TxEnclaveAuxV::WithdrawUnbondedStakeTx { no_of_outputs, witness, payload } => {
                (DecodedTxV {
                    tx_type: DecodedTxType::Withdraw,
                    inputs: Option::None,
                    output_count: Option::Some(no_of_outputs),
                    staked_state_address: recovered_address(
                        witness.sig,
                        witness.recid,
                        payload.txid,
                    ),
                    council_node_meta: Option::None,
                })
            },
        },
        TxAuxV::PublicTx(p) => match p {
            TxPublicAuxV::UnbondStakeTx(u, w) => (DecodedTxV {
                tx_type: DecodedTxType::Unbond,
                inputs: Option::None,
                output_count: Option::None,
                staked_state_address: Option::Some(u.from_staked_account),
                council_node_meta: Option::None,
            }),
            TxPublicAuxV::NodeJoinTx(n, w) => (DecodedTxV {
                tx_type: DecodedTxType::NodeJoin,
                inputs: Option::None,
                output_count: Option::None,
                staked_state_address: Option::Some(n.address),
                council_node_meta: Option::Some(n.node_meta),
            }),
            TxPublicAuxV::UnjailTx(u, w) => (DecodedTxV {
                tx_type: DecodedTxType::Unjail,
                inputs: Option::None,
                output_count: Option::None,
                staked_state_address: Option::Some(u.address),
                council_node_meta: Option::None,
            }),
        },
    }
}

/// Summarizes one decoded transaction: an exhaustive match over the closed
/// set of six kinds.  Only a withdraw whose witness yields no recoverable
/// address fails; every other transaction is summarized unconditionally.
pub fn decoded_tx_from_tx_aux(tx_aux: TxAux) -> (r: Result<DecodedTx, DecodeError>)
    requires
        tx_aux.wf(),
    ensures
        recovery_ok(tx_aux.deep_view()) ==> (r matches Ok(d) && d.deep_view() == summary_of(
            tx_aux.deep_view(),
        )),
        !recovery_ok(tx_aux.deep_view()) ==> r == Err::<DecodedTx, DecodeError>(
            DecodeError::RecoveryFailed,
        ),
{
    match tx_aux {
        TxAux::EnclaveTx(e) => match e {
            TxEnclaveAux::TransferTx { inputs, no_of_outputs } => {
                Ok(DecodedTx {
                    tx_type: DecodedTxType::Transfer,
                    inputs: Some(inputs),
                    output_count: Some(no_of_outputs),
                    staked_state_address: None,
                    council_node_meta: None,
                })
            },
            TxEnclaveAux::DepositStakeTx { tx } => {
                Ok(DecodedTx {
                    tx_type: DecodedTxType::Deposit,
                    inputs: Some(tx.inputs),
                    output_count: None,
                    staked_state_address: None,
                    council_node_meta: None,
                })
            },
            TxEnclaveAux::WithdrawUnbondedStakeTx { no_of_outputs, witness, payload } => {
                match recover_address(&witness, &payload.txid) {
                    Some(a) => Ok(DecodedTx {
                        tx_type: DecodedTxType::Withdraw,
                        inputs: None,
                        output_count: Some(no_of_outputs),
                        staked_state_address: Some(a),
                        council_node_meta: None,
                    }),
                    None => Err(DecodeError::RecoveryFailed),
                }
            },
        },
        TxAux::PublicTx(p) => match p {
            TxPublicAux::UnbondStakeTx(u, w) => {
                Ok(DecodedTx {
                    tx_type: DecodedTxType::Unbond,
                    inputs: None,
                    output_count: None,
                    staked_state_address: Some(u.from_staked_account),
                    council_node_meta: None,
                })
            },
            TxPublicAux::NodeJoinTx(n, w) => {
                Ok(DecodedTx {
                    tx_type: DecodedTxType::NodeJoin,
                    inputs: None,
                    output_count: None,
                    staked_state_address: Some(n.address),
                    council_node_meta: Some(n.node_meta),
                })
            },
            TxPublicAux::UnjailTx(u, w) => {
                Ok(DecodedTx {
                    tx_type: DecodedTxType::Unjail,
                    inputs: None,
                    output_count: None,
                    staked_state_address: Some(u.address),
                    council_node_meta: None,
                })
            },
        },
    }
}

/// The presence law: which of the four optional fields a summary holds is a
/// fixed function of the transaction's tag — inputs exactly for transfers and
/// deposits, an output count exactly for transfers and withdraws, an address
/// exactly for withdraws, unbonds, node joins and unjails, and node metadata
/// exactly for node joins.
pub proof fn lemma_field_presence(t: TxAuxV)
    requires
        recovery_ok(t),
    ensures
        summary_of(t).tx_type == tx_kind(t),
        (summary_of(t).inputs is Some) <==> (tx_kind(t) == DecodedTxType::Transfer || tx_kind(t)
            == DecodedTxType::Deposit),
        (summary_of(t).output_count is Some) <==> (tx_kind(t) == DecodedTxType::Transfer
            || tx_kind(t) == DecodedTxType::Withdraw),
        (summary_of(t).staked_state_address is Some) <==> (tx_kind(t) == DecodedTxType::Withdraw
            || tx_kind(t) == DecodedTxType::Unbond || tx_kind(t) == DecodedTxType::NodeJoin
            || tx_kind(t) == DecodedTxType::Unjail),
        (summary_of(t).council_node_meta is Some) <==> tx_kind(t) == DecodedTxType::NodeJoin,
{
}

} // verus!

