use vstd::prelude::*;

verus! {

// ---------------------------------------------------------------------------
// The transaction model: a closed tagged union of six kinds, grouped into the
// enclave family (confidential payloads) and the public family (direct
// stake-state operations).  Each executable type has a ghost mirror holding
// sequences in place of vectors; contracts are stated over the mirrors.
// ---------------------------------------------------------------------------

/// A reference to a previously created transaction output: the 32-byte
/// identifier of the transaction that produced it and the position of the
/// output within it.
pub struct TxoPointer {
    pub id: Vec<u8>,
    pub index: u16,
}

pub ghost struct TxoPointerV {
    pub id: Seq<u8>,
    pub index: u16,
}

impl DeepView for TxoPointer {
    type V = TxoPointerV;

    open spec fn deep_view(&self) -> TxoPointerV {
        TxoPointerV { id: self.id@, index: self.index }
    }
}

impl TxoPointerV {
    pub open spec fn wf(self) -> bool {
        self.id.len() == 32
    }
}

/// The plain sub-transaction wrapped by a deposit: it carries the spent
/// output references of the deposit.
pub struct PlainTx {
    pub inputs: Vec<TxoPointer>,
}

pub ghost struct PlainTxV {
    pub inputs: Seq<TxoPointerV>,
}

impl DeepView for PlainTx {
    type V = PlainTxV;

    open spec fn deep_view(&self) -> PlainTxV {
        PlainTxV { inputs: self.inputs.deep_view() }
    }
}

impl PlainTxV {
    pub open spec fn wf(self) -> bool {
        &&& self.inputs.len() <= 0xFFFF_FFFF
        &&& forall|i: int| 0 <= i < self.inputs.len() ==> #[trigger] self.inputs[i].wf()
    }
}

/// A recoverable signature: a recovery identifier and a 64-byte compact
/// signature body.  The signer's address is not stored; it is derived from
/// this witness and a message digest.
pub struct TxWitness {
    pub recid: u8,
    pub sig: Vec<u8>,
}

pub ghost struct TxWitnessV {
    pub recid: u8,
    pub sig: Seq<u8>,
}

impl DeepView for TxWitness {
    type V = TxWitnessV;

    open spec fn deep_view(&self) -> TxWitnessV {
        TxWitnessV { recid: self.recid, sig: self.sig@ }
    }
}

impl TxWitnessV {
    pub open spec fn wf(self) -> bool {
        &&& self.recid <= 3
        &&& self.sig.len() == 64
    }
}

/// The confidential payload of a withdraw transaction; only its transaction
/// identifier is interpreted here, as the digest the witness signed.
pub struct TxPayload {
    pub txid: Vec<u8>,
}

pub ghost struct TxPayloadV {
    pub txid: Seq<u8>,
}

impl DeepView for TxPayload {
    type V = TxPayloadV;

    open spec fn deep_view(&self) -> TxPayloadV {
        TxPayloadV { txid: self.txid@ }
    }
}

impl TxPayloadV {
    pub open spec fn wf(self) -> bool {
        self.txid.len() == 32
    }
}

/// An identifier of a staked account: a 20-byte address.
pub struct StakedStateAddress {
    pub bytes: Vec<u8>,
}

impl DeepView for StakedStateAddress {
    type V = Seq<u8>;

    open spec fn deep_view(&self) -> Seq<u8> {
        self.bytes@
    }
}

impl StakedStateAddress {
    pub open spec fn wf(&self) -> bool {
        self.bytes@.len() == 20
    }
}

/// Metadata of a council node: its name, an optional security contact and a
/// 32-byte consensus public key.
pub struct CouncilNode {
    pub name: Vec<u8>,
    pub security_contact: Option<Vec<u8>>,
    pub consensus_pubkey: Vec<u8>,
}

pub ghost struct CouncilNodeV {
    pub name: Seq<u8>,
    pub security_contact: Option<Seq<u8>>,
    pub consensus_pubkey: Seq<u8>,
}

impl DeepView for CouncilNode {
    type V = CouncilNodeV;

    open spec fn deep_view(&self) -> CouncilNodeV {
        CouncilNodeV {
            name: self.name@,
            security_contact: self.security_contact.deep_view(),
            consensus_pubkey: self.consensus_pubkey@,
        }
    }
}

impl CouncilNodeV {
    pub open spec fn wf(self) -> bool {
        &&& self.name.len() <= 0xFFFF_FFFF
        &&& (self.security_contact matches Some(c) ==> c.len() <= 0xFFFF_FFFF)
        &&& self.consensus_pubkey.len() == 32
    }
}

/// The enclave family: transactions whose payloads are meant for
/// confidential processing.
pub enum TxEnclaveAux {
    TransferTx { inputs: Vec<TxoPointer>, no_of_outputs: u16 },
    DepositStakeTx { tx: PlainTx },
    WithdrawUnbondedStakeTx { no_of_outputs: u16, witness: TxWitness, payload: TxPayload },
}

pub ghost enum TxEnclaveAuxV {
    TransferTx { inputs: Seq<TxoPointerV>, no_of_outputs: u16 },
    DepositStakeTx { tx: PlainTxV },
    WithdrawUnbondedStakeTx { no_of_outputs: u16, witness: TxWitnessV, payload: TxPayloadV },
}

impl DeepView for TxEnclaveAux {
    type V = TxEnclaveAuxV;

    open spec fn deep_view(&self) -> TxEnclaveAuxV {
        match self {
            TxEnclaveAux::TransferTx { inputs, no_of_outputs } => TxEnclaveAuxV::TransferTx {
                inputs: inputs.deep_view(),
                no_of_outputs: *no_of_outputs,
            },
            TxEnclaveAux::DepositStakeTx { tx } => TxEnclaveAuxV::DepositStakeTx {
                tx: tx.deep_view(),
            },
            TxEnclaveAux::WithdrawUnbondedStakeTx { no_of_outputs, witness, payload } => {
                TxEnclaveAuxV::WithdrawUnbondedStakeTx {
                    no_of_outputs: *no_of_outputs,
                    witness: witness.deep_view(),
                    payload: payload.deep_view(),
                }
            },
        }
    }
}

impl TxEnclaveAuxV {
    pub open spec fn wf(self) -> bool {
        match self {
            TxEnclaveAuxV::TransferTx { inputs, no_of_outputs } => {
                &&& inputs.len() <= 0xFFFF_FFFF
                &&& forall|i: int| 0 <= i < inputs.len() ==> #[trigger] inputs[i].wf()
            },
            TxEnclaveAuxV::DepositStakeTx { tx } => tx.wf(),
            TxEnclaveAuxV::WithdrawUnbondedStakeTx { no_of_outputs, witness, payload } => {
                &&& witness.wf()
                &&& payload.wf()
            },
        }
    }
}

/// An unbond transaction: the account being unbonded.
pub struct UnbondTx {
    pub from_staked_account: StakedStateAddress,
}

pub ghost struct UnbondTxV {
    pub from_staked_account: Seq<u8>,
}

impl DeepView for UnbondTx {
    type V = UnbondTxV;

    open spec fn deep_view(&self) -> UnbondTxV {
        UnbondTxV { from_staked_account: self.from_staked_account.deep_view() }
    }
}

impl UnbondTxV {
    pub open spec fn wf(self) -> bool {
        self.from_staked_account.len() == 20
    }
}

/// A node-join transaction: the joining account and its node metadata.
pub struct NodeJoinRequestTx {
    pub address: StakedStateAddress,
    pub node_meta: CouncilNode,
}

pub ghost struct NodeJoinRequestTxV {
    pub address: Seq<u8>,
    pub node_meta: CouncilNodeV,
}

impl DeepView for NodeJoinRequestTx {
    type V = NodeJoinRequestTxV;

    open spec fn deep_view(&self) -> NodeJoinRequestTxV {
        NodeJoinRequestTxV {
            address: self.address.deep_view(),
            node_meta: self.node_meta.deep_view(),
        }
    }
}

impl NodeJoinRequestTxV {
    pub open spec fn wf(self) -> bool {
        &&& self.address.len() == 20
        &&& self.node_meta.wf()
    }
}

/// An unjail transaction: the account being unjailed.
pub struct UnjailTx {
    pub address: StakedStateAddress,
}

pub ghost struct UnjailTxV {
    pub address: Seq<u8>,
}

impl DeepView for UnjailTx {
    type V = UnjailTxV;

    open spec fn deep_view(&self) -> UnjailTxV {
        UnjailTxV { address: self.address.deep_view() }
    }
}

impl UnjailTxV {
    pub open spec fn wf(self) -> bool {
        self.address.len() == 20
    }
}

/// The public family: transactions operating directly on stake state.  Each
/// carries the witness that authorized it.
pub enum TxPublicAux {
    UnbondStakeTx(UnbondTx, TxWitness),
    NodeJoinTx(NodeJoinRequestTx, TxWitness),
    UnjailTx(UnjailTx, TxWitness),
}

pub ghost enum TxPublicAuxV {
    UnbondStakeTx(UnbondTxV, TxWitnessV),
    NodeJoinTx(NodeJoinRequestTxV, TxWitnessV),
    UnjailTx(UnjailTxV, TxWitnessV),
}

impl DeepView for TxPublicAux {
    type V = TxPublicAuxV;

    open spec fn deep_view(&self) -> TxPublicAuxV {
        match self {
            TxPublicAux::UnbondStakeTx(t, w) => {
                TxPublicAuxV::UnbondStakeTx(t.deep_view(), w.deep_view())
            },
            TxPublicAux::NodeJoinTx(t, w) => {
                TxPublicAuxV::NodeJoinTx(t.deep_view(), w.deep_view())
            },
            TxPublicAux::UnjailTx(t, w) => TxPublicAuxV::UnjailTx(t.deep_view(), w.deep_view()),
        }
    }
}

impl TxPublicAuxV {
    pub open spec fn wf(self) -> bool {
        match self {
            TxPublicAuxV::UnbondStakeTx(t, w) => t.wf() && w.wf(),
            TxPublicAuxV::NodeJoinTx(t, w) => t.wf() && w.wf(),
            TxPublicAuxV::UnjailTx(t, w) => t.wf() && w.wf(),
        }
    }
}

/// The closed union of the six transaction kinds.
pub enum TxAux {
    EnclaveTx(TxEnclaveAux),
    PublicTx(TxPublicAux),
}

pub ghost enum TxAuxV {
    EnclaveTx(TxEnclaveAuxV),
    PublicTx(TxPublicAuxV),
}

impl DeepView for TxAux {
    type V = TxAuxV;

    open spec fn deep_view(&self) -> TxAuxV {
        match self {
            TxAux::EnclaveTx(t) => TxAuxV::EnclaveTx(t.deep_view()),
            TxAux::PublicTx(t) => TxAuxV::PublicTx(t.deep_view()),
        }
    }
}

impl TxAuxV {
    pub open spec fn wf(self) -> bool {
        match self {
            TxAuxV::EnclaveTx(t) => t.wf(),
            TxAuxV::PublicTx(t) => t.wf(),
        }
    }
}

impl TxAux {
    pub open spec fn wf(&self) -> bool {
        self.deep_view().wf()
    }
}

} // verus!
