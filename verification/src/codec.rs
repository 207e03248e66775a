//! The operation codec: from a selector and calldata to a typed governance
//! operation.

use vstd::prelude::*;
use crate::abi::abi_decoded;
use crate::abi::decode_params;
use crate::abi::token_values;
use crate::abi::truncate_uint;
use crate::abi::truncated_u64;
use crate::abi::AbiToken;
use crate::abi::AbiValue;
use crate::abi::ParamKind;
use crate::bytes::array_eq;
use crate::bytes::array_from_vec;
use crate::bytes::vec_eq;
use crate::bytes::array_of;
use crate::bytes::lemma_array_of;
use crate::bytes::vec_copy;
use crate::bytes::EthAddress;
use crate::bytes::LedgerAddress;
use crate::bytes::ProtocolId;
use crate::error::GovError;

verus! {

pub const ADD_ALLOWED_PROTOCOL: u32 = 0x45a004b9;

pub const ADD_ALLOWED_PROTOCOL_ADDRESS: u32 = 0xd296a0ff;

pub const REMOVE_ALLOWED_PROTOCOL_ADDRESS: u32 = 0xb0a4ca98;

pub const ADD_ALLOWED_PROPOSER_ADDRESS: u32 = 0xce0940a5;

pub const REMOVE_ALLOWED_PROPOSER_ADDRESS: u32 = 0xb8e5f3f4;

pub const ADD_EXECUTOR: u32 = 0xe0aafb68;

pub const REMOVE_EXECUTOR: u32 = 0x04fa384a;

pub const ADD_KEEPER: u32 = 0xa8da4c51;

pub const REMOVE_KEEPER: u32 = 0x80936851;

pub const SET_CONSENSUS_TARGET_RATE: u32 = 0x970b6109;

pub const SET_PROTOCOL_FEE: u32 = 0xafe50cc2;

/// An operation as it travels: a selector and the calldata that goes with it.
#[derive(Clone, Debug, PartialEq, Eq)]
pub struct OperationData {
    pub function_selector: [u8; 4],
    pub params: Vec<u8>,
}

/// The mathematical value of an [`OperationData`].
pub struct OperationDataView {
    pub function_selector: [u8; 4],
    pub params: Seq<u8>,
}

impl View for OperationData {
    type V = OperationDataView;

    open spec fn view(&self) -> OperationDataView {
        OperationDataView { function_selector: self.function_selector, params: self.params@ }
    }
}

/// The canonical encoding of an operation, over which keepers sign and from
/// which its fingerprint is taken: the selector, then the calldata.
pub open spec fn canonical_encoding(data: OperationDataView) -> Seq<u8> {
    data.function_selector@ + data.params
}

impl OperationData {
    /// The canonical encoding of the operation.
    pub fn canonical_bytes(&self) -> (r: Vec<u8>)
        ensures
            r@ == canonical_encoding(self@),
    {
        let mut out: Vec<u8> = Vec::new();
        let mut i: usize = 0;
        while i < 4
            invariant
                i <= 4,
                out@ == self.function_selector@.take(i as int),
            decreases 4 - i,
        {
            out.push(self.function_selector[i]);
            i += 1;
            assert(out@ =~= self.function_selector@.take(i as int));
        }
        assert(self.function_selector@.take(4) =~= self.function_selector@);
        let mut j: usize = 0;
        while j < self.params.len()
            invariant
                j <= self.params.len(),
                out@ == self.function_selector@ + self.params@.take(j as int),
            decreases self.params.len() - j,
        {
            out.push(self.params[j]);
            j += 1;
            assert(out@ =~= self.function_selector@ + self.params@.take(j as int));
        }
        assert(self.params@.take(self.params@.len() as int) =~= self.params@);
        out
    }
}

/// The operations that governance knows.
#[derive(Clone, Copy, Debug, PartialEq, Eq, Structural)]
pub enum OperationKind {
    AddAllowedProtocol,
    AddAllowedProtocolAddress,
    RemoveAllowedProtocolAddress,
    AddAllowedProposerAddress,
    RemoveAllowedProposerAddress,
    AddExecutor,
    RemoveExecutor,
    AddKeeper,
    RemoveKeeper,
    SetConsensusTargetRate,
    SetProtocolFee,
}

/// The number that the four bytes of a selector spell, most significant first.
pub open spec fn selector_value(bytes: [u8; 4]) -> u32 {
    (bytes[0] * 0x100_0000 + bytes[1] * 0x1_0000 + bytes[2] * 0x100 + bytes[3]) as u32
}

/// The operation that a selector stands for, if any.
pub open spec fn kind_of(selector: u32) -> Option<OperationKind> {
    if selector == ADD_ALLOWED_PROTOCOL {
        Some(OperationKind::AddAllowedProtocol)
    } else if selector == ADD_ALLOWED_PROTOCOL_ADDRESS {
        Some(OperationKind::AddAllowedProtocolAddress)
    } else if selector == REMOVE_ALLOWED_PROTOCOL_ADDRESS {
        Some(OperationKind::RemoveAllowedProtocolAddress)
    } else if selector == ADD_ALLOWED_PROPOSER_ADDRESS {
        Some(OperationKind::AddAllowedProposerAddress)
    } else if selector == REMOVE_ALLOWED_PROPOSER_ADDRESS {
        Some(OperationKind::RemoveAllowedProposerAddress)
    } else if selector == ADD_EXECUTOR {
        Some(OperationKind::AddExecutor)
    } else if selector == REMOVE_EXECUTOR {
        Some(OperationKind::RemoveExecutor)
    } else if selector == ADD_KEEPER {
        Some(OperationKind::AddKeeper)
    } else if selector == REMOVE_KEEPER {
        Some(OperationKind::RemoveKeeper)
    } else if selector == SET_CONSENSUS_TARGET_RATE {
        Some(OperationKind::SetConsensusTargetRate)
    } else if selector == SET_PROTOCOL_FEE {
        Some(OperationKind::SetProtocolFee)
    } else {
        None
    }
}

/// The parameter kinds of an operation's calldata, the protocol identity
/// first.
pub open spec fn schema_of(kind: OperationKind) -> Seq<ParamKind> {
    match kind {
        OperationKind::AddAllowedProtocol => seq![
            ParamKind::FixedBytes32,
            ParamKind::Uint256,
            ParamKind::Uint256,
            ParamKind::AddressArray,
        ],
        OperationKind::AddAllowedProtocolAddress
        | OperationKind::RemoveAllowedProtocolAddress
        | OperationKind::AddAllowedProposerAddress
        | OperationKind::RemoveAllowedProposerAddress
        | OperationKind::AddExecutor
        | OperationKind::RemoveExecutor => seq![ParamKind::FixedBytes32, ParamKind::Bytes],
        OperationKind::AddKeeper | OperationKind::RemoveKeeper => seq![
            ParamKind::FixedBytes32,
            ParamKind::AddressArray,
        ],
        OperationKind::SetConsensusTargetRate | OperationKind::SetProtocolFee => seq![
            ParamKind::FixedBytes32,
            ParamKind::Uint256,
        ],
    }
}

impl OperationKind {
    /// The operation that `selector` stands for, if any.
    pub fn from_selector(selector: u32) -> (r: Option<OperationKind>)
        ensures
            r == kind_of(selector),
    {
        if selector == ADD_ALLOWED_PROTOCOL {
            Some(OperationKind::AddAllowedProtocol)
        } else if selector == ADD_ALLOWED_PROTOCOL_ADDRESS {
            Some(OperationKind::AddAllowedProtocolAddress)
        } else if selector == REMOVE_ALLOWED_PROTOCOL_ADDRESS {
            Some(OperationKind::RemoveAllowedProtocolAddress)
        } else if selector == ADD_ALLOWED_PROPOSER_ADDRESS {
            Some(OperationKind::AddAllowedProposerAddress)
        } else if selector == REMOVE_ALLOWED_PROPOSER_ADDRESS {
            Some(OperationKind::RemoveAllowedProposerAddress)
        } else if selector == ADD_EXECUTOR {
            Some(OperationKind::AddExecutor)
        } else if selector == REMOVE_EXECUTOR {
            Some(OperationKind::RemoveExecutor)
        } else if selector == ADD_KEEPER {
            Some(OperationKind::AddKeeper)
        } else if selector == REMOVE_KEEPER {
            Some(OperationKind::RemoveKeeper)
        } else if selector == SET_CONSENSUS_TARGET_RATE {
            Some(OperationKind::SetConsensusTargetRate)
        } else if selector == SET_PROTOCOL_FEE {
            Some(OperationKind::SetProtocolFee)
        } else {
            None
        }
    }

    /// The selector of the operation.
    pub open spec fn spec_selector(self) -> u32 {
        match self {
            OperationKind::AddAllowedProtocol => ADD_ALLOWED_PROTOCOL,
            OperationKind::AddAllowedProtocolAddress => ADD_ALLOWED_PROTOCOL_ADDRESS,
            OperationKind::RemoveAllowedProtocolAddress => REMOVE_ALLOWED_PROTOCOL_ADDRESS,
            OperationKind::AddAllowedProposerAddress => ADD_ALLOWED_PROPOSER_ADDRESS,
            OperationKind::RemoveAllowedProposerAddress => REMOVE_ALLOWED_PROPOSER_ADDRESS,
            OperationKind::AddExecutor => ADD_EXECUTOR,
            OperationKind::RemoveExecutor => REMOVE_EXECUTOR,
            OperationKind::AddKeeper => ADD_KEEPER,
            OperationKind::RemoveKeeper => REMOVE_KEEPER,
            OperationKind::SetConsensusTargetRate => SET_CONSENSUS_TARGET_RATE,
            OperationKind::SetProtocolFee => SET_PROTOCOL_FEE,
        }
    }

    /// The selector of the operation.
    pub fn selector(self) -> (r: u32)
        ensures
            r == self.spec_selector(),
            kind_of(r) == Some(self),
    {
        match self {
            OperationKind::AddAllowedProtocol => ADD_ALLOWED_PROTOCOL,
            OperationKind::AddAllowedProtocolAddress => ADD_ALLOWED_PROTOCOL_ADDRESS,
            OperationKind::RemoveAllowedProtocolAddress => REMOVE_ALLOWED_PROTOCOL_ADDRESS,
            OperationKind::AddAllowedProposerAddress => ADD_ALLOWED_PROPOSER_ADDRESS,
            OperationKind::RemoveAllowedProposerAddress => REMOVE_ALLOWED_PROPOSER_ADDRESS,
            OperationKind::AddExecutor => ADD_EXECUTOR,
            OperationKind::RemoveExecutor => REMOVE_EXECUTOR,
            OperationKind::AddKeeper => ADD_KEEPER,
            OperationKind::RemoveKeeper => REMOVE_KEEPER,
            OperationKind::SetConsensusTargetRate => SET_CONSENSUS_TARGET_RATE,
            OperationKind::SetProtocolFee => SET_PROTOCOL_FEE,
        }
    }

    /// The parameter kinds of the operation's calldata.
    pub fn schema(self) -> (r: Vec<ParamKind>)
        ensures
            r@ == schema_of(self),
    {
        let mut out: Vec<ParamKind> = Vec::new();
        out.push(ParamKind::FixedBytes32);
        match self {
            OperationKind::AddAllowedProtocol => {
                out.push(ParamKind::Uint256);
                out.push(ParamKind::Uint256);
                out.push(ParamKind::AddressArray);
            },
            OperationKind::AddAllowedProtocolAddress
            | OperationKind::RemoveAllowedProtocolAddress
            | OperationKind::AddAllowedProposerAddress
            | OperationKind::RemoveAllowedProposerAddress
            | OperationKind::AddExecutor
            | OperationKind::RemoveExecutor => {
                out.push(ParamKind::Bytes);
            },
            OperationKind::AddKeeper | OperationKind::RemoveKeeper => {
                out.push(ParamKind::AddressArray);
            },
            OperationKind::SetConsensusTargetRate | OperationKind::SetProtocolFee => {
                out.push(ParamKind::Uint256);
            },
        }
        assert(out@ =~= schema_of(self));
        out
    }
}

/// The number that a selector's bytes spell, most significant first.
pub fn selector_from_bytes(bytes: &[u8; 4]) -> (r: u32)
    ensures
        r == selector_value(*bytes),
{
    let b0: u32 = bytes[0] as u32;
    let b1: u32 = bytes[1] as u32;
    let b2: u32 = bytes[2] as u32;
    let b3: u32 = bytes[3] as u32;
    b0 * 0x100_0000 + b1 * 0x1_0000 + b2 * 0x100 + b3
}

/// What an operation does, with the fields it carries.
#[derive(Clone, Debug, PartialEq, Eq)]
pub enum GovAction {
    /// Initialise the registry with a rate, a fee and a keeper set.
    AddAllowedProtocol { consensus_target_rate: u64, protocol_fee: u64, keepers: Vec<EthAddress> },
    /// Set the protocol's address.
    AddAllowedProtocolAddress { protocol_address: LedgerAddress },
    /// Clear the protocol's address.
    RemoveAllowedProtocolAddress { raw_address: Vec<u8> },
    /// Reserved: allow a proposer.
    AddAllowedProposerAddress { proposer_address: Vec<u8> },
    /// Reserved: disallow a proposer.
    RemoveAllowedProposerAddress { proposer_address: Vec<u8> },
    /// Make an executor the most recent one.
    AddExecutor { executor: LedgerAddress },
    /// Remove an executor.
    RemoveExecutor { executor: LedgerAddress },
    /// Add keepers.
    AddKeeper { keepers: Vec<EthAddress> },
    /// Remove keepers.
    RemoveKeeper { keepers: Vec<EthAddress> },
    /// Overwrite the consensus target rate.
    SetConsensusTargetRate { consensus_target_rate: u64 },
    /// Overwrite the protocol fee.
    SetProtocolFee { protocol_fee: u64 },
}

/// The mathematical value of a [`GovAction`].
pub enum GovActionView {
    AddAllowedProtocol { consensus_target_rate: u64, protocol_fee: u64, keepers: Seq<EthAddress> },
    AddAllowedProtocolAddress { protocol_address: LedgerAddress },
    RemoveAllowedProtocolAddress { raw_address: Seq<u8> },
    AddAllowedProposerAddress { proposer_address: Seq<u8> },
    RemoveAllowedProposerAddress { proposer_address: Seq<u8> },
    AddExecutor { executor: LedgerAddress },
    RemoveExecutor { executor: LedgerAddress },
    AddKeeper { keepers: Seq<EthAddress> },
    RemoveKeeper { keepers: Seq<EthAddress> },
    SetConsensusTargetRate { consensus_target_rate: u64 },
    SetProtocolFee { protocol_fee: u64 },
}

impl GovActionView {
    /// The operation that the action belongs to.
    pub open spec fn kind(self) -> OperationKind {
        match self {
            GovActionView::AddAllowedProtocol { .. } => OperationKind::AddAllowedProtocol,
            GovActionView::AddAllowedProtocolAddress { .. } => OperationKind::AddAllowedProtocolAddress,
            GovActionView::RemoveAllowedProtocolAddress { .. } => OperationKind::RemoveAllowedProtocolAddress,
            GovActionView::AddAllowedProposerAddress { .. } => OperationKind::AddAllowedProposerAddress,
            GovActionView::RemoveAllowedProposerAddress { .. } => OperationKind::RemoveAllowedProposerAddress,
            GovActionView::AddExecutor { .. } => OperationKind::AddExecutor,
            GovActionView::RemoveExecutor { .. } => OperationKind::RemoveExecutor,
            GovActionView::AddKeeper { .. } => OperationKind::AddKeeper,
            GovActionView::RemoveKeeper { .. } => OperationKind::RemoveKeeper,
            GovActionView::SetConsensusTargetRate { .. } => OperationKind::SetConsensusTargetRate,
            GovActionView::SetProtocolFee { .. } => OperationKind::SetProtocolFee,
        }
    }
}

impl View for GovAction {
    type V = GovActionView;

    open spec fn view(&self) -> GovActionView {
        match self {
            GovAction::AddAllowedProtocol { consensus_target_rate, protocol_fee, keepers } => {
                GovActionView::AddAllowedProtocol {
                    consensus_target_rate: *consensus_target_rate,
                    protocol_fee: *protocol_fee,
                    keepers: keepers@,
                }
            },
            GovAction::AddAllowedProtocolAddress { protocol_address } => {
                GovActionView::AddAllowedProtocolAddress { protocol_address: *protocol_address }
            },
            GovAction::RemoveAllowedProtocolAddress { raw_address } => {
                GovActionView::RemoveAllowedProtocolAddress { raw_address: raw_address@ }
            },
            GovAction::AddAllowedProposerAddress { proposer_address } => {
                GovActionView::AddAllowedProposerAddress { proposer_address: proposer_address@ }
            },
            GovAction::RemoveAllowedProposerAddress { proposer_address } => {
                GovActionView::RemoveAllowedProposerAddress { proposer_address: proposer_address@ }
            },
            GovAction::AddExecutor { executor } => GovActionView::AddExecutor { executor: *executor },
            GovAction::RemoveExecutor { executor } => GovActionView::RemoveExecutor {
                executor: *executor,
            },
            GovAction::AddKeeper { keepers } => GovActionView::AddKeeper { keepers: keepers@ },
            GovAction::RemoveKeeper { keepers } => GovActionView::RemoveKeeper { keepers: keepers@ },
            GovAction::SetConsensusTargetRate { consensus_target_rate } => {
                GovActionView::SetConsensusTargetRate { consensus_target_rate: *consensus_target_rate }
            },
            GovAction::SetProtocolFee { protocol_fee } => GovActionView::SetProtocolFee {
                protocol_fee: *protocol_fee,
            },
        }
    }
}

/// A decoded operation: the protocol it is meant for and what it does.
#[derive(Clone, Debug, PartialEq, Eq)]
pub struct GovOperation {
    pub protocol_id: ProtocolId,
    pub action: GovAction,
}

/// The mathematical value of a [`GovOperation`].
pub struct GovOperationView {
    pub protocol_id: ProtocolId,
    pub action: GovActionView,
}

impl View for GovOperation {
    type V = GovOperationView;

    open spec fn view(&self) -> GovOperationView {
        GovOperationView { protocol_id: self.protocol_id, action: self.action@ }
    }
}

/// The value of a decoding result.
pub open spec fn decoded_view(r: Result<GovOperation, GovError>) -> Result<
    GovOperationView,
    GovError,
> {
    match r {
        Ok(op) => Ok(op@),
        Err(e) => Err(e),
    }
}

/// The 32-byte word at position `i`, where there is one.
pub open spec fn word_at(values: Seq<AbiValue>, i: int) -> Option<[u8; 32]> {
    if 0 <= i < values.len() {
        match values[i] {
            AbiValue::FixedBytes(b) => if b.len() == 32 {
                Some(array_of::<32>(b))
            } else {
                None
            },
            _ => None,
        }
    } else {
        None
    }
}

/// The unsigned integer at position `i`, cut down to 64 bits.
pub open spec fn uint_at(values: Seq<AbiValue>, i: int) -> Option<u64> {
    if 0 <= i < values.len() {
        match values[i] {
            AbiValue::Uint(limbs) => Some(truncated_u64(limbs)),
            _ => None,
        }
    } else {
        None
    }
}

/// The byte string at position `i`.
pub open spec fn bytes_at(values: Seq<AbiValue>, i: int) -> Option<Seq<u8>> {
    if 0 <= i < values.len() {
        match values[i] {
            AbiValue::Bytes(b) => Some(b),
            _ => None,
        }
    } else {
        None
    }
}

/// The byte string at position `i` as a ledger address: it must have
/// exactly 32 bytes.
pub open spec fn ledger_address_at(values: Seq<AbiValue>, i: int) -> Option<LedgerAddress> {
    match bytes_at(values, i) {
        Some(b) => if b.len() == 32 {
            Some(array_of::<32>(b))
        } else {
            None
        },
        None => None,
    }
}

/// The addresses that `items` holds, where every one of them is an address.
pub open spec fn all_addresses(items: Seq<Option<EthAddress>>) -> Option<Seq<EthAddress>> {
    if forall|j: int| 0 <= j < items.len() ==> (#[trigger] items[j]) is Some {
        Some(Seq::new(items.len(), |j: int| items[j]->0))
    } else {
        None
    }
}

/// The address array at position `i`.
pub open spec fn addresses_at(values: Seq<AbiValue>, i: int) -> Option<Seq<EthAddress>> {
    if 0 <= i < values.len() {
        match values[i] {
            AbiValue::Array(items) => all_addresses(items),
            _ => None,
        }
    } else {
        None
    }
}

/// What the parameters after the protocol identity say, read as the fields of
/// an operation of the given kind.
pub open spec fn action_of(kind: OperationKind, values: Seq<AbiValue>) -> Option<GovActionView> {
    match kind {
        OperationKind::AddAllowedProtocol => match (
            uint_at(values, 1),
            uint_at(values, 2),
            addresses_at(values, 3),
        ) {
            (Some(rate), Some(fee), Some(keepers)) => Some(
                GovActionView::AddAllowedProtocol {
                    consensus_target_rate: rate,
                    protocol_fee: fee,
                    keepers,
                },
            ),
            _ => None,
        },
        OperationKind::AddAllowedProtocolAddress => match ledger_address_at(values, 1) {
            Some(a) => Some(GovActionView::AddAllowedProtocolAddress { protocol_address: a }),
            None => None,
        },
        OperationKind::RemoveAllowedProtocolAddress => match bytes_at(values, 1) {
            Some(b) => Some(GovActionView::RemoveAllowedProtocolAddress { raw_address: b }),
            None => None,
        },
        OperationKind::AddAllowedProposerAddress => match bytes_at(values, 1) {
            Some(b) => Some(GovActionView::AddAllowedProposerAddress { proposer_address: b }),
            None => None,
        },
        OperationKind::RemoveAllowedProposerAddress => match bytes_at(values, 1) {
            Some(b) => Some(GovActionView::RemoveAllowedProposerAddress { proposer_address: b }),
            None => None,
        },
        OperationKind::AddExecutor => match ledger_address_at(values, 1) {
            Some(a) => Some(GovActionView::AddExecutor { executor: a }),
            None => None,
        },
        OperationKind::RemoveExecutor => match ledger_address_at(values, 1) {
            Some(a) => Some(GovActionView::RemoveExecutor { executor: a }),
            None => None,
        },
        OperationKind::AddKeeper => match addresses_at(values, 1) {
            Some(keepers) => Some(GovActionView::AddKeeper { keepers }),
            None => None,
        },
        OperationKind::RemoveKeeper => match addresses_at(values, 1) {
            Some(keepers) => Some(GovActionView::RemoveKeeper { keepers }),
            None => None,
        },
        OperationKind::SetConsensusTargetRate => match uint_at(values, 1) {
            Some(rate) => Some(GovActionView::SetConsensusTargetRate { consensus_target_rate: rate }),
            None => None,
        },
        OperationKind::SetProtocolFee => match uint_at(values, 1) {
            Some(fee) => Some(GovActionView::SetProtocolFee { protocol_fee: fee }),
            None => None,
        },
    }
}

/// The operation of the given kind that decoded parameters stand for.
/// Fails with `InvalidGovMsg` where a parameter is missing or is not a value
/// of the type its field has.
pub open spec fn operation_of(kind: OperationKind, values: Seq<AbiValue>) -> Result<
    GovOperationView,
    GovError,
> {
    match (word_at(values, 0), action_of(kind, values)) {
        (Some(protocol_id), Some(action)) => Ok(GovOperationView { protocol_id, action }),
        _ => Err(GovError::InvalidGovMsg),
    }
}

/// The operation that a selector and its calldata stand for.
///
/// An unknown selector is `UnsupportedOperation`; calldata that the ABI
/// decoder rejects for the operation's schema is `InvalidProtoMsg`; decoded
/// parameters that are no values of their fields' types are `InvalidGovMsg`.
pub open spec fn decoded_with(selector: u32, params: Seq<u8>) -> Result<GovOperationView, GovError> {
    match kind_of(selector) {
        None => Err(GovError::UnsupportedOperation),
        Some(kind) => match abi_decoded(schema_of(kind), params) {
            None => Err(GovError::InvalidProtoMsg),
            Some(values) => operation_of(kind, values),
        },
    }
}

/// The operation that an operation record stands for.
pub open spec fn decoded_operation(data: OperationDataView) -> Result<GovOperationView, GovError> {
    decoded_with(selector_value(data.function_selector), data.params)
}

/// The 256-bit number `x` as four limbs, least significant first.
pub open spec fn limbs_of(x: u64) -> [u64; 4] {
    vstd::array::spec_array_update(
        vstd::array::spec_array_fill_for_copy_type::<u64, 4>(0u64),
        0,
        x,
    )
}

/// A list of addresses as the elements of an array parameter.
pub open spec fn address_items(list: Seq<EthAddress>) -> Seq<Option<EthAddress>> {
    Seq::new(list.len(), |j: int| Some(list[j]))
}

/// The parameters that carry the fields of an action, in the order of its
/// schema, after the protocol identity.
pub open spec fn action_values(action: GovActionView) -> Seq<AbiValue> {
    match action {
        GovActionView::AddAllowedProtocol { consensus_target_rate, protocol_fee, keepers } => seq![
            AbiValue::Uint(limbs_of(consensus_target_rate)),
            AbiValue::Uint(limbs_of(protocol_fee)),
            AbiValue::Array(address_items(keepers)),
        ],
        GovActionView::AddAllowedProtocolAddress { protocol_address } => seq![
            AbiValue::Bytes(protocol_address@),
        ],
        GovActionView::RemoveAllowedProtocolAddress { raw_address } => seq![
            AbiValue::Bytes(raw_address),
        ],
        GovActionView::AddAllowedProposerAddress { proposer_address } => seq![
            AbiValue::Bytes(proposer_address),
        ],
        GovActionView::RemoveAllowedProposerAddress { proposer_address } => seq![
            AbiValue::Bytes(proposer_address),
        ],
        GovActionView::AddExecutor { executor } => seq![AbiValue::Bytes(executor@)],
        GovActionView::RemoveExecutor { executor } => seq![AbiValue::Bytes(executor@)],
        GovActionView::AddKeeper { keepers } => seq![AbiValue::Array(address_items(keepers))],
        GovActionView::RemoveKeeper { keepers } => seq![AbiValue::Array(address_items(keepers))],
        GovActionView::SetConsensusTargetRate { consensus_target_rate } => seq![
            AbiValue::Uint(limbs_of(consensus_target_rate)),
        ],
        GovActionView::SetProtocolFee { protocol_fee } => seq![
            AbiValue::Uint(limbs_of(protocol_fee)),
        ],
    }
}

/// The parameters that carry an operation: its protocol identity, then the
/// fields of its action.
pub open spec fn operation_values(op: GovOperationView) -> Seq<AbiValue> {
    seq![AbiValue::FixedBytes(op.protocol_id@)] + action_values(op.action)
}

/// A number below 2^64 is the number that its limbs are cut down to.
pub proof fn lemma_limbs_of(x: u64)
    ensures
        truncated_u64(limbs_of(x)) == x,
{
    let limbs = limbs_of(x);
    assert(limbs@[0] == x && limbs@[1] == 0 && limbs@[2] == 0 && limbs@[3] == 0);
    assert(limbs[0] == x && limbs[1] == 0 && limbs[2] == 0 && limbs[3] == 0);
}

/// The fields of an operation come back unchanged from the parameters that
/// carry them, for every operation of every kind.
pub proof fn lemma_fields_round_trip(op: GovOperationView)
    ensures
        operation_values(op).len() == schema_of(op.action.kind()).len(),
        operation_of(op.action.kind(), operation_values(op)) == Ok::<GovOperationView, GovError>(
            op,
        ),
{
    let values = operation_values(op);
    lemma_array_of(op.protocol_id);
    assert(values[0] == AbiValue::FixedBytes(op.protocol_id@));
    assert(word_at(values, 0) == Some(op.protocol_id));
    match op.action {
        GovActionView::AddAllowedProtocol { consensus_target_rate, protocol_fee, keepers } => {
            lemma_limbs_of(consensus_target_rate);
            lemma_limbs_of(protocol_fee);
            assert(values[1] == AbiValue::Uint(limbs_of(consensus_target_rate)));
            assert(values[2] == AbiValue::Uint(limbs_of(protocol_fee)));
            assert(values[3] == AbiValue::Array(address_items(keepers)));
            assert(all_addresses(address_items(keepers))->0 =~= keepers);
        },
        GovActionView::AddAllowedProtocolAddress { protocol_address } => {
            lemma_array_of(protocol_address);
            assert(values[1] == AbiValue::Bytes(protocol_address@));
        },
        GovActionView::RemoveAllowedProtocolAddress { raw_address } => {
            assert(values[1] == AbiValue::Bytes(raw_address));
        },
        GovActionView::AddAllowedProposerAddress { proposer_address } => {
            assert(values[1] == AbiValue::Bytes(proposer_address));
        },
        GovActionView::RemoveAllowedProposerAddress { proposer_address } => {
            assert(values[1] == AbiValue::Bytes(proposer_address));
        },
        GovActionView::AddExecutor { executor } => {
            lemma_array_of(executor);
            assert(values[1] == AbiValue::Bytes(executor@));
        },
        GovActionView::RemoveExecutor { executor } => {
            lemma_array_of(executor);
            assert(values[1] == AbiValue::Bytes(executor@));
        },
        GovActionView::AddKeeper { keepers } => {
            assert(values[1] == AbiValue::Array(address_items(keepers)));
            assert(all_addresses(address_items(keepers))->0 =~= keepers);
        },
        GovActionView::RemoveKeeper { keepers } => {
            assert(values[1] == AbiValue::Array(address_items(keepers)));
            assert(all_addresses(address_items(keepers))->0 =~= keepers);
        },
        GovActionView::SetConsensusTargetRate { consensus_target_rate } => {
            lemma_limbs_of(consensus_target_rate);
            assert(values[1] == AbiValue::Uint(limbs_of(consensus_target_rate)));
        },
        GovActionView::SetProtocolFee { protocol_fee } => {
            lemma_limbs_of(protocol_fee);
            assert(values[1] == AbiValue::Uint(limbs_of(protocol_fee)));
        },
    }
}

/// Decoding fails in three ways and no other.
pub proof fn lemma_decoding_errors(data: OperationDataView)
    ensures
        decoded_operation(data) matches Err(e) ==> e == GovError::UnsupportedOperation || e
            == GovError::InvalidProtoMsg || e == GovError::InvalidGovMsg,
{
}

fn token_word(tokens: &Vec<AbiToken>, i: usize) -> (r: Option<[u8; 32]>)
    ensures
        r == word_at(token_values(tokens@), i as int),
{
    if i < tokens.len() {
        match &tokens[i] {
            AbiToken::FixedBytes(b) => array_from_vec::<32>(b),
            _ => None,
        }
    } else {
        None
    }
}

fn token_uint(tokens: &Vec<AbiToken>, i: usize) -> (r: Option<u64>)
    ensures
        r == uint_at(token_values(tokens@), i as int),
{
    if i < tokens.len() {
        match &tokens[i] {
            AbiToken::Uint(limbs) => Some(truncate_uint(limbs)),
            _ => None,
        }
    } else {
        None
    }
}

fn token_bytes(tokens: &Vec<AbiToken>, i: usize) -> (r: Option<Vec<u8>>)
    ensures
        r is Some <==> bytes_at(token_values(tokens@), i as int) is Some,
        r matches Some(b) ==> bytes_at(token_values(tokens@), i as int) == Some(b@),
{
    if i < tokens.len() {
        match &tokens[i] {
            AbiToken::Bytes(b) => Some(vec_copy(b)),
            _ => None,
        }
    } else {
        None
    }
}

fn token_ledger_address(tokens: &Vec<AbiToken>, i: usize) -> (r: Option<LedgerAddress>)
    ensures
        r == ledger_address_at(token_values(tokens@), i as int),
{
    if i < tokens.len() {
        match &tokens[i] {
            AbiToken::Bytes(b) => array_from_vec::<32>(b),
            _ => None,
        }
    } else {
        None
    }
}

fn collect_addresses(items: &Vec<Option<EthAddress>>) -> (r: Option<Vec<EthAddress>>)
    ensures
        r is Some <==> all_addresses(items@) is Some,
        r matches Some(a) ==> all_addresses(items@) == Some(a@),
{
    let mut out: Vec<EthAddress> = Vec::new();
    let mut j: usize = 0;
    while j < items.len()
        invariant
            j <= items.len(),
            out@.len() == j,
            forall|k: int| 0 <= k < j ==> (#[trigger] items@[k]) == Some(out@[k]),
        decreases items.len() - j,
    {
        match items[j] {
            Some(a) => {
                out.push(a);
            },
            None => {
                assert(items@[j as int] is None);
                return None;
            },
        }
        j += 1;
    }
    assert(out@ =~= Seq::new(items@.len(), |j: int| items@[j]->0));
    Some(out)
}

fn token_addresses(tokens: &Vec<AbiToken>, i: usize) -> (r: Option<Vec<EthAddress>>)
    ensures
        r is Some <==> addresses_at(token_values(tokens@), i as int) is Some,
        r matches Some(a) ==> addresses_at(token_values(tokens@), i as int) == Some(a@),
{
    if i < tokens.len() {
        match &tokens[i] {
            AbiToken::Array(items) => collect_addresses(items),
            _ => None,
        }
    } else {
        None
    }
}

fn action_from_tokens(kind: OperationKind, tokens: &Vec<AbiToken>) -> (r: Option<GovAction>)
    ensures
        r is Some <==> action_of(kind, token_values(tokens@)) is Some,
        r matches Some(a) ==> action_of(kind, token_values(tokens@)) == Some(a@),
{
    match kind {
        OperationKind::AddAllowedProtocol => {
            match (token_uint(tokens, 1), token_uint(tokens, 2), token_addresses(tokens, 3)) {
                (Some(consensus_target_rate), Some(protocol_fee), Some(keepers)) => Some(
                    GovAction::AddAllowedProtocol { consensus_target_rate, protocol_fee, keepers },
                ),
                _ => None,
            }
        },
        OperationKind::AddAllowedProtocolAddress => match token_ledger_address(tokens, 1) {
            Some(protocol_address) => Some(GovAction::AddAllowedProtocolAddress { protocol_address }),
            None => None,
        },
        OperationKind::RemoveAllowedProtocolAddress => match token_bytes(tokens, 1) {
            Some(raw_address) => Some(GovAction::RemoveAllowedProtocolAddress { raw_address }),
            None => None,
        },
        OperationKind::AddAllowedProposerAddress => match token_bytes(tokens, 1) {
            Some(proposer_address) => Some(GovAction::AddAllowedProposerAddress { proposer_address }),
            None => None,
        },
        OperationKind::RemoveAllowedProposerAddress => match token_bytes(tokens, 1) {
            Some(proposer_address) => Some(
                GovAction::RemoveAllowedProposerAddress { proposer_address },
            ),
            None => None,
        },
        OperationKind::AddExecutor => match token_ledger_address(tokens, 1) {
            Some(executor) => Some(GovAction::AddExecutor { executor }),
            None => None,
        },
        OperationKind::RemoveExecutor => match token_ledger_address(tokens, 1) {
            Some(executor) => Some(GovAction::RemoveExecutor { executor }),
            None => None,
        },
        OperationKind::AddKeeper => match token_addresses(tokens, 1) {
            Some(keepers) => Some(GovAction::AddKeeper { keepers }),
            None => None,
        },
        OperationKind::RemoveKeeper => match token_addresses(tokens, 1) {
            Some(keepers) => Some(GovAction::RemoveKeeper { keepers }),
            None => None,
        },
        OperationKind::SetConsensusTargetRate => match token_uint(tokens, 1) {
            Some(consensus_target_rate) => Some(
                GovAction::SetConsensusTargetRate { consensus_target_rate },
            ),
            None => None,
        },
        OperationKind::SetProtocolFee => match token_uint(tokens, 1) {
            Some(protocol_fee) => Some(GovAction::SetProtocolFee { protocol_fee }),
            None => None,
        },
    }
}

/// Reads decoded parameters as an operation of the given kind.
pub fn operation_from_tokens(kind: OperationKind, tokens: &Vec<AbiToken>) -> (r: Result<
    GovOperation,
    GovError,
>)
    ensures
        decoded_view(r) == operation_of(kind, token_values(tokens@)),
{
    match (token_word(tokens, 0), action_from_tokens(kind, tokens)) {
        (Some(protocol_id), Some(action)) => Ok(GovOperation { protocol_id, action }),
        _ => Err(GovError::InvalidGovMsg),
    }
}

/// Whether two lists hold the same addresses in the same order.
pub fn addresses_eq(a: &Vec<EthAddress>, b: &Vec<EthAddress>) -> (r: bool)
    ensures
        r == (a@ == b@),
{
    if a.len() != b.len() {
        return false;
    }
    let mut i: usize = 0;
    while i < a.len()
        invariant
            i <= a.len(),
            a.len() == b.len(),
            forall|j: int| 0 <= j < i ==> a@[j] == b@[j],
        decreases a.len() - i,
    {
        if !array_eq(&a[i], &b[i]) {
            return false;
        }
        i += 1;
    }
    assert(a@ =~= b@);
    true
}

impl GovAction {
    /// Whether two actions are of the same kind and carry the same fields.
    pub fn same_as(&self, other: &GovAction) -> (r: bool)
        ensures
            r == (self@ == other@),
    {
        match (self, other) {
            (
                GovAction::AddAllowedProtocol { consensus_target_rate, protocol_fee, keepers },
                GovAction::AddAllowedProtocol {
                    consensus_target_rate: rate,
                    protocol_fee: fee,
                    keepers: list,
                },
            ) => *consensus_target_rate == *rate && *protocol_fee == *fee && addresses_eq(
                keepers,
                list,
            ),
            (
                GovAction::AddAllowedProtocolAddress { protocol_address },
                GovAction::AddAllowedProtocolAddress { protocol_address: b },
            ) => array_eq(protocol_address, b),
            (
                GovAction::RemoveAllowedProtocolAddress { raw_address },
                GovAction::RemoveAllowedProtocolAddress { raw_address: b },
            ) => vec_eq(raw_address, b),
            (
                GovAction::AddAllowedProposerAddress { proposer_address },
                GovAction::AddAllowedProposerAddress { proposer_address: b },
            ) => vec_eq(proposer_address, b),
            (
                GovAction::RemoveAllowedProposerAddress { proposer_address },
                GovAction::RemoveAllowedProposerAddress { proposer_address: b },
            ) => vec_eq(proposer_address, b),
            (GovAction::AddExecutor { executor }, GovAction::AddExecutor { executor: b }) => array_eq(
                executor,
                b,
            ),
            (
                GovAction::RemoveExecutor { executor },
                GovAction::RemoveExecutor { executor: b },
            ) => array_eq(executor, b),
            (GovAction::AddKeeper { keepers }, GovAction::AddKeeper { keepers: b }) => addresses_eq(
                keepers,
                b,
            ),
            (GovAction::RemoveKeeper { keepers }, GovAction::RemoveKeeper { keepers: b }) => addresses_eq(
                keepers,
                b,
            ),
            (
                GovAction::SetConsensusTargetRate { consensus_target_rate },
                GovAction::SetConsensusTargetRate { consensus_target_rate: b },
            ) => *consensus_target_rate == *b,
            (
                GovAction::SetProtocolFee { protocol_fee },
                GovAction::SetProtocolFee { protocol_fee: b },
            ) => *protocol_fee == *b,
            _ => false,
        }
    }
}

impl GovOperation {
    /// Whether two operations are meant for the same protocol and do the
    /// same.
    pub fn same_as(&self, other: &GovOperation) -> (r: bool)
        ensures
            r == (self@ == other@),
    {
        array_eq(&self.protocol_id, &other.protocol_id) && self.action.same_as(&other.action)
    }
}

/// Decodes an operation from its selector and calldata.
pub fn decode(data: &OperationData) -> (r: Result<GovOperation, GovError>)
    ensures
        decoded_view(r) == decoded_operation(data@),
{
    let selector = selector_from_bytes(&data.function_selector);
    match OperationKind::from_selector(selector) {
        None => Err(GovError::UnsupportedOperation),
        Some(kind) => {
            let schema = kind.schema();
            match decode_params(&schema, &data.params) {
                None => Err(GovError::InvalidProtoMsg),
                Some(tokens) => operation_from_tokens(kind, &tokens),
            }
        },
    }
}

} // verus!
