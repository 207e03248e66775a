//! The encoding side of the codec: from a typed operation to the selector
//! and calldata that carry it.

use vstd::prelude::*;
use crate::bytes::EthAddress;
use crate::codec::decode;
use crate::codec::decoded_with;
use crate::codec::selector_value;
use crate::error::GovError;
use crate::codec::GovAction;
use crate::codec::GovActionView;
use crate::codec::GovOperation;
use crate::codec::GovOperationView;
use crate::codec::OperationData;
use crate::codec::OperationKind;

verus! {

/// The last `n` digits of `x` in base 256, most significant first.
pub open spec fn be_bytes(x: nat, n: nat) -> Seq<u8>
    decreases n,
{
    if n == 0 {
        Seq::empty()
    } else {
        be_bytes(x / 256, (n - 1) as nat).push((x % 256) as u8)
    }
}

/// A number as one 32-byte word.
pub open spec fn uint_word(x: nat) -> Seq<u8> {
    be_bytes(x, 32)
}

/// `n` zero bytes.
pub open spec fn zeros(n: nat) -> Seq<u8> {
    Seq::new(n, |i: int| 0u8)
}

/// The number of zero bytes that fill `len` bytes up to whole words.
pub open spec fn padding(len: nat) -> nat {
    ((32 - len % 32) % 32) as nat
}

/// A byte string of any length: its length as a word, its bytes, and zeros
/// up to the end of the last word.
pub open spec fn dynamic_bytes(b: Seq<u8>) -> Seq<u8> {
    uint_word(b.len()) + b + zeros(padding(b.len()))
}

/// An address as one word: twelve zeros, then its bytes.
pub open spec fn address_word(a: EthAddress) -> Seq<u8> {
    zeros(12) + a@
}

/// The words of a list of addresses, one after the other.
pub open spec fn address_words(list: Seq<EthAddress>) -> Seq<u8>
    decreases list.len(),
{
    if list.len() == 0 {
        Seq::empty()
    } else {
        address_words(list.drop_last()) + address_word(list.last())
    }
}

/// An address array: the number of addresses as a word, then their words.
pub open spec fn address_array(list: Seq<EthAddress>) -> Seq<u8> {
    uint_word(list.len()) + address_words(list)
}

/// The calldata of an operation: the protocol identity, then the fields of
/// the action in the layout of its schema. A field of variable length stands
/// behind the fixed ones, which hold the offset at which it starts.
pub open spec fn encoded_params(op: GovOperationView) -> Seq<u8> {
    let id = op.protocol_id@;
    match op.action {
        GovActionView::AddAllowedProtocol { consensus_target_rate, protocol_fee, keepers } => id
            + uint_word(consensus_target_rate as nat) + uint_word(protocol_fee as nat) + uint_word(
            128,
        ) + address_array(keepers),
        GovActionView::AddAllowedProtocolAddress { protocol_address } => id + uint_word(64)
            + dynamic_bytes(protocol_address@),
        GovActionView::RemoveAllowedProtocolAddress { raw_address } => id + uint_word(64)
            + dynamic_bytes(raw_address),
        GovActionView::AddAllowedProposerAddress { proposer_address } => id + uint_word(64)
            + dynamic_bytes(proposer_address),
        GovActionView::RemoveAllowedProposerAddress { proposer_address } => id + uint_word(64)
            + dynamic_bytes(proposer_address),
        GovActionView::AddExecutor { executor } => id + uint_word(64) + dynamic_bytes(executor@),
        GovActionView::RemoveExecutor { executor } => id + uint_word(64) + dynamic_bytes(executor@),
        GovActionView::AddKeeper { keepers } => id + uint_word(64) + address_array(keepers),
        GovActionView::RemoveKeeper { keepers } => id + uint_word(64) + address_array(keepers),
        GovActionView::SetConsensusTargetRate { consensus_target_rate } => id + uint_word(
            consensus_target_rate as nat,
        ),
        GovActionView::SetProtocolFee { protocol_fee } => id + uint_word(protocol_fee as nat),
    }
}

fn push_be(out: &mut Vec<u8>, x: u64, n: usize)
    ensures
        final(out)@ == old(out)@ + be_bytes(x as nat, n as nat),
    decreases n,
{
    if n == 0 {
        assert(out@ + Seq::<u8>::empty() =~= out@);
        return ;
    }
    push_be(out, x / 256, n - 1);
    out.push((x % 256) as u8);
    assert(out@ =~= old(out)@ + be_bytes(x as nat, n as nat));
}

fn push_word(out: &mut Vec<u8>, x: u64)
    ensures
        final(out)@ == old(out)@ + uint_word(x as nat),
{
    push_be(out, x, 32);
}

fn push_zeros(out: &mut Vec<u8>, n: usize)
    ensures
        final(out)@ == old(out)@ + zeros(n as nat),
{
    let mut i: usize = 0;
    assert(out@ =~= old(out)@ + zeros(0));
    while i < n
        invariant
            i <= n,
            out@ == old(out)@ + zeros(i as nat),
        decreases n - i,
    {
        out.push(0u8);
        i += 1;
        assert(out@ =~= old(out)@ + zeros(i as nat));
    }
}

fn push_all(out: &mut Vec<u8>, bytes: &[u8])
    ensures
        final(out)@ == old(out)@ + bytes@,
{
    let mut i: usize = 0;
    assert(out@ =~= old(out)@ + bytes@.take(0));
    while i < bytes.len()
        invariant
            i <= bytes.len(),
            out@ == old(out)@ + bytes@.take(i as int),
        decreases bytes.len() - i,
    {
        out.push(bytes[i]);
        i += 1;
        assert(out@ =~= old(out)@ + bytes@.take(i as int));
    }
    assert(bytes@.take(bytes@.len() as int) =~= bytes@);
}

fn push_dynamic_bytes(out: &mut Vec<u8>, bytes: &[u8])
    ensures
        final(out)@ == old(out)@ + dynamic_bytes(bytes@),
{
    push_word(out, bytes.len() as u64);
    push_all(out, bytes);
    push_zeros(out, (32 - bytes.len() % 32) % 32);
    assert(out@ =~= old(out)@ + dynamic_bytes(bytes@));
}

fn push_address_array(out: &mut Vec<u8>, list: &Vec<EthAddress>)
    ensures
        final(out)@ == old(out)@ + address_array(list@),
{
    push_word(out, list.len() as u64);
    let ghost start = out@;
    let mut i: usize = 0;
    assert(list@.take(0) =~= Seq::<EthAddress>::empty());
    assert(out@ =~= start + address_words(list@.take(0)));
    while i < list.len()
        invariant
            i <= list.len(),
            out@ == start + address_words(list@.take(i as int)),
        decreases list.len() - i,
    {
        push_zeros(out, 12);
        push_all(out, list[i].as_slice());
        proof {
            assert(list@.take(i + 1).drop_last() =~= list@.take(i as int));
            assert(list@.take(i + 1).last() == list@[i as int]);
            assert(out@ =~= start + address_words(list@.take(i + 1)));
        }
        i += 1;
    }
    assert(list@.take(list@.len() as int) =~= list@);
    assert(out@ =~= old(out)@ + address_array(list@));
}

/// The four bytes that spell a selector, most significant first.
pub fn selector_bytes(selector: u32) -> (r: [u8; 4])
    ensures
        selector_value(r) == selector,
{
    let mut r: [u8; 4] = [0u8; 4];
    r[0] = (selector / 0x100_0000) as u8;
    r[1] = ((selector / 0x1_0000) % 0x100) as u8;
    r[2] = ((selector / 0x100) % 0x100) as u8;
    r[3] = (selector % 0x100) as u8;
    r
}

impl GovAction {
    /// The operation that the action belongs to.
    pub fn kind(&self) -> (r: OperationKind)
        ensures
            r == self@.kind(),
    {
        match self {
            GovAction::AddAllowedProtocol { .. } => OperationKind::AddAllowedProtocol,
            GovAction::AddAllowedProtocolAddress { .. } => OperationKind::AddAllowedProtocolAddress,
            GovAction::RemoveAllowedProtocolAddress { .. } => OperationKind::RemoveAllowedProtocolAddress,
            GovAction::AddAllowedProposerAddress { .. } => OperationKind::AddAllowedProposerAddress,
            GovAction::RemoveAllowedProposerAddress { .. } => OperationKind::RemoveAllowedProposerAddress,
            GovAction::AddExecutor { .. } => OperationKind::AddExecutor,
            GovAction::RemoveExecutor { .. } => OperationKind::RemoveExecutor,
            GovAction::AddKeeper { .. } => OperationKind::AddKeeper,
            GovAction::RemoveKeeper { .. } => OperationKind::RemoveKeeper,
            GovAction::SetConsensusTargetRate { .. } => OperationKind::SetConsensusTargetRate,
            GovAction::SetProtocolFee { .. } => OperationKind::SetProtocolFee,
        }
    }
}

/// Encodes an operation as its selector and calldata.
pub fn encode(op: &GovOperation) -> (r: OperationData)
    ensures
        selector_value(r.function_selector) == op@.action.kind().spec_selector(),
        r.params@ == encoded_params(op@),
{
    let mut params: Vec<u8> = Vec::new();
    push_all(&mut params, op.protocol_id.as_slice());
    assert(params@ =~= op@.protocol_id@);
    match &op.action {
        GovAction::AddAllowedProtocol { consensus_target_rate, protocol_fee, keepers } => {
            push_word(&mut params, *consensus_target_rate);
            push_word(&mut params, *protocol_fee);
            push_word(&mut params, 128);
            push_address_array(&mut params, keepers);
        },
        GovAction::AddAllowedProtocolAddress { protocol_address } => {
            push_word(&mut params, 64);
            push_dynamic_bytes(&mut params, protocol_address.as_slice());
        },
        GovAction::RemoveAllowedProtocolAddress { raw_address } => {
            push_word(&mut params, 64);
            push_dynamic_bytes(&mut params, raw_address.as_slice());
        },
        GovAction::AddAllowedProposerAddress { proposer_address } => {
            push_word(&mut params, 64);
            push_dynamic_bytes(&mut params, proposer_address.as_slice());
        },
        GovAction::RemoveAllowedProposerAddress { proposer_address } => {
            push_word(&mut params, 64);
            push_dynamic_bytes(&mut params, proposer_address.as_slice());
        },
        GovAction::AddExecutor { executor } => {
            push_word(&mut params, 64);
            push_dynamic_bytes(&mut params, executor.as_slice());
        },
        GovAction::RemoveExecutor { executor } => {
            push_word(&mut params, 64);
            push_dynamic_bytes(&mut params, executor.as_slice());
        },
        GovAction::AddKeeper { keepers } => {
            push_word(&mut params, 64);
            push_address_array(&mut params, keepers);
        },
        GovAction::RemoveKeeper { keepers } => {
            push_word(&mut params, 64);
            push_address_array(&mut params, keepers);
        },
        GovAction::SetConsensusTargetRate { consensus_target_rate } => {
            push_word(&mut params, *consensus_target_rate);
        },
        GovAction::SetProtocolFee { protocol_fee } => {
            push_word(&mut params, *protocol_fee);
        },
    }
    OperationData { function_selector: selector_bytes(op.action.kind().selector()), params }
}

/// Encodes an operation for signing, and makes sure that the decoder reads
/// the encoding as the operation it was made from: a keeper must not sign
/// calldata that the destination would read as something else.
///
/// The encoding is handed out exactly when it decodes to `op`.
pub fn encode_checked(op: &GovOperation) -> (r: Option<OperationData>)
    ensures
        r is Some <==> decoded_with(op@.action.kind().spec_selector(), encoded_params(op@)) == Ok::<
            GovOperationView,
            GovError,
        >(op@),
        r matches Some(data) ==> selector_value(data.function_selector)
            == op@.action.kind().spec_selector() && data.params@ == encoded_params(op@),
{
    let data = encode(op);
    match decode(&data) {
        Ok(read) => if read.same_as(op) {
            Some(data)
        } else {
            None
        },
        Err(_) => None,
    }
}

} // verus!
