//! Operations together with the keeper signatures that attest to them.

use vstd::prelude::*;
use crate::bytes::EthAddress;
use crate::codec::OperationData;
use crate::codec::OperationDataView;

verus! {

/// A keeper's signature over an operation, with the keeper it is said to
/// come from.
#[derive(Clone, Debug, PartialEq, Eq)]
pub struct KeeperSignature {
    pub signer: EthAddress,
    pub signature: Vec<u8>,
}

/// The mathematical value of a [`KeeperSignature`].
pub struct KeeperSignatureView {
    pub signer: EthAddress,
    pub signature: Seq<u8>,
}

impl View for KeeperSignature {
    type V = KeeperSignatureView;

    open spec fn view(&self) -> KeeperSignatureView {
        KeeperSignatureView { signer: self.signer, signature: self.signature@ }
    }
}

/// The values of a sequence of signatures.
pub open spec fn signature_views(signatures: Seq<KeeperSignature>) -> Seq<KeeperSignatureView> {
    Seq::new(signatures.len(), |i: int| signatures[i]@)
}

/// The keepers that a sequence of signatures is said to come from.
pub open spec fn signers_of(signatures: Seq<KeeperSignatureView>) -> Seq<EthAddress> {
    Seq::new(signatures.len(), |i: int| signatures[i].signer)
}

/// An operation with the signatures collected for it.
#[derive(Clone, Debug, PartialEq, Eq)]
pub struct SignedOperation {
    pub operation_data: OperationData,
    pub signatures: Vec<KeeperSignature>,
}

/// The mathematical value of a [`SignedOperation`].
pub struct SignedOperationView {
    pub operation_data: OperationDataView,
    pub signatures: Seq<KeeperSignatureView>,
}

impl View for SignedOperation {
    type V = SignedOperationView;

    open spec fn view(&self) -> SignedOperationView {
        SignedOperationView {
            operation_data: self.operation_data@,
            signatures: signature_views(self.signatures@),
        }
    }
}

/// The keepers that `signatures` are said to come from, in order.
pub fn signers(signatures: &Vec<KeeperSignature>) -> (r: Vec<EthAddress>)
    ensures
        r@ == signers_of(signature_views(signatures@)),
{
    let mut out: Vec<EthAddress> = Vec::new();
    let mut i: usize = 0;
    while i < signatures.len()
        invariant
            i <= signatures.len(),
            out@.len() == i,
            forall|j: int| 0 <= j < i ==> out@[j] == signatures@[j].signer,
        decreases signatures.len() - i,
    {
        out.push(signatures[i].signer);
        i += 1;
    }
    assert(out@ =~= signers_of(signature_views(signatures@)));
    out
}

} // verus!
