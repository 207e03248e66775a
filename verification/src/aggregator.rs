//! The signature aggregator: collects the keepers' signatures for each
//! operation until quorum is reached, and hands the bundle out once.

use vstd::prelude::*;
use crate::bytes::array_eq;
use crate::bytes::EthAddress;
use crate::codec::OperationData;
use crate::codec::OperationDataView;
use crate::quorum::has_quorum;
use crate::quorum::quorum_reached;
use crate::seqs::lemma_filter_keeps_order;
use crate::signed::signature_views;
use crate::signed::KeeperSignature;
use crate::signed::KeeperSignatureView;
use crate::signed::SignedOperation;
use crate::signed::SignedOperationView;

verus! {

/// What the aggregator holds for one operation fingerprint.
#[derive(Clone, Debug, PartialEq, Eq)]
pub struct Pending {
    fingerprint: [u8; 32],
    operation: Option<OperationData>,
    signatures: Vec<KeeperSignature>,
    expires_at: u64,
}

/// The mathematical value of a [`Pending`] entry.
pub struct PendingView {
    /// The fingerprint of the operation.
    pub fingerprint: [u8; 32],
    /// The operation, once it is tracked.
    pub operation: Option<OperationDataView>,
    /// The signatures collected so far, one for each signer.
    pub signatures: Seq<KeeperSignatureView>,
    /// The time from which on the entry is dropped.
    pub expires_at: u64,
}

impl View for Pending {
    type V = PendingView;

    closed spec fn view(&self) -> PendingView {
        PendingView {
            fingerprint: self.fingerprint,
            operation: match self.operation {
                Some(op) => Some(op@),
                None => None,
            },
            signatures: signature_views(self.signatures@),
            expires_at: self.expires_at,
        }
    }
}

/// The values of a sequence of entries.
pub open spec fn pending_views(entries: Seq<Pending>) -> Seq<PendingView> {
    Seq::new(entries.len(), |i: int| entries[i]@)
}

/// Where an operation stands after a signature or the operation itself came
/// in.
#[derive(Clone, Debug, PartialEq, Eq)]
pub enum AggregationState {
    /// The operation is not tracked yet: its signatures wait in a buffer.
    Buffered { signers: usize },
    /// The operation is tracked and has not reached quorum.
    Collecting { signers: usize },
    /// Quorum is reached: this is the bundle, and the aggregator has
    /// forgotten the operation.
    Complete(SignedOperation),
}

/// The mathematical value of an [`AggregationState`].
pub enum AggregationStateView {
    Buffered { signers: nat },
    Collecting { signers: nat },
    Complete(SignedOperationView),
}

impl View for AggregationState {
    type V = AggregationStateView;

    open spec fn view(&self) -> AggregationStateView {
        match self {
            AggregationState::Buffered { signers } => AggregationStateView::Buffered {
                signers: *signers as nat,
            },
            AggregationState::Collecting { signers } => AggregationStateView::Collecting {
                signers: *signers as nat,
            },
            AggregationState::Complete(signed) => AggregationStateView::Complete(signed@),
        }
    }
}

/// The mathematical value of an [`Aggregator`].
pub struct AggregatorView {
    /// The entries, oldest first.
    pub pending: Seq<PendingView>,
    /// How long an entry is kept, counted from its first arrival.
    pub retention: u64,
}

/// No two entries have the same fingerprint.
pub open spec fn distinct_fingerprints(pending: Seq<PendingView>) -> bool {
    forall|i: int, j: int|
        0 <= i < j < pending.len() ==> pending[i].fingerprint != pending[j].fingerprint
}

/// No two signatures come from the same signer.
pub open spec fn distinct_signers(signatures: Seq<KeeperSignatureView>) -> bool {
    forall|i: int, j: int|
        0 <= i < j < signatures.len() ==> signatures[i].signer != signatures[j].signer
}

/// Every fingerprint has one entry, and every entry one signature for each
/// signer.
pub open spec fn pending_wf(pending: Seq<PendingView>) -> bool {
    &&& distinct_fingerprints(pending)
    &&& forall|i: int| 0 <= i < pending.len() ==> distinct_signers(#[trigger] pending[i].signatures)
}

impl AggregatorView {
    /// Every fingerprint has one entry, and every entry one signature for
    /// each signer.
    pub open spec fn wf(self) -> bool {
        pending_wf(self.pending)
    }
}

/// The test that holds of the entries that are still kept at time `now`.
pub open spec fn live_at(now: u64) -> spec_fn(PendingView) -> bool {
    |e: PendingView| now < e.expires_at
}

/// The entries that are still kept at time `now`.
pub open spec fn purged(pending: Seq<PendingView>, now: u64) -> Seq<PendingView> {
    pending.filter(live_at(now))
}

/// The time from which on an entry that arrives at `now` is dropped.
pub open spec fn deadline(now: u64, retention: u64) -> u64 {
    if now + retention > u64::MAX {
        u64::MAX
    } else {
        (now + retention) as u64
    }
}

/// Whether some entry has the fingerprint.
pub open spec fn tracks(pending: Seq<PendingView>, fingerprint: [u8; 32]) -> bool {
    exists|i: int| 0 <= i < pending.len() && pending[i].fingerprint == fingerprint
}

/// The position of the entry with the fingerprint.
pub open spec fn position(pending: Seq<PendingView>, fingerprint: [u8; 32]) -> int {
    choose|i: int| 0 <= i < pending.len() && pending[i].fingerprint == fingerprint
}

/// Whether one of the signatures comes from `signer`.
pub open spec fn has_signer(signatures: Seq<KeeperSignatureView>, signer: EthAddress) -> bool {
    exists|i: int| 0 <= i < signatures.len() && signatures[i].signer == signer
}

/// The signatures with one more: a second signature of a signer is taken
/// and not kept.
pub open spec fn with_signature(
    signatures: Seq<KeeperSignatureView>,
    signature: KeeperSignatureView,
) -> Seq<KeeperSignatureView> {
    if has_signer(signatures, signature.signer) {
        signatures
    } else {
        signatures.push(signature)
    }
}

/// What becomes of the entry at position `i`: where its operation is tracked
/// and its signers reach quorum, it leaves as a bundle; else it stays.
pub open spec fn settled(pending: Seq<PendingView>, i: int, keepers: nat, rate: u64) -> (
    Seq<PendingView>,
    AggregationStateView,
) {
    let entry = pending[i];
    match entry.operation {
        Some(operation_data) => if quorum_reached(entry.signatures.len(), keepers, rate) {
            (
                pending.remove(i),
                AggregationStateView::Complete(
                    SignedOperationView { operation_data, signatures: entry.signatures },
                ),
            )
        } else {
            (pending, AggregationStateView::Collecting { signers: entry.signatures.len() })
        },
        None => (pending, AggregationStateView::Buffered { signers: entry.signatures.len() }),
    }
}

/// The entries and the state after a signature for `fingerprint` came in at
/// time `now`, with `keepers` keepers registered and the target `rate`.
pub open spec fn after_signature(
    a: AggregatorView,
    fingerprint: [u8; 32],
    signature: KeeperSignatureView,
    now: u64,
    keepers: nat,
    rate: u64,
) -> (Seq<PendingView>, AggregationStateView) {
    let pending = purged(a.pending, now);
    if tracks(pending, fingerprint) {
        let i = position(pending, fingerprint);
        settled(
            pending.update(
                i,
                PendingView {
                    signatures: with_signature(pending[i].signatures, signature),
                    ..pending[i]
                },
            ),
            i,
            keepers,
            rate,
        )
    } else {
        settled(
            pending.push(
                PendingView {
                    fingerprint,
                    operation: None,
                    signatures: seq![signature],
                    expires_at: deadline(now, a.retention),
                },
            ),
            pending.len() as int,
            keepers,
            rate,
        )
    }
}

/// The entries and the state after the operation with `fingerprint` came in
/// at time `now`. An operation that is tracked already stays as it is.
pub open spec fn after_track(
    a: AggregatorView,
    fingerprint: [u8; 32],
    operation_data: OperationDataView,
    now: u64,
    keepers: nat,
    rate: u64,
) -> (Seq<PendingView>, AggregationStateView) {
    let pending = purged(a.pending, now);
    if tracks(pending, fingerprint) {
        let i = position(pending, fingerprint);
        settled(
            pending.update(
                i,
                PendingView {
                    operation: match pending[i].operation {
                        Some(known) => Some(known),
                        None => Some(operation_data),
                    },
                    ..pending[i]
                },
            ),
            i,
            keepers,
            rate,
        )
    } else {
        settled(
            pending.push(
                PendingView {
                    fingerprint,
                    operation: Some(operation_data),
                    signatures: Seq::empty(),
                    expires_at: deadline(now, a.retention),
                },
            ),
            pending.len() as int,
            keepers,
            rate,
        )
    }
}

/// Dropping the expired entries keeps the rest well formed.
pub proof fn lemma_purged_wf(pending: Seq<PendingView>, now: u64)
    requires
        pending_wf(pending),
    ensures
        pending_wf(purged(pending, now)),
{
    let kept = purged(pending, now);
    assert forall|i: int, j: int| 0 <= i < j < kept.len() implies kept[i].fingerprint
        != kept[j].fingerprint by {
        lemma_filter_keeps_order(pending, live_at(now), i, j);
    }
    assert forall|i: int| 0 <= i < kept.len() implies distinct_signers(
        #[trigger] kept[i].signatures,
    ) by {
        assert(kept.contains(kept[i]));
        pending.lemma_filter_contains_rev(live_at(now), kept[i]);
    }
}

/// A bundle is handed out once: when an entry leaves as a bundle, its
/// fingerprint is no longer tracked.
pub proof fn lemma_settled_once(pending: Seq<PendingView>, i: int, keepers: nat, rate: u64)
    requires
        pending_wf(pending),
        0 <= i < pending.len(),
    ensures
        pending_wf(settled(pending, i, keepers, rate).0),
        settled(pending, i, keepers, rate).1 is Complete ==> !tracks(
            settled(pending, i, keepers, rate).0,
            pending[i].fingerprint,
        ),
{
    let rest = pending.remove(i);
    assert forall|k: int| 0 <= k < rest.len() implies rest[k].fingerprint != pending[i].fingerprint
        && distinct_signers(#[trigger] rest[k].signatures) by {
        if k < i {
            assert(rest[k] == pending[k]);
        } else {
            assert(rest[k] == pending[k + 1]);
        }
    }
    assert forall|k: int, l: int| 0 <= k < l < rest.len() implies rest[k].fingerprint
        != rest[l].fingerprint by {
        let k0 = if k < i { k } else { k + 1 };
        let l0 = if l < i { l } else { l + 1 };
        assert(rest[k] == pending[k0] && rest[l] == pending[l0]);
    }
}

fn holds_signer(signatures: &Vec<KeeperSignature>, signer: &EthAddress) -> (r: bool)
    ensures
        r == has_signer(signature_views(signatures@), *signer),
{
    let mut i: usize = 0;
    while i < signatures.len()
        invariant
            i <= signatures.len(),
            forall|j: int| 0 <= j < i ==> signature_views(signatures@)[j].signer != *signer,
        decreases signatures.len() - i,
    {
        if array_eq(&signatures[i].signer, signer) {
            assert(signature_views(signatures@)[i as int].signer == *signer);
            return true;
        }
        i += 1;
    }
    false
}

/// Collects signatures for operations, each under its fingerprint.
#[derive(Clone, Debug, PartialEq, Eq)]
pub struct Aggregator {
    pending: Vec<Pending>,
    retention: u64,
}

impl View for Aggregator {
    type V = AggregatorView;

    closed spec fn view(&self) -> AggregatorView {
        AggregatorView { pending: pending_views(self.pending@), retention: self.retention }
    }
}

impl Aggregator {
    /// An aggregator that holds nothing and keeps each entry for `retention`
    /// units of time.
    pub fn new(retention: u64) -> (r: Self)
        ensures
            r@.wf(),
            r@.pending == Seq::<PendingView>::empty(),
            r@.retention == retention,
    {
        let r = Aggregator { pending: Vec::new(), retention };
        assert(r@.pending =~= Seq::<PendingView>::empty());
        r
    }

    /// The number of fingerprints that the aggregator holds an entry for.
    pub fn len(&self) -> (r: usize)
        ensures
            r == self@.pending.len(),
    {
        self.pending.len()
    }

    /// The number of distinct signers collected for `fingerprint`, where the
    /// aggregator holds an entry for it.
    pub fn signer_count(&self, fingerprint: &[u8; 32]) -> (r: Option<usize>)
        requires
            self@.wf(),
        ensures
            r is Some <==> tracks(self@.pending, *fingerprint),
            r matches Some(n) ==> n == self@.pending[position(
                self@.pending,
                *fingerprint,
            )].signatures.len(),
    {
        match self.find(fingerprint) {
            Some(i) => Some(self.pending[i].signatures.len()),
            None => None,
        }
    }

    /// Drops the entries whose time has run out at `now`.
    pub fn expire(&mut self, now: u64)
        requires
            old(self)@.wf(),
        ensures
            final(self)@.wf(),
            final(self)@.retention == old(self)@.retention,
            final(self)@.pending == purged(old(self)@.pending, now),
            forall|i: int|
                0 <= i < final(self)@.pending.len() ==> now < (#[trigger] final(self)@.pending[i]).expires_at,
    {
        let ghost before = self@.pending;
        let ghost keep = live_at(now);
        let ghost mut j: int = 0;
        let mut i: usize = 0;
        proof {
            reveal(Seq::filter);
            assert(before.take(0).filter(keep) =~= Seq::<PendingView>::empty());
            assert(pending_views(self.pending@).take(0) =~= Seq::<PendingView>::empty());
            assert(pending_views(self.pending@).skip(0) =~= before.skip(0));
        }
        while i < self.pending.len()
            invariant
                i <= self.pending.len(),
                keep == live_at(now),
                before == old(self)@.pending,
                self.retention == old(self).retention,
                0 <= j <= before.len(),
                j == i + (before.len() - self.pending.len()),
                pending_views(self.pending@).take(i as int) == before.take(j).filter(keep),
                pending_views(self.pending@).skip(i as int) == before.skip(j),
            decreases self.pending.len() - i,
        {
            let ghost views = pending_views(self.pending@);
            proof {
                assert(views.skip(i as int)[0] == before.skip(j)[0]);
                assert(views[i as int] == before[j]);
                before.lemma_take_succ_push(j);
                before.take(j).lemma_filter_push(before[j], keep);
            }
            if self.pending[i].expires_at <= now {
                self.pending.remove(i);
                proof {
                    let next = pending_views(self.pending@);
                    assert(next =~= views.remove(i as int));
                    assert(next.take(i as int) =~= views.take(i as int));
                    assert(next.skip(i as int) =~= views.skip(i as int).skip(1));
                    assert(before.skip(j).skip(1) =~= before.skip(j + 1));
                    j = j + 1;
                }
            } else {
                proof {
                    views.lemma_take_succ_push(i as int);
                    assert(views.skip(i + 1) =~= views.skip(i as int).skip(1));
                    assert(before.skip(j).skip(1) =~= before.skip(j + 1));
                    j = j + 1;
                }
                i += 1;
            }
        }
        proof {
            let views = pending_views(self.pending@);
            assert(views.take(i as int) =~= views);
            assert(before.take(j) =~= before);
            lemma_purged_wf(before, now);
            assert forall|i: int| 0 <= i < views.len() implies now < (#[trigger] views[i]).expires_at by {
                before.lemma_filter_pred(keep, i);
            }
        }
    }

    fn find(&self, fingerprint: &[u8; 32]) -> (r: Option<usize>)
        requires
            self@.wf(),
        ensures
            r is Some <==> tracks(self@.pending, *fingerprint),
            r matches Some(i) ==> i < self@.pending.len() && i == position(
                self@.pending,
                *fingerprint,
            ),
    {
        let mut i: usize = 0;
        while i < self.pending.len()
            invariant
                i <= self.pending.len(),
                self@.wf(),
                forall|j: int| 0 <= j < i ==> self@.pending[j].fingerprint != *fingerprint,
            decreases self.pending.len() - i,
        {
            if array_eq(&self.pending[i].fingerprint, fingerprint) {
                proof {
                    assert(self@.pending[i as int].fingerprint == *fingerprint);
                    let p = position(self@.pending, *fingerprint);
                    if p < i {
                        assert(self@.pending[p].fingerprint != self@.pending[i as int].fingerprint);
                    } else if p > i {
                        assert(self@.pending[i as int].fingerprint != self@.pending[p].fingerprint);
                    }
                }
                return Some(i);
            }
            i += 1;
        }
        None
    }

    fn settle(&mut self, i: usize, keepers: usize, rate: u64) -> (r: AggregationState)
        requires
            old(self)@.wf(),
            i < old(self)@.pending.len(),
        ensures
            final(self)@.wf(),
            final(self)@.retention == old(self)@.retention,
            (final(self)@.pending, r@) == settled(old(self)@.pending, i as int, keepers as nat, rate),
            r is Complete ==> !tracks(final(self)@.pending, old(self)@.pending[i as int].fingerprint),
    {
        proof {
            lemma_settled_once(self@.pending, i as int, keepers as nat, rate);
        }
        let signers = self.pending[i].signatures.len();
        assert(signers == self@.pending[i as int].signatures.len());
        if self.pending[i].operation.is_none() {
            return AggregationState::Buffered { signers };
        }
        if !has_quorum(signers, keepers, rate) {
            return AggregationState::Collecting { signers };
        }
        let ghost views = pending_views(self.pending@);
        let entry = self.pending.remove(i);
        proof {
            assert(pending_views(self.pending@) =~= views.remove(i as int));
            assert(entry@ == views[i as int]);
        }
        match entry.operation {
            Some(operation_data) => AggregationState::Complete(
                SignedOperation { operation_data, signatures: entry.signatures },
            ),
            None => AggregationState::Buffered { signers },
        }
    }

    /// Takes a keeper's signature for the operation with `fingerprint`.
    ///
    /// Entries whose time has run out at `now` are dropped first. The
    /// signature joins the entry of its fingerprint, or opens one; a signer's
    /// second signature is taken and not kept. Where the operation is tracked
    /// and its distinct signers reach the target `rate` of the `keepers`
    /// registered keepers, the bundle is handed out and the entry dropped.
    pub fn add_signature(
        &mut self,
        fingerprint: [u8; 32],
        signer: EthAddress,
        signature: Vec<u8>,
        now: u64,
        keepers: usize,
        rate: u64,
    ) -> (r: AggregationState)
        requires
            old(self)@.wf(),
        ensures
            final(self)@.wf(),
            final(self)@.retention == old(self)@.retention,
            (final(self)@.pending, r@) == after_signature(
                old(self)@,
                fingerprint,
                KeeperSignatureView { signer, signature: signature@ },
                now,
                keepers as nat,
                rate,
            ),
            r is Complete ==> !tracks(final(self)@.pending, fingerprint),
    {
        self.expire(now);
        let ghost views = self@.pending;
        let ghost given = KeeperSignatureView { signer, signature: signature@ };
        let incoming = KeeperSignature { signer, signature };
        match self.find(&fingerprint) {
            Some(i) => {
                let mut entry = self.pending.remove(i);
                let ghost known = signature_views(entry.signatures@);
                if !holds_signer(&entry.signatures, &signer) {
                    entry.signatures.push(incoming);
                    proof {
                        assert(signature_views(entry.signatures@) =~= known.push(given));
                        assert forall|k: int, l: int|
                            0 <= k < l < known.push(given).len() implies known.push(given)[k].signer
                            != known.push(given)[l].signer by {
                            if l < known.len() {
                                assert(distinct_signers(views[i as int].signatures));
                            }
                        }
                    }
                }
                self.pending.insert(i, entry);
                proof {
                    let updated = views.update(
                        i as int,
                        PendingView {
                            signatures: with_signature(views[i as int].signatures, given),
                            ..views[i as int]
                        },
                    );
                    assert(pending_views(self.pending@) =~= updated);
                    assert forall|k: int| 0 <= k < updated.len() implies distinct_signers(
                        #[trigger] updated[k].signatures,
                    ) by {
                        if k != i {
                            assert(updated[k] == views[k]);
                        }
                    }
                    assert forall|k: int, l: int| 0 <= k < l < updated.len() implies updated[k].fingerprint
                        != updated[l].fingerprint by {
                        assert(updated[k].fingerprint == views[k].fingerprint);
                        assert(updated[l].fingerprint == views[l].fingerprint);
                    }
                }
                self.settle(i, keepers, rate)
            },
            None => {
                let mut signatures: Vec<KeeperSignature> = Vec::new();
                signatures.push(incoming);
                let expires_at = if self.retention > u64::MAX - now {
                    u64::MAX
                } else {
                    now + self.retention
                };
                let i = self.pending.len();
                self.pending.push(
                    Pending { fingerprint, operation: None, signatures, expires_at },
                );
                proof {
                    let fresh = PendingView {
                        fingerprint,
                        operation: None,
                        signatures: seq![given],
                        expires_at: deadline(now, self.retention),
                    };
                    assert(signature_views(signatures@) =~= seq![given]);
                    assert(pending_views(self.pending@) =~= views.push(fresh));
                    assert forall|k: int| 0 <= k < views.push(fresh).len() implies distinct_signers(
                        #[trigger] views.push(fresh)[k].signatures,
                    ) by {
                        if k < views.len() {
                            assert(views.push(fresh)[k] == views[k]);
                        }
                    }
                }
                self.settle(i, keepers, rate)
            },
        }
    }

    /// Takes the operation with `fingerprint`, so that a bundle can be made
    /// for it.
    ///
    /// Entries whose time has run out at `now` are dropped first. The
    /// operation joins the entry of its fingerprint, which keeps the
    /// operation it has if it has one, or opens an entry. Where the distinct
    /// signers reach the target `rate` of the `keepers` registered keepers,
    /// the bundle is handed out and the entry dropped.
    pub fn track(
        &mut self,
        fingerprint: [u8; 32],
        operation_data: OperationData,
        now: u64,
        keepers: usize,
        rate: u64,
    ) -> (r: AggregationState)
        requires
            old(self)@.wf(),
        ensures
            final(self)@.wf(),
            final(self)@.retention == old(self)@.retention,
            (final(self)@.pending, r@) == after_track(
                old(self)@,
                fingerprint,
                operation_data@,
                now,
                keepers as nat,
                rate,
            ),
            r is Complete ==> !tracks(final(self)@.pending, fingerprint),
    {
        self.expire(now);
        let ghost views = self@.pending;
        let ghost given = operation_data@;
        match self.find(&fingerprint) {
            Some(i) => {
                let mut entry = self.pending.remove(i);
                if entry.operation.is_none() {
                    entry.operation = Some(operation_data);
                }
                self.pending.insert(i, entry);
                proof {
                    let updated = views.update(
                        i as int,
                        PendingView {
                            operation: match views[i as int].operation {
                                Some(known) => Some(known),
                                None => Some(given),
                            },
                            ..views[i as int]
                        },
                    );
                    assert(pending_views(self.pending@) =~= updated);
                    assert forall|k: int| 0 <= k < updated.len() implies distinct_signers(
                        #[trigger] updated[k].signatures,
                    ) by {
                        if k != i {
                            assert(updated[k] == views[k]);
                        } else {
                            assert(updated[k].signatures == views[k].signatures);
                        }
                    }
                    assert forall|k: int, l: int| 0 <= k < l < updated.len() implies updated[k].fingerprint
                        != updated[l].fingerprint by {
                        assert(updated[k].fingerprint == views[k].fingerprint);
                        assert(updated[l].fingerprint == views[l].fingerprint);
                    }
                }
                self.settle(i, keepers, rate)
            },
            None => {
                let expires_at = if self.retention > u64::MAX - now {
                    u64::MAX
                } else {
                    now + self.retention
                };
                let i = self.pending.len();
                self.pending.push(
                    Pending {
                        fingerprint,
                        operation: Some(operation_data),
                        signatures: Vec::new(),
                        expires_at,
                    },
                );
                proof {
                    let fresh = PendingView {
                        fingerprint,
                        operation: Some(given),
                        signatures: Seq::empty(),
                        expires_at: deadline(now, self.retention),
                    };
                    assert(signature_views(Seq::<KeeperSignature>::empty()) =~= Seq::<
                        KeeperSignatureView,
                    >::empty());
                    assert(pending_views(self.pending@) =~= views.push(fresh));
                    assert forall|k: int| 0 <= k < views.push(fresh).len() implies distinct_signers(
                        #[trigger] views.push(fresh)[k].signatures,
                    ) by {
                        if k < views.len() {
                            assert(views.push(fresh)[k] == views[k]);
                        }
                    }
                }
                self.settle(i, keepers, rate)
            },
        }
    }
}

} // verus!
