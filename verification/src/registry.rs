//! The durable state of one protocol: its fee parameters, its consensus
//! threshold and its bounded sets of keepers and executors.

use vstd::prelude::*;
use crate::bytes::array_eq;
use crate::bytes::is_zero;
use crate::bytes::zero_bytes;
use crate::bytes::EthAddress;
use crate::bytes::LedgerAddress;
use crate::error::GovError;
use crate::seqs::difference;
use crate::seqs::insert_unique;
use crate::seqs::is_not;
use crate::seqs::not_in;
use crate::seqs::lemma_filter_no_duplicates;
use crate::seqs::lemma_insert_unique;
use crate::seqs::lemma_union_unique_grows;
use crate::seqs::moved_to_end;
use crate::seqs::union_unique;
use crate::seqs::without;

verus! {

/// Whether `items` holds `value`.
pub fn vec_contains<const N: usize>(items: &Vec<[u8; N]>, value: &[u8; N]) -> (r: bool)
    ensures
        r == items@.contains(*value),
{
    let mut i: usize = 0;
    while i < items.len()
        invariant
            i <= items.len(),
            forall|j: int| 0 <= j < i ==> items[j] != *value,
        decreases items.len() - i,
    {
        if array_eq(&items[i], value) {
            return true;
        }
        i += 1;
    }
    false
}

/// The elements of `items` other than `value`, in order.
fn vec_without<const N: usize>(items: &Vec<[u8; N]>, value: &[u8; N]) -> (r: Vec<[u8; N]>)
    ensures
        r@ == without(items@, *value),
{
    let ghost keep = is_not(*value);
    let mut out: Vec<[u8; N]> = Vec::new();
    let mut i: usize = 0;
    proof {
        reveal(Seq::filter);
        assert(items@.take(0).filter(keep) =~= Seq::<[u8; N]>::empty());
    }
    while i < items.len()
        invariant
            i <= items.len(),
            keep == is_not(*value),
            out@ == items@.take(i as int).filter(keep),
        decreases items.len() - i,
    {
        proof {
            items@.lemma_take_succ_push(i as int);
            items@.take(i as int).lemma_filter_push(items[i as int], keep);
        }
        if !array_eq(&items[i], value) {
            out.push(items[i]);
        }
        i += 1;
    }
    proof {
        items@.lemma_take_len();
    }
    out
}

/// An insertion-ordered set of `N`-byte addresses that holds at most
/// `capacity` of them, none twice.
#[derive(Clone, Debug, PartialEq, Eq)]
pub struct BoundedSet<const N: usize> {
    items: Vec<[u8; N]>,
    capacity: usize,
}

impl<const N: usize> View for BoundedSet<N> {
    type V = Seq<[u8; N]>;

    closed spec fn view(&self) -> Seq<[u8; N]> {
        self.items@
    }
}

impl<const N: usize> BoundedSet<N> {
    /// The number of addresses that the set has room for.
    pub closed spec fn spec_capacity(&self) -> nat {
        self.capacity as nat
    }

    /// The set is within its capacity and holds no address twice.
    pub open spec fn wf(&self) -> bool {
        &&& self@.len() <= self.spec_capacity()
        &&& self@.no_duplicates()
    }

    /// An empty set with room for `capacity` addresses.
    pub fn new(capacity: usize) -> (r: Self)
        ensures
            r.wf(),
            r@ == Seq::<[u8; N]>::empty(),
            r.spec_capacity() == capacity,
    {
        BoundedSet { items: Vec::new(), capacity }
    }

    /// The number of addresses in the set.
    pub fn len(&self) -> (r: usize)
        ensures
            r == self@.len(),
    {
        self.items.len()
    }

    /// The number of addresses that the set has room for.
    pub fn capacity(&self) -> (r: usize)
        ensures
            r == self.spec_capacity(),
    {
        self.capacity
    }

    /// The address at position `index`, if there is one.
    pub fn get(&self, index: usize) -> (r: Option<[u8; N]>)
        ensures
            r == if index < self@.len() {
                Some(self@[index as int])
            } else {
                None
            },
    {
        if index < self.items.len() {
            Some(self.items[index])
        } else {
            None
        }
    }

    /// The addresses of the set, in order.
    pub fn to_vec(&self) -> (r: Vec<[u8; N]>)
        ensures
            r@ == self@,
    {
        let mut out: Vec<[u8; N]> = Vec::new();
        let mut i: usize = 0;
        while i < self.items.len()
            invariant
                i <= self.items.len(),
                out@ == self.items@.take(i as int),
            decreases self.items.len() - i,
        {
            proof {
                self.items@.lemma_take_succ_push(i as int);
            }
            out.push(self.items[i]);
            i += 1;
        }
        proof {
            self.items@.lemma_take_len();
        }
        out
    }

    /// Whether the set holds `value`.
    pub fn contains(&self, value: &[u8; N]) -> (r: bool)
        ensures
            r == self@.contains(*value),
    {
        vec_contains(&self.items, value)
    }

    /// Appends `value` unless the set holds it already. Fails, changing
    /// nothing, when `value` is new and the set is full.
    pub fn add_unique(&mut self, value: [u8; N]) -> (r: Result<(), GovError>)
        requires
            old(self).wf(),
        ensures
            final(self).wf(),
            final(self).spec_capacity() == old(self).spec_capacity(),
            r is Ok <==> old(self)@.contains(value) || old(self)@.len() < old(self).spec_capacity(),
            r is Ok ==> final(self)@ == insert_unique(old(self)@, value),
            r is Err ==> r == Err::<(), GovError>(GovError::CapacityExceeded) && final(self)@ == old(
                self,
            )@,
    {
        if vec_contains(&self.items, &value) {
            return Ok(());
        }
        if self.items.len() >= self.capacity {
            return Err(GovError::CapacityExceeded);
        }
        proof {
            lemma_insert_unique(self.items@, value);
        }
        self.items.push(value);
        Ok(())
    }

    /// Removes every occurrence of `value`; an absent `value` removes nothing.
    pub fn remove_all(&mut self, value: &[u8; N])
        requires
            old(self).wf(),
        ensures
            final(self).wf(),
            final(self).spec_capacity() == old(self).spec_capacity(),
            final(self)@ == without(old(self)@, *value),
    {
        let kept = vec_without(&self.items, value);
        proof {
            lemma_filter_no_duplicates(self.items@, is_not(*value));
            self.items@.lemma_filter_len(is_not(*value));
        }
        self.items = kept;
    }

    /// Makes `value` the most recent member: removes it where it stands and
    /// appends it. Fails, changing nothing, when `value` is new and the set
    /// is full.
    pub fn move_to_end(&mut self, value: [u8; N]) -> (r: Result<(), GovError>)
        requires
            old(self).wf(),
        ensures
            final(self).wf(),
            final(self).spec_capacity() == old(self).spec_capacity(),
            r is Ok <==> without(old(self)@, value).len() < old(self).spec_capacity(),
            r is Ok ==> final(self)@ == moved_to_end(old(self)@, value),
            r is Err ==> r == Err::<(), GovError>(GovError::CapacityExceeded) && final(self)@ == old(
                self,
            )@,
    {
        let mut kept = vec_without(&self.items, &value);
        if kept.len() >= self.capacity {
            return Err(GovError::CapacityExceeded);
        }
        proof {
            lemma_filter_no_duplicates(self.items@, is_not(value));
            lemma_insert_unique(kept@, value);
        }
        kept.push(value);
        self.items = kept;
        Ok(())
    }

    /// Appends the addresses of `more` that the set does not hold yet, each
    /// once, in the order of their first occurrence. Fails, changing nothing,
    /// when the set has no room for all of them.
    pub fn extend_unique(&mut self, more: &Vec<[u8; N]>) -> (r: Result<(), GovError>)
        requires
            old(self).wf(),
        ensures
            final(self).wf(),
            final(self).spec_capacity() == old(self).spec_capacity(),
            r is Ok <==> union_unique(old(self)@, more@).len() <= old(self).spec_capacity(),
            r is Ok ==> final(self)@ == union_unique(old(self)@, more@),
            r is Err ==> r == Err::<(), GovError>(GovError::CapacityExceeded) && final(self)@ == old(
                self,
            )@,
    {
        let mut items = self.to_vec();
        let mut i: usize = 0;
        proof {
            assert(more@.take(0) =~= Seq::<[u8; N]>::empty());
        }
        while i < more.len()
            invariant
                i <= more.len(),
                self.wf(),
                items@ == union_unique(self@, more@.take(i as int)),
                items@.len() <= self.capacity,
                items@.no_duplicates(),
            decreases more.len() - i,
        {
            let value = more[i];
            proof {
                assert(more@.take(i + 1).drop_last() =~= more@.take(i as int));
                assert(more@.take(i + 1).last() == value);
                lemma_insert_unique(items@, value);
            }
            if !vec_contains(&items, &value) {
                if items.len() >= self.capacity {
                    proof {
                        lemma_union_unique_grows(self@, more@, i + 1);
                    }
                    return Err(GovError::CapacityExceeded);
                }
                items.push(value);
            }
            i += 1;
        }
        proof {
            more@.lemma_take_len();
        }
        self.items = items;
        Ok(())
    }

    /// Replaces the members by the addresses of `members`, each once, in the
    /// order of their first occurrence. Fails, changing nothing, when there
    /// are more distinct addresses than the set has room for.
    pub fn replace_with(&mut self, members: &Vec<[u8; N]>) -> (r: Result<(), GovError>)
        requires
            old(self).wf(),
        ensures
            final(self).wf(),
            final(self).spec_capacity() == old(self).spec_capacity(),
            r is Ok <==> union_unique(Seq::<[u8; N]>::empty(), members@).len() <= old(
                self,
            ).spec_capacity(),
            r is Ok ==> final(self)@ == union_unique(Seq::<[u8; N]>::empty(), members@),
            r is Err ==> r == Err::<(), GovError>(GovError::CapacityExceeded) && final(self)@ == old(
                self,
            )@,
    {
        let mut fresh: BoundedSet<N> = BoundedSet::new(self.capacity);
        match fresh.extend_unique(members) {
            Ok(()) => {
                self.items = fresh.items;
                Ok(())
            },
            Err(e) => Err(e),
        }
    }

    /// Removes the addresses that `gone` holds; the others keep their order.
    pub fn remove_each(&mut self, gone: &Vec<[u8; N]>)
        requires
            old(self).wf(),
        ensures
            final(self).wf(),
            final(self).spec_capacity() == old(self).spec_capacity(),
            final(self)@ == difference(old(self)@, gone@),
    {
        let ghost keep = not_in(gone@);
        let mut out: Vec<[u8; N]> = Vec::new();
        let mut i: usize = 0;
        proof {
            reveal(Seq::filter);
            assert(self.items@.take(0).filter(keep) =~= Seq::<[u8; N]>::empty());
        }
        while i < self.items.len()
            invariant
                i <= self.items.len(),
                keep == not_in(gone@),
                out@ == self.items@.take(i as int).filter(keep),
            decreases self.items.len() - i,
        {
            proof {
                self.items@.lemma_take_succ_push(i as int);
                self.items@.take(i as int).lemma_filter_push(self.items[i as int], keep);
            }
            if !vec_contains(gone, &self.items[i]) {
                out.push(self.items[i]);
            }
            i += 1;
        }
        proof {
            self.items@.lemma_take_len();
            lemma_filter_no_duplicates(self.items@, keep);
            self.items@.lemma_filter_len(keep);
        }
        self.items = out;
    }
}

/// The mathematical value of a [`ProtocolInfo`].
pub struct ProtocolInfoView {
    pub is_init: bool,
    pub consensus_target_rate: u64,
    pub protocol_fee: u64,
    pub protocol_address: LedgerAddress,
    pub keepers: Seq<EthAddress>,
    pub keeper_capacity: nat,
    pub executors: Seq<LedgerAddress>,
    pub executor_capacity: nat,
}

impl ProtocolInfoView {
    /// Both membership sets are within capacity and free of repeats.
    pub open spec fn wf(self) -> bool {
        &&& self.keepers.len() <= self.keeper_capacity
        &&& self.keepers.no_duplicates()
        &&& self.executors.len() <= self.executor_capacity
        &&& self.executors.no_duplicates()
    }
}

/// The state that governance operations act on, one per protocol.
#[derive(Clone, Debug, PartialEq, Eq)]
pub struct ProtocolInfo {
    /// Whether the protocol has been initialised.
    pub is_init: bool,
    /// The share of the keepers that must sign an operation, in basis points.
    pub consensus_target_rate: u64,
    /// The fee that the protocol charges.
    pub protocol_fee: u64,
    /// The address of the protocol's contract; all zero when unset.
    pub protocol_address: LedgerAddress,
    /// The keepers, in the order in which they were added.
    pub keepers: BoundedSet<20>,
    /// The executors, the most recently added last.
    pub executors: BoundedSet<32>,
}

impl View for ProtocolInfo {
    type V = ProtocolInfoView;

    open spec fn view(&self) -> ProtocolInfoView {
        ProtocolInfoView {
            is_init: self.is_init,
            consensus_target_rate: self.consensus_target_rate,
            protocol_fee: self.protocol_fee,
            protocol_address: self.protocol_address,
            keepers: self.keepers@,
            keeper_capacity: self.keepers.spec_capacity(),
            executors: self.executors@,
            executor_capacity: self.executors.spec_capacity(),
        }
    }
}

impl ProtocolInfo {
    /// Both membership sets are well formed.
    pub open spec fn wf(&self) -> bool {
        self.keepers.wf() && self.executors.wf()
    }

    /// The state of a protocol before its first operation: nothing set, no
    /// keepers and no executors.
    pub fn new(keeper_capacity: usize, executor_capacity: usize) -> (r: Self)
        ensures
            r.wf(),
            r@ == (ProtocolInfoView {
                is_init: false,
                consensus_target_rate: 0,
                protocol_fee: 0,
                protocol_address: zero_bytes::<32>(),
                keepers: Seq::empty(),
                keeper_capacity: keeper_capacity as nat,
                executors: Seq::empty(),
                executor_capacity: executor_capacity as nat,
            }),
    {
        ProtocolInfo {
            is_init: false,
            consensus_target_rate: 0,
            protocol_fee: 0,
            protocol_address: [0u8; 32],
            keepers: BoundedSet::new(keeper_capacity),
            executors: BoundedSet::new(executor_capacity),
        }
    }

    /// The address of the protocol's contract, if one is set.
    pub fn protocol_address(&self) -> (r: Option<LedgerAddress>)
        ensures
            r == if self@.protocol_address == zero_bytes::<32>() {
                None
            } else {
                Some(self@.protocol_address)
            },
    {
        if is_zero(&self.protocol_address) {
            None
        } else {
            Some(self.protocol_address)
        }
    }

    /// The keepers, in order.
    pub fn keepers(&self) -> (r: Vec<EthAddress>)
        ensures
            r@ == self@.keepers,
    {
        self.keepers.to_vec()
    }

    /// The executors, in order.
    pub fn executors(&self) -> (r: Vec<LedgerAddress>)
        ensures
            r@ == self@.executors,
    {
        self.executors.to_vec()
    }
}

} // verus!
