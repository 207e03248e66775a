//! The quorum rule: how many distinct keepers must have signed.

use vstd::prelude::*;
use crate::bytes::EthAddress;
use crate::registry::vec_contains;
use crate::seqs::lemma_union_unique;
use crate::seqs::union_unique;

verus! {

/// The consensus target rate that stands for all of the keepers: rates are
/// given in basis points.
pub const RATE_SCALE: u64 = 10_000;

/// Quorum is reached when the distinct signers, as a share of the
/// registered keepers, meet the target rate:
/// `distinct / keepers >= rate / RATE_SCALE`, written without division.
pub open spec fn quorum_reached(distinct: nat, keepers: nat, rate: u64) -> bool {
    distinct * RATE_SCALE >= rate * keepers
}

/// The least number of distinct signers that reaches quorum: the target
/// share of the keepers, rounded up.
pub open spec fn required_signers(keepers: nat, rate: u64) -> nat {
    ((rate * keepers + RATE_SCALE - 1) / (RATE_SCALE as int)) as nat
}

/// The number of distinct values in a sequence.
pub open spec fn distinct_count<T>(s: Seq<T>) -> nat {
    s.to_set().len()
}

/// Quorum is reached exactly from the required number of signers on.
pub proof fn lemma_quorum_threshold(distinct: nat, keepers: nat, rate: u64)
    ensures
        quorum_reached(distinct, keepers, rate) <==> distinct >= required_signers(keepers, rate),
{
    let need = rate * keepers;
    let q = (need + 9999) / 10000;
    assert(need >= 0) by (nonlinear_arith)
        requires
            need == rate * keepers,
    ;
    assert(10000 * q <= need + 9999 < 10000 * q + 10000) by {
        vstd::arithmetic::div_mod::lemma_fundamental_div_mod(need + 9999, 10000);
        vstd::arithmetic::div_mod::lemma_mod_bound(need + 9999, 10000);
    }
    assert(q >= 0);
    if distinct >= q {
        assert(distinct * 10000 >= need);
    } else {
        assert(distinct * 10000 < need);
    }
}

/// Once reached, quorum stays reached as more keepers sign.
pub proof fn lemma_quorum_monotone(fewer: nat, more: nat, keepers: nat, rate: u64)
    requires
        fewer <= more,
        quorum_reached(fewer, keepers, rate),
    ensures
        quorum_reached(more, keepers, rate),
{
}

/// With every keeper signing, quorum is reached for any rate up to the full
/// scale; with a rate of zero it is reached by nobody signing.
pub proof fn lemma_quorum_bounds(keepers: nat, rate: u64)
    ensures
        rate <= RATE_SCALE ==> quorum_reached(keepers, keepers, rate),
        quorum_reached(0, keepers, 0),
        rate <= RATE_SCALE ==> required_signers(keepers, rate) <= keepers,
{
    if rate <= RATE_SCALE {
        assert(rate * keepers <= 10000 * keepers) by (nonlinear_arith)
            requires
                rate <= 10000,
        ;
        lemma_quorum_threshold(keepers, keepers, rate);
    }
}

/// Whether `distinct` signers out of `keepers` registered keepers reach the
/// target `rate`.
pub fn has_quorum(distinct: usize, keepers: usize, rate: u64) -> (r: bool)
    ensures
        r == quorum_reached(distinct as nat, keepers as nat, rate),
{
    let have: u128 = (distinct as u128) * (RATE_SCALE as u128);
    assert((rate as u128) * (keepers as u128) <= 0xffff_ffff_ffff_ffff * 0xffff_ffff_ffff_ffff)
        by (nonlinear_arith)
        requires
            rate <= 0xffff_ffff_ffff_ffff,
            keepers <= 0xffff_ffff_ffff_ffff,
    ;
    let need: u128 = (rate as u128) * (keepers as u128);
    have >= need
}

/// The values of a sequence, each once, in the order of first occurrence.
pub open spec fn distinct<T>(s: Seq<T>) -> Seq<T> {
    union_unique(Seq::<T>::empty(), s)
}

/// The distinct values of a sequence are as many as its set has elements.
pub proof fn lemma_distinct_count<T>(s: Seq<T>)
    ensures
        distinct(s).no_duplicates(),
        distinct(s).len() == distinct_count(s),
        distinct(s).len() <= s.len(),
        forall|x: T| distinct(s).contains(x) <==> s.contains(x),
{
    lemma_union_unique(Seq::<T>::empty(), s);
    assert(distinct(s).to_set() =~= s.to_set());
    distinct(s).unique_seq_to_set();
}

/// The distinct addresses among `signers`, in the order of first occurrence.
pub fn distinct_signers(signers: &Vec<EthAddress>) -> (r: Vec<EthAddress>)
    ensures
        r@ == distinct(signers@),
        r@.len() == distinct_count(signers@),
{
    let mut seen: Vec<EthAddress> = Vec::new();
    let mut i: usize = 0;
    proof {
        assert(signers@.take(0) =~= Seq::<EthAddress>::empty());
    }
    while i < signers.len()
        invariant
            i <= signers.len(),
            seen@ == distinct(signers@.take(i as int)),
        decreases signers.len() - i,
    {
        proof {
            assert(signers@.take(i + 1).drop_last() =~= signers@.take(i as int));
            assert(signers@.take(i + 1).last() == signers@[i as int]);
        }
        if !vec_contains(&seen, &signers[i]) {
            seen.push(signers[i]);
        }
        i += 1;
    }
    proof {
        signers@.lemma_take_len();
        lemma_distinct_count(signers@);
    }
    seen
}

} // verus!
