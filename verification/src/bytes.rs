//! Fixed-size byte values and the comparisons the registry needs on them.

use vstd::prelude::*;

verus! {

/// A 20-byte keeper address.
pub type EthAddress = [u8; 20];

/// A 32-byte ledger address.
pub type LedgerAddress = [u8; 32];

/// A 32-byte protocol identity.
pub type ProtocolId = [u8; 32];

/// The array of `N` zero bytes.
pub open spec fn zero_bytes<const N: usize>() -> [u8; N] {
    vstd::array::spec_array_fill_for_copy_type::<u8, N>(0u8)
}

/// The array whose bytes are those of `s`, where `s` has `N` of them.
pub open spec fn array_of<const N: usize>(s: Seq<u8>) -> [u8; N] {
    choose|a: [u8; N]| a@ == s
}

/// An array is the array of its own bytes.
pub proof fn lemma_array_of<const N: usize>(a: [u8; N])
    ensures
        array_of::<N>(a@) == a,
{
    let b = array_of::<N>(a@);
    assert(b@ == a@);
    assert(b =~= a);
}

/// Whether every byte of `a` is zero.
pub fn is_zero<const N: usize>(a: &[u8; N]) -> (r: bool)
    ensures
        r == (*a == zero_bytes::<N>()),
{
    let mut i: usize = 0;
    while i < N
        invariant
            i <= N,
            forall|j: int| 0 <= j < i ==> a[j] == 0,
        decreases N - i,
    {
        if a[i] != 0 {
            assert(zero_bytes::<N>()[i as int] == 0);
            return false;
        }
        i += 1;
    }
    assert(*a =~= zero_bytes::<N>());
    true
}

/// Byte-wise equality of two arrays of the same length.
pub fn array_eq<const N: usize>(a: &[u8; N], b: &[u8; N]) -> (r: bool)
    ensures
        r == (*a == *b),
{
    let mut i: usize = 0;
    while i < N
        invariant
            i <= N,
            forall|j: int| 0 <= j < i ==> a[j] == b[j],
        decreases N - i,
    {
        if a[i] != b[i] {
            return false;
        }
        i += 1;
    }
    assert(*a =~= *b);
    true
}

/// Byte-wise equality of two byte vectors.
pub fn vec_eq(a: &Vec<u8>, b: &Vec<u8>) -> (r: bool)
    ensures
        r == (a@ == b@),
{
    if a.len() != b.len() {
        return false;
    }
    let mut i: usize = 0;
    while i < a.len()
        invariant
            i <= a.len(),
            a.len() == b.len(),
            forall|j: int| 0 <= j < i ==> a[j] == b[j],
        decreases a.len() - i,
    {
        if a[i] != b[i] {
            return false;
        }
        i += 1;
    }
    assert(a@ =~= b@);
    true
}

/// The array holding exactly the bytes of `v`, when `v` has `N` of them.
pub fn array_from_vec<const N: usize>(v: &Vec<u8>) -> (r: Option<[u8; N]>)
    ensures
        r is Some <==> v@.len() == N,
        r matches Some(a) ==> a@ == v@ && a == array_of::<N>(v@),
{
    if v.len() != N {
        return None;
    }
    let mut out: [u8; N] = [0u8; N];
    let mut i: usize = 0;
    while i < N
        invariant
            i <= N,
            v@.len() == N,
            forall|j: int| 0 <= j < i ==> out[j] == v[j],
        decreases N - i,
    {
        out[i] = v[i];
        i += 1;
    }
    assert(out@ =~= v@);
    proof {
        lemma_array_of(out);
    }
    Some(out)
}

/// A copy of `v`.
pub fn vec_copy(v: &Vec<u8>) -> (r: Vec<u8>)
    ensures
        r@ == v@,
{
    let mut out: Vec<u8> = Vec::new();
    let mut i: usize = 0;
    while i < v.len()
        invariant
            i <= v.len(),
            out@.len() == i,
            forall|j: int| 0 <= j < i ==> out[j] == v[j],
        decreases v.len() - i,
    {
        out.push(v[i]);
        i += 1;
    }
    assert(out@ =~= v@);
    out
}

/// A fresh vector holding the bytes of `a`.
pub fn vec_from_array<const N: usize>(a: &[u8; N]) -> (r: Vec<u8>)
    ensures
        r@ == a@,
{
    let mut out: Vec<u8> = Vec::new();
    let mut i: usize = 0;
    while i < N
        invariant
            i <= N,
            out@.len() == i,
            forall|j: int| 0 <= j < i ==> out[j] == a[j],
        decreases N - i,
    {
        out.push(a[i]);
        i += 1;
    }
    assert(out@ =~= a@);
    out
}

} // verus!
