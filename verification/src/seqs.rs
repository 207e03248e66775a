//! Ordered sets as sequences without repeats: the operations on them and
//! what holds of those operations.

use vstd::prelude::*;

verus! {

/// `s` with `v` appended, unless `s` already holds it.
pub open spec fn insert_unique<T>(s: Seq<T>, v: T) -> Seq<T> {
    if s.contains(v) {
        s
    } else {
        s.push(v)
    }
}

/// The test that holds of every value but `v`.
pub open spec fn is_not<T>(v: T) -> spec_fn(T) -> bool {
    |x: T| x != v
}

/// The test that holds of the values that `gone` does not hold.
pub open spec fn not_in<T>(gone: Seq<T>) -> spec_fn(T) -> bool {
    |x: T| !gone.contains(x)
}

/// `s` without any occurrence of `v`, the rest in order.
pub open spec fn without<T>(s: Seq<T>, v: T) -> Seq<T> {
    s.filter(is_not(v))
}

/// `s` with `v` as its last element and nowhere else.
pub open spec fn moved_to_end<T>(s: Seq<T>, v: T) -> Seq<T> {
    without(s, v).push(v)
}

/// `s` followed by the elements of `more` that are new, each at its first
/// occurrence.
pub open spec fn union_unique<T>(s: Seq<T>, more: Seq<T>) -> Seq<T>
    decreases more.len(),
{
    if more.len() == 0 {
        s
    } else {
        insert_unique(union_unique(s, more.drop_last()), more.last())
    }
}

/// `s` without the elements that `gone` holds, the rest in order.
pub open spec fn difference<T>(s: Seq<T>, gone: Seq<T>) -> Seq<T> {
    s.filter(not_in(gone))
}

/// Filtering keeps a sequence free of repeats, and keeps only its elements.
pub proof fn lemma_filter_no_duplicates<T>(s: Seq<T>, pred: spec_fn(T) -> bool)
    requires
        s.no_duplicates(),
    ensures
        s.filter(pred).no_duplicates(),
        forall|x: T| s.filter(pred).contains(x) <==> s.contains(x) && pred(x),
    decreases s.len(),
{
    reveal(Seq::filter);
    if s.len() > 0 {
        let rest = s.drop_last();
        lemma_filter_no_duplicates(rest, pred);
        assert forall|x: T| s.filter(pred).contains(x) <==> s.contains(x) && pred(x) by {
            if s.contains(x) {
                let i = choose|i: int| 0 <= i < s.len() && s[i] == x;
                if i < s.len() - 1 {
                    assert(rest[i] == x);
                }
            }
            if rest.contains(x) {
                let i = choose|i: int| 0 <= i < rest.len() && rest[i] == x;
                assert(s[i] == x);
            }
            if pred(s.last()) {
                let f = rest.filter(pred);
                assert(f.push(s.last())[f.len() as int] == s.last());
                if f.contains(x) {
                    let i = choose|i: int| 0 <= i < f.len() && f[i] == x;
                    assert(f.push(s.last())[i] == x);
                }
            }
        }
        if pred(s.last()) {
            assert(!rest.contains(s.last())) by {
                if rest.contains(s.last()) {
                    let i = choose|i: int| 0 <= i < rest.len() && rest[i] == s.last();
                    assert(s[i] == s[s.len() - 1]);
                }
            }
        }
    }
}

/// Filtering keeps the order: two elements of the filtered sequence stand in
/// the same order in the sequence they come from.
pub proof fn lemma_filter_keeps_order<T>(s: Seq<T>, pred: spec_fn(T) -> bool, i: int, j: int)
    requires
        0 <= i < j < s.filter(pred).len(),
    ensures
        exists|a: int, b: int|
            0 <= a < b < s.len() && s[a] == s.filter(pred)[i] && s[b] == s.filter(pred)[j],
    decreases s.len(),
{
    reveal(Seq::filter);
    if s.len() > 0 {
        let rest = s.drop_last();
        let kept = rest.filter(pred);
        if j < kept.len() {
            lemma_filter_keeps_order(rest, pred, i, j);
            let (a, b) = choose|a: int, b: int|
                0 <= a < b < rest.len() && rest[a] == kept[i] && rest[b] == kept[j];
            assert(s[a] == s.filter(pred)[i] && s[b] == s.filter(pred)[j]);
        } else {
            assert(pred(s.last()));
            assert(kept.contains(kept[i]));
            rest.lemma_filter_contains_rev(pred, kept[i]);
            let a = choose|a: int| 0 <= a < rest.len() && rest[a] == kept[i];
            let b = s.len() - 1;
            assert(s[a] == s.filter(pred)[i] && s[b] == s.filter(pred)[j]);
        }
    }
}

/// A filter that every element passes changes nothing.
pub proof fn lemma_filter_all<T>(s: Seq<T>, pred: spec_fn(T) -> bool)
    requires
        forall|i: int| 0 <= i < s.len() ==> pred(#[trigger] s[i]),
    ensures
        s.filter(pred) == s,
    decreases s.len(),
{
    reveal(Seq::filter);
    if s.len() > 0 {
        let rest = s.drop_last();
        assert forall|i: int| 0 <= i < rest.len() implies pred(#[trigger] rest[i]) by {
            assert(rest[i] == s[i]);
        }
        lemma_filter_all(rest, pred);
        assert(rest.push(s.last()) =~= s);
    } else {
        assert(s.filter(pred) =~= s);
    }
}

/// Appending a new element keeps a sequence free of repeats.
pub proof fn lemma_insert_unique<T>(s: Seq<T>, v: T)
    requires
        s.no_duplicates(),
    ensures
        insert_unique(s, v).no_duplicates(),
        forall|x: T| insert_unique(s, v).contains(x) <==> s.contains(x) || x == v,
        s.len() <= insert_unique(s, v).len() <= s.len() + 1,
        s.is_prefix_of(insert_unique(s, v)),
{
    if !s.contains(v) {
        let t = s.push(v);
        assert(t[s.len() as int] == v);
        assert forall|x: T| t.contains(x) <==> s.contains(x) || x == v by {
            if s.contains(x) {
                let i = choose|i: int| 0 <= i < s.len() && s[i] == x;
                assert(t[i] == x);
            }
        }
        assert forall|i: int, j: int| 0 <= i < t.len() && 0 <= j < t.len() && i != j implies t[i]
            != t[j] by {
            if i < s.len() && j < s.len() {
            } else if i < s.len() {
                assert(s.contains(s[i]));
            } else {
                assert(s.contains(s[j]));
            }
        }
    }
    assert(s.is_prefix_of(insert_unique(s, v))) by {
        assert(insert_unique(s, v).take(s.len() as int) =~= s);
    }
}

/// What a union holds: no repeats, the first sequence as its prefix, and the
/// elements of both.
pub proof fn lemma_union_unique<T>(s: Seq<T>, more: Seq<T>)
    requires
        s.no_duplicates(),
    ensures
        union_unique(s, more).no_duplicates(),
        forall|x: T| union_unique(s, more).contains(x) <==> s.contains(x) || more.contains(x),
        s.len() <= union_unique(s, more).len() <= s.len() + more.len(),
    decreases more.len(),
{
    if more.len() > 0 {
        let rest = more.drop_last();
        lemma_union_unique(s, rest);
        lemma_insert_unique(union_unique(s, rest), more.last());
        assert forall|x: T| more.contains(x) <==> rest.contains(x) || x == more.last() by {
            if more.contains(x) {
                let i = choose|i: int| 0 <= i < more.len() && more[i] == x;
                if i < more.len() - 1 {
                    assert(rest[i] == x);
                }
            }
            if rest.contains(x) {
                let i = choose|i: int| 0 <= i < rest.len() && rest[i] == x;
                assert(more[i] == x);
            }
            assert(more[more.len() - 1] == more.last());
        }
    }
}

/// A union only grows as more elements are offered.
pub proof fn lemma_union_unique_grows<T>(s: Seq<T>, more: Seq<T>, k: int)
    requires
        s.no_duplicates(),
        0 <= k <= more.len(),
    ensures
        union_unique(s, more.take(k)).len() <= union_unique(s, more).len(),
    decreases more.len() - k,
{
    if k < more.len() {
        lemma_union_unique_grows(s, more, k + 1);
        lemma_union_unique(s, more.take(k));
        lemma_insert_unique(union_unique(s, more.take(k)), more[k]);
        assert(more.take(k + 1).drop_last() =~= more.take(k));
        assert(more.take(k + 1).last() == more[k]);
    } else {
        assert(more.take(k) =~= more);
    }
}

/// Adding a value a second time changes nothing.
pub proof fn lemma_insert_unique_idempotent<T>(s: Seq<T>, v: T)
    ensures
        insert_unique(insert_unique(s, v), v) == insert_unique(s, v),
{
    if !s.contains(v) {
        assert(s.push(v)[s.len() as int] == v);
    }
}

/// Removing a value that is absent changes nothing.
pub proof fn lemma_without_absent<T>(s: Seq<T>, v: T)
    requires
        !s.contains(v),
    ensures
        without(s, v) == s,
{
    assert forall|i: int| 0 <= i < s.len() implies is_not(v)(#[trigger] s[i]) by {
        assert(s.contains(s[i]));
    }
    lemma_filter_all(s, is_not(v));
}

/// After a value is removed it is absent, so removing it again changes
/// nothing.
pub proof fn lemma_without_idempotent<T>(s: Seq<T>, v: T)
    ensures
        !without(s, v).contains(v),
        without(without(s, v), v) == without(s, v),
{
    let t = without(s, v);
    assert forall|i: int| 0 <= i < t.len() implies is_not(v)(#[trigger] t[i]) by {
        s.lemma_filter_pred(is_not(v), i);
    }
    if t.contains(v) {
        let i = choose|i: int| 0 <= i < t.len() && t[i] == v;
        assert(is_not(v)(t[i]));
    }
    lemma_filter_all(t, is_not(v));
}

/// Moving a value to the end a second time changes nothing.
pub proof fn lemma_moved_to_end_idempotent<T>(s: Seq<T>, v: T)
    ensures
        without(moved_to_end(s, v), v) == without(s, v),
        moved_to_end(moved_to_end(s, v), v) == moved_to_end(s, v),
{
    lemma_without_idempotent(s, v);
    without(s, v).lemma_filter_push(v, is_not(v));
}

/// Offering only values that a sequence already holds changes nothing.
pub proof fn lemma_union_of_members<T>(s: Seq<T>, more: Seq<T>)
    requires
        forall|i: int| 0 <= i < more.len() ==> s.contains(#[trigger] more[i]),
    ensures
        union_unique(s, more) == s,
    decreases more.len(),
{
    if more.len() > 0 {
        let rest = more.drop_last();
        assert forall|i: int| 0 <= i < rest.len() implies s.contains(#[trigger] rest[i]) by {
            assert(rest[i] == more[i]);
        }
        lemma_union_of_members(s, rest);
        assert(s.contains(more[more.len() - 1]));
    }
}

/// Taking a union with the same values a second time changes nothing.
pub proof fn lemma_union_unique_idempotent<T>(s: Seq<T>, more: Seq<T>)
    requires
        s.no_duplicates(),
    ensures
        union_unique(union_unique(s, more), more) == union_unique(s, more),
{
    lemma_union_unique(s, more);
    assert forall|i: int| 0 <= i < more.len() implies union_unique(s, more).contains(
        #[trigger] more[i],
    ) by {
        assert(more.contains(more[i]));
    }
    lemma_union_of_members(union_unique(s, more), more);
}

/// A union with a value that is new is longer than the sequence it extends.
pub proof fn lemma_union_unique_exceeds<T>(s: Seq<T>, more: Seq<T>, x: T)
    requires
        s.no_duplicates(),
        more.contains(x),
        !s.contains(x),
    ensures
        union_unique(s, more).len() > s.len(),
    decreases more.len(),
{
    let rest = more.drop_last();
    lemma_union_unique(s, rest);
    lemma_insert_unique(union_unique(s, rest), more.last());
    if rest.contains(x) {
        lemma_union_unique_exceeds(s, rest, x);
    } else {
        let i = choose|i: int| 0 <= i < more.len() && more[i] == x;
        if i < more.len() - 1 {
            assert(rest[i] == x);
        }
        assert(more.last() == x);
        assert(!union_unique(s, rest).contains(x));
    }
}

/// Removing values of which none is present changes nothing.
pub proof fn lemma_difference_disjoint<T>(s: Seq<T>, gone: Seq<T>)
    requires
        forall|i: int| 0 <= i < s.len() ==> !gone.contains(#[trigger] s[i]),
    ensures
        difference(s, gone) == s,
{
    lemma_filter_all(s, not_in(gone));
}

/// Removing the same values a second time changes nothing.
pub proof fn lemma_difference_idempotent<T>(s: Seq<T>, gone: Seq<T>)
    ensures
        difference(difference(s, gone), gone) == difference(s, gone),
{
    let t = difference(s, gone);
    assert forall|i: int| 0 <= i < t.len() implies not_in(gone)(#[trigger] t[i]) by {
        s.lemma_filter_pred(not_in(gone), i);
    }
    lemma_filter_all(t, not_in(gone));
}

} // verus!
