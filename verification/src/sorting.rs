use vstd::prelude::*;

verus! {

/// Position at which a stable insertion puts `x` into `s`: before the first
/// element that `x` strictly precedes, or at the end.
pub open spec fn insert_pos<T>(s: Seq<T>, x: T, before: spec_fn(T, T) -> bool) -> int
    decreases s.len(),
{
    if s.len() == 0 {
        0
    } else if before(x, s[0]) {
        0
    } else {
        1 + insert_pos(s.drop_first(), x, before)
    }
}

/// `s` with `x` inserted stably.
pub open spec fn insert_stable<T>(s: Seq<T>, x: T, before: spec_fn(T, T) -> bool) -> Seq<T> {
    s.insert(insert_pos(s, x, before), x)
}

/// Stable sort of `s`, where `before(a, b)` means that `a` strictly precedes `b`.
/// Elements that neither precedes keep their relative order.
pub open spec fn stable_sort<T>(s: Seq<T>, before: spec_fn(T, T) -> bool) -> Seq<T>
    decreases s.len(),
{
    if s.len() == 0 {
        Seq::empty()
    } else {
        insert_stable(stable_sort(s.drop_last(), before), s.last(), before)
    }
}

/// No element of `s` strictly precedes an element placed before it.
pub open spec fn is_sorted_by<T>(s: Seq<T>, before: spec_fn(T, T) -> bool) -> bool {
    forall|i: int, j: int| 0 <= i < j < s.len() ==> !before(#[trigger] s[j], #[trigger] s[i])
}

/// `before` is a strict order: irreflexive and transitive.
pub open spec fn is_strict_order<T>(before: spec_fn(T, T) -> bool) -> bool {
    &&& forall|a: T| !#[trigger] before(a, a)
    &&& forall|a: T, b: T, c: T| #[trigger] before(a, b) && #[trigger] before(b, c) ==> before(a, c)
}

/// The insertion position is the first index whose element `x` strictly precedes.
pub proof fn lemma_insert_pos<T>(s: Seq<T>, x: T, before: spec_fn(T, T) -> bool)
    ensures
        0 <= insert_pos(s, x, before) <= s.len(),
        forall|j: int| 0 <= j < insert_pos(s, x, before) ==> !before(x, #[trigger] s[j]),
        insert_pos(s, x, before) < s.len() ==> before(x, s[insert_pos(s, x, before)]),
    decreases s.len(),
{
    if s.len() > 0 && !before(x, s[0]) {
        lemma_insert_pos(s.drop_first(), x, before);
        assert forall|j: int| 0 <= j < insert_pos(s, x, before) implies !before(x, #[trigger] s[j]) by {
            if j > 0 {
                assert(s[j] == s.drop_first()[j - 1]);
            }
        }
    }
}

/// The stable sort keeps every element, as a multiset, and its length.
pub proof fn lemma_stable_sort_multiset<T>(s: Seq<T>, before: spec_fn(T, T) -> bool)
    ensures
        stable_sort(s, before).to_multiset() == s.to_multiset(),
        stable_sort(s, before).len() == s.len(),
    decreases s.len(),
{
    broadcast use vstd::seq_lib::group_to_multiset_ensures;
    if s.len() > 0 {
        let prev = stable_sort(s.drop_last(), before);
        lemma_stable_sort_multiset(s.drop_last(), before);
        lemma_insert_pos(prev, s.last(), before);
        let p = insert_pos(prev, s.last(), before);
        let a = prev.take(p);
        let b = prev.skip(p);
        assert(prev =~= a + b);
        assert(insert_stable(prev, s.last(), before) =~= a + (seq![s.last()] + b));
        vstd::seq_lib::lemma_multiset_commutative(a, b);
        vstd::seq_lib::lemma_multiset_commutative(a, seq![s.last()] + b);
        vstd::seq_lib::lemma_multiset_commutative(seq![s.last()], b);
        assert(s =~= s.drop_last().push(s.last()));
    }
}

/// Under a strict order, the stable sort is sorted.
pub proof fn lemma_stable_sort_sorted<T>(s: Seq<T>, before: spec_fn(T, T) -> bool)
    requires
        is_strict_order(before),
    ensures
        is_sorted_by(stable_sort(s, before), before),
    decreases s.len(),
{
    if s.len() > 0 {
        let prev = stable_sort(s.drop_last(), before);
        lemma_stable_sort_sorted(s.drop_last(), before);
        let x = s.last();
        lemma_insert_pos(prev, x, before);
        let p = insert_pos(prev, x, before);
        let t = insert_stable(prev, x, before);
        assert forall|i: int, j: int| 0 <= i < j < t.len() implies !before(#[trigger] t[j], #[trigger] t[i]) by {
            if j < p {
                assert(t[i] == prev[i] && t[j] == prev[j]);
            } else if j == p {
                assert(t[i] == prev[i]);
            } else if i < p {
                assert(t[i] == prev[i] && t[j] == prev[j - 1]);
            } else if i == p {
                assert(t[j] == prev[j - 1]);
                if before(t[j], x) {
                    if j - 1 == p {
                        assert(before(prev[p], prev[p]));
                    } else {
                        assert(before(prev[j - 1], prev[p]));
                    }
                }
            } else {
                assert(t[i] == prev[i - 1] && t[j] == prev[j - 1]);
            }
        }
    }
}

/// When no element precedes another, sorting keeps the sequence as it is.
pub proof fn lemma_stable_sort_ties<T>(s: Seq<T>, before: spec_fn(T, T) -> bool)
    requires
        forall|i: int, j: int| 0 <= i < s.len() && 0 <= j < s.len() ==> !before(#[trigger] s[i], #[trigger] s[j]),
    ensures
        stable_sort(s, before) == s,
    decreases s.len(),
{
    if s.len() > 0 {
        let prev = s.drop_last();
        assert forall|i: int, j: int| 0 <= i < prev.len() && 0 <= j < prev.len() implies !before(#[trigger] prev[i], #[trigger] prev[j]) by {
            assert(prev[i] == s[i] && prev[j] == s[j]);
        }
        lemma_stable_sort_ties(prev, before);
        lemma_insert_pos_at_end(prev, s.last(), before);
        assert(prev.insert(prev.len() as int, s.last()) =~= s);
    }
}

/// An element that precedes nothing is inserted at the end.
proof fn lemma_insert_pos_at_end<T>(s: Seq<T>, x: T, before: spec_fn(T, T) -> bool)
    requires
        forall|j: int| 0 <= j < s.len() ==> !before(x, #[trigger] s[j]),
    ensures
        insert_pos(s, x, before) == s.len(),
    decreases s.len(),
{
    if s.len() > 0 {
        assert(!before(x, s[0]));
        assert forall|j: int| 0 <= j < s.drop_first().len() implies !before(x, #[trigger] s.drop_first()[j]) by {
            assert(s.drop_first()[j] == s[j + 1]);
        }
        lemma_insert_pos_at_end(s.drop_first(), x, before);
    }
}

/// Sorting keeps keys distinct: if no two elements share a key, no two elements
/// of the sorted sequence do.
pub proof fn lemma_stable_sort_distinct<T, K>(s: Seq<T>, before: spec_fn(T, T) -> bool, key: spec_fn(T) -> K)
    requires
        forall|i: int, j: int| 0 <= i < j < s.len() ==> key(#[trigger] s[i]) != key(#[trigger] s[j]),
    ensures
        forall|i: int, j: int|
            0 <= i < j < stable_sort(s, before).len() ==> key(#[trigger] stable_sort(s, before)[i]) != key(
                #[trigger] stable_sort(s, before)[j],
            ),
    decreases s.len(),
{
    broadcast use vstd::seq_lib::group_to_multiset_ensures;
    if s.len() > 0 {
        let rest = s.drop_last();
        let x = s.last();
        assert forall|i: int, j: int| 0 <= i < j < rest.len() implies key(#[trigger] rest[i]) != key(#[trigger] rest[j]) by {
            assert(rest[i] == s[i] && rest[j] == s[j]);
        }
        lemma_stable_sort_distinct(rest, before, key);
        lemma_stable_sort_multiset(rest, before);
        let prev = stable_sort(rest, before);
        assert forall|k: int| 0 <= k < prev.len() implies key(#[trigger] prev[k]) != key(x) by {
            assert(prev.contains(prev[k]));
            assert(prev.to_multiset().count(prev[k]) > 0);
            assert(rest.contains(prev[k]));
            let m = choose|m: int| 0 <= m < rest.len() && rest[m] == prev[k];
            assert(s[m] == prev[k]);
            assert(s[s.len() - 1] == x);
        }
        lemma_insert_pos(prev, x, before);
        let p = insert_pos(prev, x, before);
        let r = prev.insert(p, x);
        assert forall|i: int, j: int| 0 <= i < j < r.len() implies key(#[trigger] r[i]) != key(#[trigger] r[j]) by {
            if j < p {
                assert(r[i] == prev[i] && r[j] == prev[j]);
            } else if j == p {
                assert(r[i] == prev[i] && r[j] == x);
            } else if i < p {
                assert(r[i] == prev[i] && r[j] == prev[j - 1]);
            } else if i == p {
                assert(r[i] == x && r[j] == prev[j - 1]);
            } else {
                assert(r[i] == prev[i - 1] && r[j] == prev[j - 1]);
            }
        }
    }
}

} // verus!
