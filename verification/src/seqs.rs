//! Facts about sequences that several modules share.

use vstd::prelude::*;

verus! {

/// `s` with every value kept at its first occurrence only.
pub open spec fn first_occurrences<T>(s: Seq<T>) -> Seq<T>
    decreases s.len(),
{
    if s.len() == 0 {
        s
    } else {
        let front = first_occurrences(s.drop_last());
        if s.drop_last().contains(s.last()) {
            front
        } else {
            front.push(s.last())
        }
    }
}

/// Keeping first occurrences loses no value and adds none.
pub proof fn lemma_first_occurrences_same<T>(s: Seq<T>)
    ensures
        forall|x: T| #[trigger] first_occurrences(s).contains(x) <==> s.contains(x),
        first_occurrences(s).len() <= s.len(),
    decreases s.len(),
{
    if s.len() > 0 {
        let front = s.drop_last();
        lemma_first_occurrences_same(front);
        let kept = first_occurrences(front);
        let out = first_occurrences(s);
        assert forall|x: T| #[trigger] out.contains(x) <==> s.contains(x) by {
            if out.contains(x) {
                let m = choose|m: int| 0 <= m < out.len() && out[m] == x;
                if m < kept.len() {
                    assert(kept[m] == x);
                    assert(kept.contains(x));
                    assert(front.contains(x));
                    let k = choose|k: int| 0 <= k < front.len() && front[k] == x;
                    assert(s[k] == x);
                } else {
                    assert(s[s.len() - 1] == x);
                }
            }
            if s.contains(x) {
                let k = choose|k: int| 0 <= k < s.len() && s[k] == x;
                if k < front.len() {
                    assert(front[k] == x);
                    assert(front.contains(x));
                    assert(kept.contains(x));
                    let m = choose|m: int| 0 <= m < kept.len() && kept[m] == x;
                    assert(out[m] == x);
                } else if front.contains(x) {
                    assert(kept.contains(x));
                    let m = choose|m: int| 0 <= m < kept.len() && kept[m] == x;
                    assert(out[m] == x);
                } else {
                    assert(out[kept.len() as int] == x);
                }
            }
        }
    }
}

/// No value occurs twice among the first occurrences.
pub proof fn lemma_first_occurrences_distinct<T>(s: Seq<T>)
    ensures
        first_occurrences(s).no_duplicates(),
    decreases s.len(),
{
    if s.len() > 0 {
        let front = s.drop_last();
        lemma_first_occurrences_distinct(front);
        lemma_first_occurrences_same(front);
        let kept = first_occurrences(front);
        if !front.contains(s.last()) {
            assert forall|i: int, j: int|
                0 <= i < kept.len() + 1 && 0 <= j < kept.len() + 1 && i != j implies kept.push(
                s.last(),
            )[i] != kept.push(s.last())[j] by {
                if i < kept.len() && j < kept.len() {
                } else if i < kept.len() {
                    assert(kept.contains(kept[i]));
                } else {
                    assert(kept.contains(kept[j]));
                }
            }
        }
    }
}

/// The positions below `n` at which `wanted` holds, in ascending order.
pub open spec fn positions_where(n: int, wanted: spec_fn(int) -> bool) -> Seq<int>
    decreases n,
{
    if n <= 0 {
        Seq::<int>::empty()
    } else if wanted(n - 1) {
        positions_where(n - 1, wanted).push(n - 1)
    } else {
        positions_where(n - 1, wanted)
    }
}

/// The positions found are exactly the wanted positions below `n`, and they
/// ascend.
pub proof fn lemma_positions_where(n: int, wanted: spec_fn(int) -> bool)
    ensures
        forall|i: int| #[trigger]
            positions_where(n, wanted).contains(i) <==> (0 <= i < n && wanted(i)),
        forall|a: int, b: int|
            0 <= a < b < positions_where(n, wanted).len() ==> positions_where(n, wanted)[a]
                < positions_where(n, wanted)[b],
        forall|a: int|
            0 <= a < positions_where(n, wanted).len() ==> 0 <= #[trigger] positions_where(
                n,
                wanted,
            )[a] < n,
        positions_where(n, wanted).len() <= if n < 0 { 0 } else { n },
    decreases n,
{
    if n > 0 {
        lemma_positions_where(n - 1, wanted);
        let rest = positions_where(n - 1, wanted);
        let all = positions_where(n, wanted);
        assert forall|i: int| #[trigger] all.contains(i) <==> (0 <= i < n && wanted(i)) by {
            if all.contains(i) {
                let m = choose|m: int| 0 <= m < all.len() && all[m] == i;
                if m < rest.len() {
                    assert(rest[m] == i);
                    assert(rest.contains(i));
                }
            }
            if 0 <= i < n && wanted(i) {
                if i < n - 1 {
                    assert(rest.contains(i));
                    let m = choose|m: int| 0 <= m < rest.len() && rest[m] == i;
                    assert(all[m] == i);
                } else {
                    assert(all[rest.len() as int] == i);
                }
            }
        }
    }
}

/// The values of a sequence of machine indices.
pub open spec fn index_views(v: Seq<usize>) -> Seq<int> {
    Seq::new(v.len(), |i: int| v[i] as int)
}

/// Where no item meets the condition, nothing passes the filter.
pub proof fn lemma_filter_none<T>(s: Seq<T>, pred: spec_fn(T) -> bool)
    requires
        forall|i: int| 0 <= i < s.len() ==> !pred(#[trigger] s[i]),
    ensures
        s.filter(pred) == Seq::<T>::empty(),
    decreases s.len(),
{
    if s.len() == 0 {
        s.lemma_filter_len(pred);
        assert(s.filter(pred) =~= Seq::<T>::empty());
    } else {
        let front = s.drop_last();
        assert forall|i: int| 0 <= i < front.len() implies !pred(#[trigger] front[i]) by {
            assert(front[i] == s[i]);
        }
        lemma_filter_none(front, pred);
        assert(s =~= front.push(s.last()));
        front.lemma_filter_push(s.last(), pred);
    }
}

/// An item put in behind every item that meets the condition comes last
/// among those that pass the filter, if it meets the condition itself, and
/// does not show among them otherwise.
pub proof fn lemma_filter_insert<T>(s: Seq<T>, pos: int, x: T, pred: spec_fn(T) -> bool)
    requires
        0 <= pos <= s.len(),
        pred(x) ==> forall|j: int| pos <= j < s.len() ==> !pred(#[trigger] s[j]),
    ensures
        s.insert(pos, x).filter(pred) == if pred(x) {
            s.filter(pred).push(x)
        } else {
            s.filter(pred)
        },
{
    let head = s.take(pos);
    let tail = s.skip(pos);
    let one = Seq::<T>::empty().push(x);
    assert(s.insert(pos, x) =~= (head + one) + tail);
    assert(s =~= head + tail);
    Seq::filter_distributes_over_add(head + one, tail, pred);
    Seq::filter_distributes_over_add(head, one, pred);
    Seq::filter_distributes_over_add(head, tail, pred);
    Seq::<T>::empty().lemma_filter_push(x, pred);
    lemma_filter_none(Seq::<T>::empty(), pred);
    if pred(x) {
        assert forall|j: int| 0 <= j < tail.len() implies !pred(#[trigger] tail[j]) by {
            assert(tail[j] == s[pos + j]);
        }
        lemma_filter_none(tail, pred);
        assert(s.insert(pos, x).filter(pred) =~= s.filter(pred).push(x));
    } else {
        assert(s.insert(pos, x).filter(pred) =~= s.filter(pred));
    }
}

/// What passes a filter is what was there and meets the condition.
pub proof fn lemma_filter_members<T>(s: Seq<T>, pred: spec_fn(T) -> bool, x: T)
    ensures
        s.filter(pred).contains(x) <==> (s.contains(x) && pred(x)),
{
    if s.filter(pred).contains(x) {
        s.lemma_filter_contains_rev(pred, x);
        let m = choose|m: int| 0 <= m < s.filter(pred).len() && s.filter(pred)[m] == x;
        s.lemma_filter_pred(pred, m);
    }
    if s.contains(x) && pred(x) {
        let k = choose|k: int| 0 <= k < s.len() && s[k] == x;
        s.lemma_filter_contains(pred, k);
    }
}

/// `s` cut at every occurrence of `sep`, empty pieces included: one piece
/// more than there are separators.
pub open spec fn split_at<T>(s: Seq<T>, sep: T) -> Seq<Seq<T>>
    decreases s.len(),
{
    if s.len() == 0 {
        seq![Seq::<T>::empty()]
    } else {
        let before = split_at(s.drop_last(), sep);
        if s.last() == sep {
            before.push(Seq::<T>::empty())
        } else {
            before.drop_last().push(before.last().push(s.last()))
        }
    }
}

/// Cutting gives at least one piece.
pub proof fn lemma_split_at_nonempty<T>(s: Seq<T>, sep: T)
    ensures
        split_at(s, sep).len() > 0,
    decreases s.len(),
{
    if s.len() > 0 {
        lemma_split_at_nonempty(s.drop_last(), sep);
    }
}

/// The items in reverse order.
pub fn reversed<T>(v: Vec<T>) -> (out: Vec<T>)
    ensures
        out@.len() == v@.len(),
        forall|j: int| 0 <= j < v@.len() ==> out@[j] == v@[v@.len() - 1 - j],
{
    let mut v = v;
    let ghost initial = v@;
    let mut out: Vec<T> = Vec::new();
    while v.len() > 0
        invariant
            v@.len() + out@.len() == initial.len(),
            forall|j: int| 0 <= j < v@.len() ==> v@[j] == initial[j],
            forall|j: int| 0 <= j < out@.len() ==> out@[j] == initial[initial.len() - 1 - j],
        decreases v@.len(),
    {
        match v.pop() {
            Some(item) => out.push(item),
            None => {},
        }
    }
    out
}

} // verus!
