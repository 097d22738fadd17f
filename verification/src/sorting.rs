//! Stable sorting: its mathematical definition, its laws, and an executable sort.

use vstd::prelude::*;

verus! {

/// `le` relates every two values one way or the other, and is transitive.
pub open spec fn total_preorder<T>(le: spec_fn(T, T) -> bool) -> bool {
    &&& forall|a: T, b: T| #[trigger] le(a, b) || #[trigger] le(b, a)
    &&& forall|a: T, b: T, c: T| #[trigger] le(a, b) && #[trigger] le(b, c) ==> le(a, c)
}

/// Every element of `s` is followed only by elements that it may precede.
pub open spec fn ordered_by<T>(s: Seq<T>, le: spec_fn(T, T) -> bool) -> bool {
    forall|i: int, j: int| 0 <= i < j < s.len() ==> #[trigger] le(s[i], s[j])
}

/// `x` put into `t` in front of the first element that it may precede.
pub open spec fn insert_ordered<T>(x: T, t: Seq<T>, le: spec_fn(T, T) -> bool) -> Seq<T>
    decreases t.len(),
{
    if t.len() == 0 {
        seq![x]
    } else if le(x, t[0]) {
        seq![x] + t
    } else {
        seq![t[0]] + insert_ordered(x, t.drop_first(), le)
    }
}

/// The elements of `s` in ascending order of `le`; elements that `le` does not
/// tell apart keep the order they had in `s`.
pub open spec fn stable_sort<T>(s: Seq<T>, le: spec_fn(T, T) -> bool) -> Seq<T>
    decreases s.len(),
{
    if s.len() == 0 {
        s
    } else {
        insert_ordered(s[0], stable_sort(s.drop_first(), le), le)
    }
}

/// Putting an element in adds exactly that element.
pub proof fn lemma_insert_ordered_multiset<T>(x: T, t: Seq<T>, le: spec_fn(T, T) -> bool)
    ensures
        insert_ordered(x, t, le).len() == t.len() + 1,
        insert_ordered(x, t, le).to_multiset() =~= t.to_multiset().insert(x),
    decreases t.len(),
{
    broadcast use vstd::seq_lib::group_to_multiset_ensures;

    if t.len() == 0 {
        assert(seq![x] =~= t.push(x));
    } else if le(x, t[0]) {
        vstd::seq_lib::lemma_multiset_commutative(seq![x], t);
        assert(seq![x] =~= Seq::<T>::empty().push(x));
    } else {
        let rest = insert_ordered(x, t.drop_first(), le);
        lemma_insert_ordered_multiset(x, t.drop_first(), le);
        vstd::seq_lib::lemma_multiset_commutative(seq![t[0]], rest);
        vstd::seq_lib::lemma_multiset_commutative(seq![t[0]], t.drop_first());
        assert(seq![t[0]] + t.drop_first() =~= t);
    }
}

/// Sorting keeps the length and rearranges the elements: none is lost, added or
/// changed.
pub proof fn lemma_stable_sort_permutes<T>(s: Seq<T>, le: spec_fn(T, T) -> bool)
    ensures
        stable_sort(s, le).len() == s.len(),
        stable_sort(s, le).to_multiset() =~= s.to_multiset(),
    decreases s.len(),
{
    broadcast use vstd::seq_lib::group_to_multiset_ensures;

    if s.len() > 0 {
        lemma_stable_sort_permutes(s.drop_first(), le);
        lemma_insert_ordered_multiset(s[0], stable_sort(s.drop_first(), le), le);
        vstd::seq_lib::lemma_multiset_commutative(seq![s[0]], s.drop_first());
        assert(seq![s[0]] + s.drop_first() =~= s);
        assert(seq![s[0]] =~= Seq::<T>::empty().push(s[0]));
    }
}

/// What may precede `x` and every element of `t` may precede every element of
/// `t` with `x` put in.
pub proof fn lemma_insert_ordered_bound<T>(y: T, x: T, t: Seq<T>, le: spec_fn(T, T) -> bool)
    requires
        le(y, x),
        forall|k: int| 0 <= k < t.len() ==> le(y, #[trigger] t[k]),
    ensures
        forall|k: int|
            0 <= k < insert_ordered(x, t, le).len() ==> le(
                y,
                #[trigger] insert_ordered(x, t, le)[k],
            ),
    decreases t.len(),
{
    let out = insert_ordered(x, t, le);
    if t.len() == 0 {
    } else if le(x, t[0]) {
        assert forall|k: int| 0 <= k < out.len() implies le(y, #[trigger] out[k]) by {
            if k > 0 {
                assert(out[k] == t[k - 1]);
            }
        }
    } else {
        let rest = insert_ordered(x, t.drop_first(), le);
        assert forall|k: int| 0 <= k < t.drop_first().len() implies le(
            y,
            #[trigger] t.drop_first()[k],
        ) by {
            assert(t.drop_first()[k] == t[k + 1]);
        }
        lemma_insert_ordered_bound(y, x, t.drop_first(), le);
        assert forall|k: int| 0 <= k < out.len() implies le(y, #[trigger] out[k]) by {
            if k == 0 {
                assert(out[0] == t[0]);
            } else {
                assert(out[k] == rest[k - 1]);
            }
        }
    }
}

/// Putting an element into an ordered sequence leaves it ordered.
pub proof fn lemma_insert_ordered_keeps_order<T>(x: T, t: Seq<T>, le: spec_fn(T, T) -> bool)
    requires
        total_preorder(le),
        ordered_by(t, le),
    ensures
        ordered_by(insert_ordered(x, t, le), le),
    decreases t.len(),
{
    let out = insert_ordered(x, t, le);
    if t.len() == 0 {
    } else if le(x, t[0]) {
        assert forall|i: int, j: int| 0 <= i < j < out.len() implies #[trigger] le(
            out[i],
            out[j],
        ) by {
            if i == 0 {
                assert(out[j] == t[j - 1]);
                if j - 1 > 0 {
                    assert(le(t[0], t[j - 1]));
                }
            } else {
                assert(le(t[i - 1], t[j - 1]));
            }
        }
    } else {
        let rest = insert_ordered(x, t.drop_first(), le);
        assert(ordered_by(t.drop_first(), le)) by {
            assert forall|i: int, j: int| 0 <= i < j < t.drop_first().len() implies #[trigger] le(
                t.drop_first()[i],
                t.drop_first()[j],
            ) by {
                assert(le(t[i + 1], t[j + 1]));
            }
        }
        lemma_insert_ordered_keeps_order(x, t.drop_first(), le);
        assert(le(t[0], x));
        assert forall|k: int| 0 <= k < t.drop_first().len() implies le(
            t[0],
            #[trigger] t.drop_first()[k],
        ) by {
            assert(le(t[0], t[k + 1]));
        }
        lemma_insert_ordered_bound(t[0], x, t.drop_first(), le);
        assert forall|i: int, j: int| 0 <= i < j < out.len() implies #[trigger] le(
            out[i],
            out[j],
        ) by {
            if i == 0 {
                assert(out[j] == rest[j - 1]);
            } else {
                assert(le(rest[i - 1], rest[j - 1]));
            }
        }
    }
}

/// What a sort by a total preorder returns is in ascending order.
pub proof fn lemma_stable_sort_orders<T>(s: Seq<T>, le: spec_fn(T, T) -> bool)
    requires
        total_preorder(le),
    ensures
        ordered_by(stable_sort(s, le), le),
    decreases s.len(),
{
    if s.len() > 0 {
        lemma_stable_sort_orders(s.drop_first(), le);
        lemma_insert_ordered_keeps_order(s[0], stable_sort(s.drop_first(), le), le);
    }
}

/// Sorting neither drops a value nor brings in a new one.
pub proof fn lemma_stable_sort_members<T>(s: Seq<T>, le: spec_fn(T, T) -> bool)
    ensures
        forall|x: T| #[trigger] stable_sort(s, le).contains(x) <==> s.contains(x),
{
    broadcast use vstd::seq_lib::group_to_multiset_ensures;

    lemma_stable_sort_permutes(s, le);
    assert forall|x: T| #[trigger] stable_sort(s, le).contains(x) <==> s.contains(x) by {
        assert(stable_sort(s, le).to_multiset().count(x) == s.to_multiset().count(x));
    }
}

/// Putting in commutes with a mapping `f` that carries the order `le_a` of `x`
/// and the elements of `t` over to `le_b`.
pub proof fn lemma_insert_ordered_maps<A, B>(
    x: A,
    t: Seq<A>,
    f: spec_fn(A) -> B,
    le_a: spec_fn(A, A) -> bool,
    le_b: spec_fn(B, B) -> bool,
)
    requires
        forall|k: int| 0 <= k < t.len() ==> le_a(x, #[trigger] t[k]) == le_b(f(x), f(t[k])),
    ensures
        insert_ordered(x, t, le_a).map_values(f) == insert_ordered(f(x), t.map_values(f), le_b),
    decreases t.len(),
{
    let tb = t.map_values(f);
    if t.len() == 0 {
        assert(seq![x].map_values(f) =~= seq![f(x)]);
    } else {
        assert(le_a(x, t[0]) == le_b(f(x), f(t[0])));
        if le_a(x, t[0]) {
            assert((seq![x] + t).map_values(f) =~= seq![f(x)] + tb);
        } else {
            let rest = t.drop_first();
            assert forall|k: int| 0 <= k < rest.len() implies le_a(x, #[trigger] rest[k]) == le_b(
                f(x),
                f(rest[k]),
            ) by {
                assert(rest[k] == t[k + 1]);
            }
            lemma_insert_ordered_maps(x, rest, f, le_a, le_b);
            assert(rest.map_values(f) =~= tb.drop_first());
            assert((seq![t[0]] + insert_ordered(x, rest, le_a)).map_values(f) =~= seq![tb[0]]
                + insert_ordered(x, rest, le_a).map_values(f));
        }
    }
}

/// Sorting commutes with a mapping `f` that carries the order `le_a` of the
/// elements of `s` over to `le_b`.
pub proof fn lemma_stable_sort_maps<A, B>(
    s: Seq<A>,
    f: spec_fn(A) -> B,
    le_a: spec_fn(A, A) -> bool,
    le_b: spec_fn(B, B) -> bool,
)
    requires
        forall|i: int, j: int|
            0 <= i < s.len() && 0 <= j < s.len() ==> #[trigger] le_a(s[i], s[j]) == le_b(
                f(s[i]),
                f(s[j]),
            ),
    ensures
        stable_sort(s, le_a).map_values(f) == stable_sort(s.map_values(f), le_b),
    decreases s.len(),
{
    if s.len() == 0 {
        assert(s.map_values(f) =~= Seq::<B>::empty());
        assert(stable_sort(s, le_a).map_values(f) =~= Seq::<B>::empty());
    } else {
        let rest = s.drop_first();
        let sorted = stable_sort(rest, le_a);
        assert forall|i: int, j: int| 0 <= i < rest.len() && 0 <= j < rest.len() implies #[trigger] le_a(
            rest[i],
            rest[j],
        ) == le_b(f(rest[i]), f(rest[j])) by {
            assert(le_a(s[i + 1], s[j + 1]) == le_b(f(s[i + 1]), f(s[j + 1])));
        }
        lemma_stable_sort_maps(rest, f, le_a, le_b);
        lemma_stable_sort_members(rest, le_a);
        assert forall|k: int| 0 <= k < sorted.len() implies le_a(s[0], #[trigger] sorted[k])
            == le_b(f(s[0]), f(sorted[k])) by {
            assert(sorted.contains(sorted[k]));
            assert(rest.contains(sorted[k]));
            let j = choose|j: int| 0 <= j < rest.len() && rest[j] == sorted[k];
            assert(le_a(s[0], s[j + 1]) == le_b(f(s[0]), f(s[j + 1])));
        }
        lemma_insert_ordered_maps(s[0], sorted, f, le_a, le_b);
        assert(rest.map_values(f) =~= s.map_values(f).drop_first());
    }
}

/// Whether `le` orders `a` and `b` each before the other.
pub open spec fn same_rank<T>(a: T, b: T, le: spec_fn(T, T) -> bool) -> bool {
    le(a, b) && le(b, a)
}

/// Putting `e` in leaves the elements that rank with `x` in their order; `e`
/// comes first among them if it ranks with `x` too.
pub proof fn lemma_insert_ordered_is_stable<T>(
    e: T,
    t: Seq<T>,
    x: T,
    le: spec_fn(T, T) -> bool,
)
    requires
        total_preorder(le),
    ensures
        insert_ordered(e, t, le).filter(|y: T| same_rank(x, y, le)) == if same_rank(x, e, le) {
            seq![e] + t.filter(|y: T| same_rank(x, y, le))
        } else {
            t.filter(|y: T| same_rank(x, y, le))
        },
    decreases t.len(),
{
    broadcast use Seq::filter_distributes_over_add;

    let p = |y: T| same_rank(x, y, le);
    let one = seq![e];
    assert(one.filter(p) =~= if p(e) {
        one
    } else {
        Seq::<T>::empty()
    }) by {
        reveal_with_fuel(Seq::filter, 2);
        assert(one.drop_last() =~= Seq::<T>::empty());
    }
    if t.len() == 0 {
        assert(t.filter(p) =~= Seq::<T>::empty());
        assert(insert_ordered(e, t, le) == one);
        assert(one + Seq::<T>::empty() =~= one);
    } else if le(e, t[0]) {
        assert((one + t).filter(p) == one.filter(p) + t.filter(p));
        assert(Seq::<T>::empty() + t.filter(p) =~= t.filter(p));
    } else {
        let head = seq![t[0]];
        let rest = t.drop_first();
        assert(head.filter(p) =~= if p(t[0]) {
            head
        } else {
            Seq::<T>::empty()
        }) by {
            reveal_with_fuel(Seq::filter, 2);
            assert(head.drop_last() =~= Seq::<T>::empty());
        }
        lemma_insert_ordered_is_stable(e, rest, x, le);
        assert(head + rest =~= t);
        assert((head + rest).filter(p) == head.filter(p) + rest.filter(p));
        assert((head + insert_ordered(e, rest, le)).filter(p) == head.filter(p) + insert_ordered(
            e,
            rest,
            le,
        ).filter(p));
        if p(e) {
            assert(!p(t[0]));
            assert(Seq::<T>::empty() + (one + rest.filter(p)) =~= one + rest.filter(p));
            assert(Seq::<T>::empty() + rest.filter(p) =~= rest.filter(p));
        } else {
            assert(head.filter(p) + rest.filter(p) =~= t.filter(p));
        }
    }
}

/// Sorting is stable: the elements that rank with any given `x` come out in the
/// order in which they went in.
pub proof fn lemma_stable_sort_is_stable<T>(s: Seq<T>, x: T, le: spec_fn(T, T) -> bool)
    requires
        total_preorder(le),
    ensures
        stable_sort(s, le).filter(|y: T| same_rank(x, y, le)) == s.filter(
            |y: T| same_rank(x, y, le),
        ),
    decreases s.len(),
{
    broadcast use Seq::filter_distributes_over_add;

    let p = |y: T| same_rank(x, y, le);
    if s.len() > 0 {
        let head = seq![s[0]];
        let rest = s.drop_first();
        lemma_stable_sort_is_stable(rest, x, le);
        lemma_insert_ordered_is_stable(s[0], stable_sort(rest, le), x, le);
        assert(head.filter(p) =~= if p(s[0]) {
            head
        } else {
            Seq::<T>::empty()
        }) by {
            reveal_with_fuel(Seq::filter, 2);
            assert(head.drop_last() =~= Seq::<T>::empty());
        }
        assert(head + rest =~= s);
        assert((head + rest).filter(p) == head.filter(p) + rest.filter(p));
        assert(Seq::<T>::empty() + rest.filter(p) =~= rest.filter(p));
    }
}

/// Where `x` goes: behind `pos` elements that it may not precede, and in front
/// of one that it may, or at the end.
pub proof fn lemma_insert_ordered_at<T>(x: T, t: Seq<T>, le: spec_fn(T, T) -> bool, pos: int)
    requires
        0 <= pos <= t.len(),
        forall|k: int| 0 <= k < pos ==> !le(x, #[trigger] t[k]),
        pos < t.len() ==> le(x, t[pos]),
    ensures
        insert_ordered(x, t, le) == t.insert(pos, x),
    decreases t.len(),
{
    if t.len() == 0 {
        assert(t.insert(pos, x) =~= seq![x]);
    } else if pos == 0 {
        assert(t.insert(0, x) =~= seq![x] + t);
    } else {
        assert(!le(x, t[0]));
        assert forall|k: int| 0 <= k < pos - 1 implies !le(x, #[trigger] t.drop_first()[k]) by {
            assert(t.drop_first()[k] == t[k + 1]);
        }
        lemma_insert_ordered_at(x, t.drop_first(), le, pos - 1);
        assert(t.insert(pos, x) =~= seq![t[0]] + t.drop_first().insert(pos - 1, x));
    }
}

/// The values of `s` without repetition, each where it first occurs.
pub open spec fn distinct<T>(s: Seq<T>) -> Seq<T>
    decreases s.len(),
{
    if s.len() == 0 {
        s
    } else if distinct(s.drop_last()).contains(s.last()) {
        distinct(s.drop_last())
    } else {
        distinct(s.drop_last()).push(s.last())
    }
}

/// `distinct` keeps exactly the values of `s`, each once.
pub proof fn lemma_distinct_holds_each_once<T>(s: Seq<T>)
    ensures
        distinct(s).no_duplicates(),
        forall|x: T| #[trigger] distinct(s).contains(x) <==> s.contains(x),
    decreases s.len(),
{
    if s.len() > 0 {
        let front = s.drop_last();
        lemma_distinct_holds_each_once(front);
        assert forall|x: T| #[trigger] distinct(s).contains(x) <==> s.contains(x) by {
            if s.contains(x) {
                let i = choose|i: int| 0 <= i < s.len() && s[i] == x;
                if i < s.len() - 1 {
                    assert(front[i] == x);
                    assert(front.contains(x));
                    assert(distinct(front).contains(x));
                    let k = choose|k: int|
                        0 <= k < distinct(front).len() && distinct(front)[k] == x;
                    assert(distinct(s)[k] == x);
                } else if !distinct(front).contains(x) {
                    assert(distinct(s)[distinct(front).len() as int] == x);
                }
            }
            if distinct(s).contains(x) {
                let k = choose|k: int| 0 <= k < distinct(s).len() && distinct(s)[k] == x;
                if k < distinct(front).len() {
                    assert(distinct(front)[k] == x);
                    assert(distinct(front).contains(x));
                    let i = choose|i: int| 0 <= i < front.len() && front[i] == x;
                    assert(s[i] == x);
                } else {
                    assert(s[s.len() - 1] == x);
                }
            }
        }
    }
}

/// A type whose values have a rank by which they are sorted.
pub trait Ranked: Sized {
    /// Whether `self` may stand in front of `other` in ascending order.
    spec fn precedes(&self, other: &Self) -> bool;

    /// Decides `precedes`.
    fn comes_before(&self, other: &Self) -> (b: bool)
        ensures
            b == self.precedes(other),
    ;
}

/// The order of a ranked type, as a relation.
pub open spec fn rank_le<T: Ranked>() -> spec_fn(T, T) -> bool {
    |a: T, b: T| a.precedes(&b)
}

/// Sorts `items` in ascending order of rank; items of equal rank keep their
/// order.
pub fn sort_stably<T: Ranked>(items: Vec<T>) -> (out: Vec<T>)
    ensures
        out@ == stable_sort(items@, rank_le::<T>()),
{
    let ghost whole = items@;
    let ghost le = rank_le::<T>();
    let mut items = items;
    let mut out: Vec<T> = Vec::new();
    proof {
        assert(whole.skip(whole.len() as int) =~= Seq::<T>::empty());
    }
    while items.len() > 0
        invariant
            le == rank_le::<T>(),
            items@.len() <= whole.len(),
            items@ == whole.take(items@.len() as int),
            out@ == stable_sort(whole.skip(items@.len() as int), le),
        decreases items@.len(),
    {
        let ghost n = items@.len() as int;
        let x = items.pop().unwrap();
        let mut pos: usize = 0;
        while pos < out.len() && !x.comes_before(&out[pos])
            invariant
                le == rank_le::<T>(),
                pos <= out@.len(),
                forall|k: int| 0 <= k < pos ==> !le(x, #[trigger] out@[k]),
            decreases out@.len() - pos,
        {
            pos += 1;
        }
        proof {
            lemma_insert_ordered_at(x, out@, le, pos as int);
            assert(x == whole[n - 1]);
            assert(whole.skip(n - 1).drop_first() =~= whole.skip(n));
            assert(items@ =~= whole.take(n - 1));
        }
        out.insert(pos, x);
    }
    proof {
        assert(whole.skip(0) =~= whole);
    }
    out
}

} // verus!
