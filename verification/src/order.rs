//! Putting a list in order: what may stand before what is the caller's business,
//! and what may stand either way stays as it came.
use vstd::prelude::*;

verus! {

/// Whether a relation puts any two items in an order, though perhaps in both.
pub open spec fn is_order<A>(before: spec_fn(A, A) -> bool) -> bool {
    &&& forall|x: A, y: A| #[trigger] before(x, y) || before(y, x)
    &&& forall|x: A, y: A, z: A| #[trigger]
        before(x, y) && #[trigger] before(y, z) ==> before(x, z)
}

/// Whether an item may stand on either side of another.
pub open spec fn like<A>(before: spec_fn(A, A) -> bool, x: A) -> spec_fn(A) -> bool {
    |y: A| before(x, y) && before(y, x)
}

/// Whether each item of a list may stand before all that follow it.
pub open spec fn is_sorted<A>(list: Seq<A>, before: spec_fn(A, A) -> bool) -> bool {
    forall|i: int, j: int| 0 <= i < j < list.len() ==> before(#[trigger] list[i], #[trigger] list[j])
}

/// Whether a list is another one in order, with items that may stand on either
/// side of each other left as they came.
pub open spec fn is_ordered_from<A>(
    list: Seq<A>,
    given: Seq<A>,
    before: spec_fn(A, A) -> bool,
) -> bool {
    &&& list.len() == given.len()
    &&& is_sorted(list, before)
    &&& forall|x: A| #[trigger]
        list.filter(like(before, x)) == given.filter(like(before, x))
}

/// What a filter makes of a list, by the list's last item.
proof fn lemma_filter_last<A>(s: Seq<A>, f: spec_fn(A) -> bool)
    requires
        s.len() > 0,
    ensures
        s.filter(f) == if f(s.last()) {
            s.drop_last().filter(f).push(s.last())
        } else {
            s.drop_last().filter(f)
        },
{
    reveal(Seq::filter);
}

/// What a filter keeps was there.
proof fn lemma_filter_within<A>(s: Seq<A>, f: spec_fn(A) -> bool, i: int)
    requires
        0 <= i < s.filter(f).len(),
    ensures
        s.contains(s.filter(f)[i]),
    decreases s.len(),
{
    reveal(Seq::filter);
    if s.len() > 0 {
        let rest = s.drop_last();
        if f(s.last()) && i == rest.filter(f).len() {
            assert(s[s.len() - 1] == s.last());
        } else {
            lemma_filter_within(rest, f, i);
            let j = choose|j: int| 0 <= j < rest.len() && rest[j] == rest.filter(f)[i];
            assert(s[j] == rest[j]);
        }
    }
}

/// Putting an item behind all that may stand before it keeps the order.
proof fn lemma_placed<A>(
    list: Seq<A>,
    given: Seq<A>,
    before: spec_fn(A, A) -> bool,
    k: int,
    item: A,
)
    requires
        is_order(before),
        0 <= k <= list.len(),
        is_ordered_from(list, given, before),
        forall|j: int| 0 <= j < k ==> before(#[trigger] list[j], item),
        k < list.len() ==> !before(list[k], item),
    ensures
        is_ordered_from(list.insert(k, item), given.push(item), before),
{
    let after = list.insert(k, item);
    assert forall|j: int| k <= j < list.len() implies !before(#[trigger] list[j], item) by {
        if j > k {
            assert(before(list[k], list[j]));
        }
    }
    assert forall|p: int, q: int| 0 <= p < q < after.len() implies before(
        #[trigger] after[p],
        #[trigger] after[q],
    ) by {
        let po = if p < k {
            p
        } else {
            p - 1
        };
        let qo = if q < k {
            q
        } else {
            q - 1
        };
        if p == k {
            assert(!before(list[qo], item));
            assert(before(item, list[qo]));
        } else if q == k {
            assert(before(list[po], item));
        } else {
            assert(before(list[po], list[qo]));
        }
    }
    let head = list.take(k);
    let tail = list.skip(k);
    let one = seq![item];
    assert(list =~= head + tail);
    assert(after =~= head + one + tail);
    assert(given.push(item) =~= given + one);
    assert forall|x: A| #[trigger]
        after.filter(like(before, x)) == given.push(item).filter(like(before, x)) by {
        let f = like(before, x);
        Seq::filter_distributes_over_add(head, tail, f);
        Seq::filter_distributes_over_add(head + one, tail, f);
        Seq::filter_distributes_over_add(head, one, f);
        Seq::filter_distributes_over_add(given, one, f);
        assert(list.filter(f) == given.filter(f));
        if f(item) {
            let kept = tail.filter(f);
            if kept.len() > 0 {
                tail.lemma_filter_pred(f, 0);
                assert(f(kept[0]));
                lemma_filter_within(tail, f, 0);
                let j = choose|j: int| 0 <= j < tail.len() && tail[j] == kept[0];
                assert(before(list[k + j], x) && before(x, item));
                assert(before(list[k + j], item));
                assert(false);
            }
            assert(kept =~= Seq::empty());
            assert(head.filter(f) + one.filter(f) + kept =~= head.filter(f) + kept + one.filter(f));
        } else {
            assert(one.filter(f) =~= Seq::empty()) by {
                lemma_filter_last(one, f);
                one.drop_last().lemma_filter_len(f);
            }
            assert(head.filter(f) + one.filter(f) + tail.filter(f) =~= head.filter(f)
                + tail.filter(f) + one.filter(f));
        }
    }
}

/// Puts a list in order.
pub(crate) fn put_in_order<A, F: Fn(&A, &A) -> bool>(
    items: Vec<A>,
    may_precede: F,
    Ghost(before): Ghost<spec_fn(A, A) -> bool>,
) -> (r: Vec<A>)
    requires
        is_order(before),
        forall|x: A, y: A| #[trigger] call_requires(may_precede, (&x, &y)),
        forall|x: A, y: A, b: bool| #[trigger]
            call_ensures(may_precede, (&x, &y), b) ==> b == before(x, y),
    ensures
        is_ordered_from(r@, items@, before),
{
    let ghost given = items@;
    let mut rest = items;
    let mut r: Vec<A> = Vec::new();
    proof {
        assert(given.take(0) =~= r@);
        assert(given.skip(0) =~= given);
    }
    while rest.len() > 0
        invariant
            is_order(before),
            forall|x: A, y: A| #[trigger] call_requires(may_precede, (&x, &y)),
            forall|x: A, y: A, b: bool| #[trigger]
                call_ensures(may_precede, (&x, &y), b) ==> b == before(x, y),
            r.len() <= given.len(),
            rest@ == given.skip(r.len() as int),
            is_ordered_from(r@, given.take(r.len() as int), before),
        decreases rest.len(),
    {
        let ghost n = r.len() as int;
        let item = rest.remove(0);
        let mut k: usize = 0;
        while k < r.len() && may_precede(&r[k], &item)
            invariant
                k <= r.len(),
                forall|x: A, y: A| #[trigger] call_requires(may_precede, (&x, &y)),
                forall|x: A, y: A, b: bool| #[trigger]
                    call_ensures(may_precede, (&x, &y), b) ==> b == before(x, y),
                forall|j: int| 0 <= j < k ==> before(#[trigger] r@[j], item),
            ensures
                k <= r.len(),
                forall|j: int| 0 <= j < k ==> before(#[trigger] r@[j], item),
                k < r.len() ==> !before(r@[k as int], item),
            decreases r.len() - k,
        {
            k += 1;
        }
        let ghost list = r@;
        proof {
            lemma_placed(list, given.take(n), before, k as int, item);
            assert(given.skip(n).remove(0) =~= given.skip(n + 1));
            assert(given.skip(n)[0] == given[n]);
            assert(given.take(n + 1) =~= given.take(n).push(item));
        }
        r.insert(k, item);
        assert(r@ =~= list.insert(k as int, item));
    }
    proof {
        assert(given.take(given.len() as int) =~= given);
    }
    r
}

/// Of two lists in order that hold the same items, the last of the one may stand
/// before the last of the other.
proof fn lemma_last<A>(a: Seq<A>, b: Seq<A>, before: spec_fn(A, A) -> bool)
    requires
        is_order(before),
        a.len() > 0,
        b.len() == a.len(),
        is_sorted(b, before),
        forall|x: A| #[trigger] a.filter(like(before, x)) == b.filter(like(before, x)),
    ensures
        before(a.last(), b.last()),
{
    let x = a.last();
    let f = like(before, x);
    assert(before(x, x));
    lemma_filter_last(a, f);
    let kept = b.filter(f);
    assert(a.filter(f) == kept);
    b.lemma_filter_pred(f, kept.len() - 1);
    lemma_filter_within(b, f, kept.len() - 1);
    let j = choose|j: int| 0 <= j < b.len() && b[j] == kept[kept.len() - 1];
    assert(before(x, b[j]));
    if j < b.len() - 1 {
        assert(before(b[j], b[b.len() - 1]));
    }
}

/// The order that a list is put in is settled by the list: two results that are
/// both it are the same.
pub proof fn order_is_unique<A>(
    a: Seq<A>,
    b: Seq<A>,
    given: Seq<A>,
    before: spec_fn(A, A) -> bool,
)
    requires
        is_order(before),
        is_ordered_from(a, given, before),
        is_ordered_from(b, given, before),
    ensures
        a == b,
    decreases a.len(),
{
    if a.len() > 0 {
        let x = a.last();
        let y = b.last();
        assert forall|z: A| #[trigger] a.filter(like(before, z)) == b.filter(like(before, z)) by {
            assert(a.filter(like(before, z)) == given.filter(like(before, z)));
            assert(b.filter(like(before, z)) == given.filter(like(before, z)));
        }
        lemma_last(a, b, before);
        lemma_last(b, a, before);
        let f = like(before, x);
        assert(before(x, x));
        lemma_filter_last(a, f);
        lemma_filter_last(b, f);
        assert(a.filter(f).last() == x && b.filter(f).last() == y);
        let c = a.drop_last();
        let d = b.drop_last();
        assert forall|z: A| #[trigger] d.filter(like(before, z)) == c.filter(like(before, z)) by {
            let g = like(before, z);
            lemma_filter_last(a, g);
            lemma_filter_last(b, g);
            assert(a.filter(g) == b.filter(g));
            if g(x) {
                assert(c.filter(g) =~= a.filter(g).drop_last());
                assert(d.filter(g) =~= b.filter(g).drop_last());
            }
        }
        assert forall|i: int, j: int| 0 <= i < j < c.len() implies before(
            #[trigger] c[i],
            #[trigger] c[j],
        ) by {
            assert(before(a[i], a[j]));
        }
        assert forall|i: int, j: int| 0 <= i < j < d.len() implies before(
            #[trigger] d[i],
            #[trigger] d[j],
        ) by {
            assert(before(b[i], b[j]));
        }
        order_is_unique(c, d, c, before);
        assert(a =~= c.push(x));
        assert(b =~= d.push(y));
    } else {
        assert(a =~= b);
    }
}

} // verus!
