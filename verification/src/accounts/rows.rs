//! Rows of a table: finding the first that fits, and keeping those that do.
use vstd::prelude::*;

verus! {

/// The position of the first row at or after `i` that fits, or the number of
/// rows.
pub open spec fn first_from<T>(s: Seq<T>, fits: spec_fn(T) -> bool, i: int) -> int
    decreases s.len() - i,
{
    if i >= s.len() {
        s.len() as int
    } else if fits(s[i]) {
        i
    } else {
        first_from(s, fits, i + 1)
    }
}

/// The first row that fits, if any.
pub open spec fn first<T>(s: Seq<T>, fits: spec_fn(T) -> bool) -> Option<T> {
    let i = first_from(s, fits, 0);
    if i < s.len() {
        Some(s[i])
    } else {
        None
    }
}

/// What `first` means: a row that fits, if there is one at all.
pub proof fn lemma_first<T>(s: Seq<T>, fits: spec_fn(T) -> bool, i: int)
    requires
        0 <= i <= s.len(),
    ensures
        i <= first_from(s, fits, i) <= s.len(),
        forall|j: int| i <= j < first_from(s, fits, i) ==> !fits(#[trigger] s[j]),
        first_from(s, fits, i) < s.len() ==> fits(s[first_from(s, fits, i)]),
    decreases s.len() - i,
{
    if i < s.len() && !fits(s[i]) {
        lemma_first(s, fits, i + 1);
    }
}

/// What `first` gives where one row fits and no other does.
pub proof fn lemma_only<T>(s: Seq<T>, fits: spec_fn(T) -> bool, k: int)
    requires
        0 <= k < s.len(),
        fits(s[k]),
        forall|j: int| 0 <= j < k ==> !fits(#[trigger] s[j]),
    ensures
        first(s, fits) == Some(s[k]),
{
    lemma_first(s, fits, 0);
}

/// Keeping rows keeps every row that fits, and adds none.
pub proof fn lemma_kept<T>(s: Seq<T>, fits: spec_fn(T) -> bool)
    ensures
        forall|i: int|
            0 <= i < s.filter(fits).len() ==> fits(#[trigger] s.filter(fits)[i]) && s.contains(
                s.filter(fits)[i],
            ),
        forall|x: T| s.contains(x) && fits(x) ==> #[trigger] s.filter(fits).contains(x),
    decreases s.len(),
{
    reveal(Seq::filter);
    if s.len() > 0 {
        lemma_kept(s.drop_last(), fits);
        let before = s.drop_last().filter(fits);
        assert forall|i: int| 0 <= i < s.filter(fits).len() implies fits(
            #[trigger] s.filter(fits)[i],
        ) && s.contains(s.filter(fits)[i]) by {
            if i < before.len() {
                assert(s.filter(fits)[i] == before[i]);
                let j = s.drop_last().index_of(before[i]);
                assert(s[j] == before[i]);
            } else {
                assert(s[s.len() - 1] == s.filter(fits)[i]);
            }
        }
        assert forall|x: T| s.contains(x) && fits(x) implies #[trigger] s.filter(fits).contains(
            x,
        ) by {
            let j = s.index_of(x);
            if j < s.len() - 1 {
                assert(s.drop_last()[j] == x);
                assert(s.drop_last().contains(x));
                assert(before.contains(x));
                let k = before.index_of(x);
                assert(s.filter(fits)[k] == x);
            } else {
                assert(s.filter(fits)[before.len() as int] == x);
            }
        }
    }
}

/// Keeping rows keeps their order: two rows kept stood in the same order.
pub proof fn lemma_kept_order<T>(s: Seq<T>, fits: spec_fn(T) -> bool, i: int, j: int) -> (w: (
    int,
    int,
))
    requires
        0 <= i < j < s.filter(fits).len(),
    ensures
        0 <= w.0 < w.1 < s.len(),
        s[w.0] == s.filter(fits)[i],
        s[w.1] == s.filter(fits)[j],
    decreases s.len(),
{
    reveal(Seq::filter);
    let before = s.drop_last().filter(fits);
    if j < before.len() {
        let w = lemma_kept_order(s.drop_last(), fits, i, j);
        w
    } else {
        lemma_kept(s.drop_last(), fits);
        assert(before[i] == s.filter(fits)[i]);
        let k = s.drop_last().index_of(before[i]);
        assert(s[k] == before[i]);
        (k, s.len() - 1)
    }
}

/// Keeping rows that any fitting row is among does not change which fits first.
pub proof fn lemma_first_kept<T>(
    s: Seq<T>,
    fits: spec_fn(T) -> bool,
    stays: spec_fn(T) -> bool,
)
    requires
        forall|x: T| fits(x) ==> #[trigger] stays(x),
    ensures
        first(s.filter(stays), fits) == first(s, fits),
    decreases s.len(),
{
    reveal(Seq::filter);
    lemma_first(s, fits, 0);
    lemma_first(s.filter(stays), fits, 0);
    if s.len() > 0 {
        let before = s.drop_last();
        lemma_first_kept(before, fits, stays);
        lemma_first(before, fits, 0);
        lemma_first(before.filter(stays), fits, 0);
        let i = first_from(before, fits, 0);
        let j = first_from(before.filter(stays), fits, 0);
        if i < before.len() {
            assert(fits(s[i]));
            assert forall|k: int| 0 <= k < i implies !fits(#[trigger] s[k]) by {
                assert(s[k] == before[k]);
            }
            lemma_only(s, fits, i);
            assert(j < before.filter(stays).len());
            let kept = s.filter(stays);
            assert(kept[j] == before.filter(stays)[j]);
            assert forall|k: int| 0 <= k < j implies !fits(#[trigger] kept[k]) by {
                assert(kept[k] == before.filter(stays)[k]);
            }
            lemma_only(kept, fits, j);
        } else {
            assert(j == before.filter(stays).len());
            assert forall|k: int| 0 <= k < before.len() implies !fits(#[trigger] s[k]) by {
                assert(s[k] == before[k]);
            }
            let kept = s.filter(stays);
            assert forall|k: int| 0 <= k < before.filter(stays).len() implies !fits(
                #[trigger] kept[k],
            ) by {
                assert(kept[k] == before.filter(stays)[k]);
            }
            if fits(s.last()) {
                assert(stays(s.last()));
                lemma_only(s, fits, s.len() - 1);
                lemma_only(kept, fits, kept.len() - 1);
            } else {
                if first_from(s, fits, 0) < s.len() {
                    assert(fits(s[first_from(s, fits, 0)]));
                }
                if first_from(kept, fits, 0) < kept.len() {
                    assert(fits(kept[first_from(kept, fits, 0)]));
                }
            }
        }
    }
}

/// Takes away the rows that do not fit.
pub(crate) fn keep<T>(
    rows: &mut Vec<T>,
    test: impl Fn(&T) -> bool,
    Ghost(fits): Ghost<spec_fn(T) -> bool>,
)
    requires
        forall|x: &T| test.requires((x,)),
        forall|x: &T, b: bool| test.ensures((x,), b) ==> b == fits(*x),
    ensures
        final(rows)@ == old(rows)@.filter(fits),
{
    let ghost all = rows@;
    let mut i: usize = 0;
    let ghost mut k: int = 0;
    proof {
        reveal(Seq::filter);
        assert(all.take(0).filter(fits) =~= Seq::<T>::empty());
        assert(rows@ =~= all.take(0).filter(fits) + all.skip(0));
    }
    while i < rows.len()
        invariant
            forall|x: &T| test.requires((x,)),
            forall|x: &T, b: bool| test.ensures((x,), b) ==> b == fits(*x),
            0 <= k <= all.len(),
            i == all.take(k).filter(fits).len(),
            rows@ == all.take(k).filter(fits) + all.skip(k),
        decreases rows.len() - i,
    {
        let ghost front = all.take(k).filter(fits);
        proof {
            assert(rows@[i as int] == all[k]);
            assert(all.take(k + 1).drop_last() =~= all.take(k));
            reveal(Seq::filter);
        }
        if test(&rows[i]) {
            proof {
                assert(all.take(k + 1).filter(fits) =~= front.push(all[k]));
                assert(rows@ =~= front.push(all[k]) + all.skip(k + 1));
            }
            i += 1;
        } else {
            rows.remove(i);
            proof {
                assert(all.take(k + 1).filter(fits) =~= front);
                assert(rows@ =~= front + all.skip(k + 1));
            }
        }
        proof {
            k = k + 1;
        }
    }
    proof {
        assert(k == all.len());
        assert(all.take(k) =~= all);
        assert(rows@ =~= all.filter(fits));
    }
}

/// The position of the first row that fits.
pub(crate) fn find<T>(
    rows: &Vec<T>,
    test: impl Fn(&T) -> bool,
    Ghost(fits): Ghost<spec_fn(T) -> bool>,
) -> (r: Option<usize>)
    requires
        forall|x: &T| test.requires((x,)),
        forall|x: &T, b: bool| test.ensures((x,), b) ==> b == fits(*x),
    ensures
        match r {
            Some(i) => i < rows.len() && first_from(rows@, fits, 0) == i && first(rows@, fits)
                == Some(rows@[i as int]) && fits(rows@[i as int]),
            None => first(rows@, fits) is None && first_from(rows@, fits, 0) == rows.len(),
        },
{
    let mut i: usize = 0;
    while i < rows.len()
        invariant
            i <= rows.len(),
            forall|x: &T| test.requires((x,)),
            forall|x: &T, b: bool| test.ensures((x,), b) ==> b == fits(*x),
            first_from(rows@, fits, i as int) == first_from(rows@, fits, 0),
        decreases rows.len() - i,
    {
        if test(&rows[i]) {
            return Some(i);
        }
        i += 1;
    }
    None
}

} // verus!
