//! A map from names to values, kept in the order of the names.
use crate::text::{in_order, le, lemma_le_total, lemma_le_transitive, not_after, same, texts};
use vstd::prelude::*;

verus! {

/// A map from names to values.
pub struct Table<V> {
    rows: Vec<(String, V)>,
}

/// The names of a list of rows.
pub closed spec fn names_of<V>(rows: Seq<(String, V)>) -> Seq<Seq<char>> {
    rows.map_values(|r: (String, V)| r.0@)
}

/// The map that a list of rows stands for.
pub closed spec fn map_of<V>(rows: Seq<(String, V)>) -> Map<Seq<char>, V> {
    Map::new(
        |k: Seq<char>| names_of(rows).contains(k),
        |k: Seq<char>| rows[names_of(rows).index_of(k)].1,
    )
}

/// Names in order, none of them twice.
pub closed spec fn ordered<V>(rows: Seq<(String, V)>) -> bool {
    in_order(names_of(rows)) && names_of(rows).no_duplicates()
}

impl<V> View for Table<V> {
    type V = Map<Seq<char>, V>;

    closed spec fn view(&self) -> Map<Seq<char>, V> {
        map_of(self.rows@)
    }
}

proof fn lemma_at<V>(rows: Seq<(String, V)>, i: int)
    requires
        ordered(rows),
        0 <= i < rows.len(),
    ensures
        map_of(rows).contains_key(rows[i].0@),
        map_of(rows)[rows[i].0@] == rows[i].1,
{
    assert(names_of(rows)[i] == rows[i].0@);
    assert(names_of(rows).contains(rows[i].0@));
    let j = names_of(rows).index_of(rows[i].0@);
    assert(names_of(rows)[j] == names_of(rows)[i]);
}

proof fn lemma_absent<V>(rows: Seq<(String, V)>, k: Seq<char>)
    requires
        forall|i: int| 0 <= i < rows.len() ==> (#[trigger] rows[i]).0@ != k,
    ensures
        !map_of(rows).contains_key(k),
{
    if names_of(rows).contains(k) {
        let i = names_of(rows).index_of(k);
        assert(rows[i].0@ == k);
    }
}

proof fn lemma_row<V>(rows: Seq<(String, V)>, k: Seq<char>) -> (i: int)
    requires
        map_of(rows).contains_key(k),
    ensures
        0 <= i < rows.len(),
        rows[i].0@ == k,
        map_of(rows)[k] == rows[i].1,
{
    let i = names_of(rows).index_of(k);
    assert(names_of(rows)[i] == k);
    i
}

proof fn lemma_inserted<V>(rows: Seq<(String, V)>, i: int, row: (String, V))
    requires
        ordered(rows),
        0 <= i <= rows.len(),
        forall|j: int| 0 <= j < i ==> le((#[trigger] rows[j]).0@, row.0@),
        forall|j: int| i <= j < rows.len() ==> le(row.0@, (#[trigger] rows[j]).0@),
        forall|j: int| 0 <= j < rows.len() ==> (#[trigger] rows[j]).0@ != row.0@,
    ensures
        ordered(rows.insert(i, row)),
        map_of(rows.insert(i, row)) == map_of(rows).insert(row.0@, row.1),
{
    let after = rows.insert(i, row);
    let old_names = names_of(rows);
    let names = names_of(after);
    assert forall|p: int, q: int| 0 <= p < q < names.len() implies le(
        #[trigger] names[p],
        #[trigger] names[q],
    ) && names[p] != names[q] by {
        let po = if p < i {
            p
        } else {
            p - 1
        };
        let qo = if q < i {
            q
        } else {
            q - 1
        };
        if p != i {
            assert(names[p] == rows[po].0@);
            assert(old_names[po] == rows[po].0@);
        }
        if q != i {
            assert(names[q] == rows[qo].0@);
            assert(old_names[qo] == rows[qo].0@);
        }
        if p != i && q != i {
            assert(le(old_names[po], old_names[qo]));
        }
    }
    assert(in_order(names));
    assert(names.no_duplicates());
    assert forall|k: Seq<char>| #[trigger]
        map_of(after).contains_key(k) == map_of(rows).insert(row.0@, row.1).contains_key(k) by {
        if map_of(after).contains_key(k) {
            let j = lemma_row(after, k);
            if j < i {
                assert(after[j] == rows[j]);
                lemma_at(rows, j);
            } else if j > i {
                assert(after[j] == rows[j - 1]);
                lemma_at(rows, j - 1);
            }
        }
        if k == row.0@ {
            lemma_at(after, i);
        } else if map_of(rows).contains_key(k) {
            let j = lemma_row(rows, k);
            if j < i {
                lemma_at(after, j);
            } else {
                lemma_at(after, j + 1);
            }
        }
    }
    assert forall|k: Seq<char>| #[trigger] map_of(after).contains_key(k) implies map_of(
        after,
    )[k] == map_of(rows).insert(row.0@, row.1)[k] by {
        let j = lemma_row(after, k);
        if j < i {
            assert(after[j] == rows[j]);
            lemma_at(rows, j);
        } else if j > i {
            assert(after[j] == rows[j - 1]);
            lemma_at(rows, j - 1);
        }
    }
    assert(map_of(after) =~= map_of(rows).insert(row.0@, row.1));
}

proof fn lemma_removed<V>(rows: Seq<(String, V)>, i: int)
    requires
        ordered(rows),
        0 <= i < rows.len(),
    ensures
        ordered(rows.remove(i)),
        map_of(rows.remove(i)) == map_of(rows).remove(rows[i].0@),
{
    let after = rows.remove(i);
    let old_names = names_of(rows);
    let names = names_of(after);
    assert forall|p: int| 0 <= p < names.len() implies #[trigger] names[p] == old_names[if p < i {
        p
    } else {
        p + 1
    }] by {}
    assert(in_order(names));
    assert(names.no_duplicates());
    let gone = rows[i].0@;
    assert forall|k: Seq<char>| #[trigger]
        map_of(after).contains_key(k) == map_of(rows).remove(gone).contains_key(k) by {
        if map_of(after).contains_key(k) {
            let j = lemma_row(after, k);
            let o = if j < i {
                j
            } else {
                j + 1
            };
            assert(after[j] == rows[o]);
            lemma_at(rows, o);
            assert(old_names[o] != old_names[i]);
        }
        if k != gone && map_of(rows).contains_key(k) {
            let j = lemma_row(rows, k);
            if j < i {
                assert(after[j] == rows[j]);
                lemma_at(after, j);
            } else {
                assert(after[j - 1] == rows[j]);
                lemma_at(after, j - 1);
            }
        }
    }
    assert forall|k: Seq<char>| #[trigger] map_of(after).contains_key(k) implies map_of(
        after,
    )[k] == map_of(rows).remove(gone)[k] by {
        let j = lemma_row(after, k);
        let o = if j < i {
            j
        } else {
            j + 1
        };
        assert(after[j] == rows[o]);
        lemma_at(rows, o);
    }
    assert(map_of(after) =~= map_of(rows).remove(gone));
}

impl<V> Table<V> {
    #[verifier::type_invariant]
    spec fn inv(self) -> bool {
        ordered(self.rows@)
    }

    /// The names, in order.
    pub closed spec fn order(self) -> Seq<Seq<char>> {
        names_of(self.rows@)
    }

    /// An empty table.
    pub fn new() -> (r: Self)
        ensures
            r@ == Map::<Seq<char>, V>::empty(),
            r.order().len() == 0,
    {
        let rows: Vec<(String, V)> = Vec::new();
        proof {
            assert(map_of(rows@) =~= Map::<Seq<char>, V>::empty());
        }
        Table { rows }
    }

    /// How many names there are.
    pub fn len(&self) -> (r: usize)
        ensures
            r == self.order().len(),
            self@.dom().finite(),
            r == self@.dom().len(),
    {
        proof {
            use_type_invariant(self);
            let names = names_of(self.rows@);
            names.unique_seq_to_set();
            assert(self@.dom() =~= names.to_set());
        }
        self.rows.len()
    }

    /// The `i`-th name and its value.
    pub fn row(&self, i: usize) -> (r: (&String, &V))
        requires
            i < self.order().len(),
        ensures
            r.0@ == self.order()[i as int],
            self@.contains_key(r.0@),
            self@[r.0@] == *r.1,
    {
        proof {
            use_type_invariant(self);
            lemma_at(self.rows@, i as int);
        }
        let row = &self.rows[i];
        (&row.0, &row.1)
    }

    /// The value that a name has.
    pub fn get(&self, name: &str) -> (r: Option<&V>)
        ensures
            match r {
                Some(v) => self@.contains_key(name@) && self@[name@] == *v,
                None => !self@.contains_key(name@),
            },
    {
        proof {
            use_type_invariant(self);
        }
        let mut i: usize = 0;
        while i < self.rows.len()
            invariant
                i <= self.rows.len(),
                ordered(self.rows@),
                forall|j: int| 0 <= j < i ==> (#[trigger] self.rows@[j]).0@ != name@,
            decreases self.rows.len() - i,
        {
            if same(self.rows[i].0.as_str(), name) {
                proof {
                    lemma_at(self.rows@, i as int);
                }
                return Some(&self.rows[i].1);
            }
            i += 1;
        }
        proof {
            lemma_absent(self.rows@, name@);
        }
        None
    }

    /// Whether there is such a name.
    pub fn contains(&self, name: &str) -> (r: bool)
        ensures
            r == self@.contains_key(name@),
    {
        self.get(name).is_some()
    }

    /// Gives a name a value; the value it had, if any, is handed back.
    pub fn insert(&mut self, name: String, value: V) -> (r: Option<V>)
        ensures
            final(self)@ == old(self)@.insert(name@, value),
            match r {
                Some(v) => old(self)@.contains_key(name@) && old(self)@[name@] == v,
                None => !old(self)@.contains_key(name@),
            },
    {
        let r = self.remove(name.as_str());
        let ghost before = self@;
        proof {
            use_type_invariant(&*self);
        }
        let mut rows: Vec<(String, V)> = Vec::new();
        std::mem::swap(&mut rows, &mut self.rows);
        let ghost all = rows@;
        let mut i: usize = 0;
        while i < rows.len() && not_after(rows[i].0.as_str(), name.as_str())
            invariant
                i <= rows.len(),
                rows@ == all,
                ordered(all),
                forall|j: int| 0 <= j < i ==> le((#[trigger] all[j]).0@, name@),
            decreases rows.len() - i,
        {
            i += 1;
        }
        proof {
            assert forall|j: int| 0 <= j < all.len() implies (#[trigger] all[j]).0@ != name@ by {
                lemma_at(all, j);
            }
            if i < all.len() {
                lemma_le_total(all[i as int].0@, name@);
            }
            assert forall|j: int| i <= j < all.len() implies le(name@, (#[trigger] all[j]).0@) by {
                if j > i {
                    assert(names_of(all)[i as int] == all[i as int].0@);
                    assert(names_of(all)[j] == all[j].0@);
                    lemma_le_transitive(name@, all[i as int].0@, all[j].0@);
                }
            }
            lemma_inserted(all, i as int, (name, value));
        }
        rows.insert(i, (name, value));
        self.rows = rows;
        proof {
            assert(old(self)@.remove(name@).insert(name@, value) =~= old(self)@.insert(
                name@,
                value,
            ));
            if !old(self)@.contains_key(name@) {
                assert(old(self)@.remove(name@) =~= old(self)@);
            }
        }
        r
    }

    /// Takes a name away; the value it had, if any, is handed back.
    pub fn remove(&mut self, name: &str) -> (r: Option<V>)
        ensures
            final(self)@ == old(self)@.remove(name@),
            match r {
                Some(v) => old(self)@.contains_key(name@) && old(self)@[name@] == v,
                None => !old(self)@.contains_key(name@),
            },
    {
        proof {
            use_type_invariant(&*self);
        }
        let mut i: usize = 0;
        while i < self.rows.len()
            invariant
                i <= self.rows.len(),
                ordered(self.rows@),
                *self == *old(self),
                forall|j: int| 0 <= j < i ==> (#[trigger] self.rows@[j]).0@ != name@,
            decreases self.rows.len() - i,
        {
            if same(self.rows[i].0.as_str(), name) {
                let mut rows: Vec<(String, V)> = Vec::new();
                std::mem::swap(&mut rows, &mut self.rows);
                proof {
                    lemma_at(rows@, i as int);
                    lemma_removed(rows@, i as int);
                }
                let row = rows.remove(i);
                self.rows = rows;
                return Some(row.1);
            }
            i += 1;
        }
        proof {
            lemma_absent(self.rows@, name@);
            assert(old(self)@.remove(name@) =~= old(self)@);
        }
        None
    }

    /// The names, in order: every name once.
    pub fn names(&self) -> (r: Vec<String>)
        ensures
            texts(r@) == self.order(),
            in_order(texts(r@)),
            texts(r@).no_duplicates(),
            forall|k: Seq<char>| texts(r@).contains(k) == #[trigger] self@.contains_key(k),
    {
        proof {
            use_type_invariant(self);
        }
        let mut r: Vec<String> = Vec::new();
        let mut i: usize = 0;
        proof {
            assert(texts(r@) =~= self.order().take(0));
        }
        while i < self.rows.len()
            invariant
                i <= self.rows.len(),
                texts(r@) == self.order().take(i as int),
            decreases self.rows.len() - i,
        {
            let ghost before = r@;
            let name = self.rows[i].0.clone();
            let ghost text = name@;
            r.push(name);
            proof {
                assert(texts(r@) =~= texts(before).push(text));
                assert(self.order().take(i + 1) =~= self.order().take(i as int).push(text));
            }
            i += 1;
        }
        proof {
            assert(self.order().take(self.rows@.len() as int) =~= self.order());
        }
        r
    }
}

} // verus!
