//! A keyed table of rows, the in-memory form of a relational table whose
//! primary key is a pair of an identifier and a text column.

use vstd::prelude::*;

verus! {

/// One row: the two key columns and the remaining columns as `value`.
pub struct Row<V> {
    pub id: u128,
    pub name: String,
    pub value: V,
}

impl<V> Row<V> {
    /// The primary key of the row.
    pub open spec fn key(self) -> (u128, Seq<char>) {
        (self.id, self.name@)
    }
}

/// A table with primary key `(id, name)`. Its view is the map from keys to
/// the views of the rows' values.
pub struct Table<V: View> {
    rows: Vec<Row<V>>,
    contents: Ghost<Map<(u128, Seq<char>), V::V>>,
}

impl<V: View> View for Table<V> {
    type V = Map<(u128, Seq<char>), V::V>;

    closed spec fn view(&self) -> Map<(u128, Seq<char>), V::V> {
        self.contents@
    }
}

impl<V: View> Table<V> {
    /// No key occurs twice, and the view holds exactly the stored rows.
    pub closed spec fn wf(self) -> bool {
        &&& self.contents@.dom().finite()
        &&& self.contents@.dom().len() == self.rows@.len()
        &&& forall|i: int|
            0 <= i < self.rows@.len() ==> self.contents@.contains_key(
                #[trigger] self.rows@[i].key(),
            ) && self.contents@[self.rows@[i].key()] == self.rows@[i].value@
        &&& forall|i: int, j: int|
            0 <= i < j < self.rows@.len() ==> #[trigger] self.rows@[i].key()
                != #[trigger] self.rows@[j].key()
        &&& forall|k: (u128, Seq<char>)|
            self.contents@.contains_key(k) ==> exists|i: int|
                0 <= i < self.rows@.len() && #[trigger] self.rows@[i].key() == k
    }

    /// The number of stored rows.
    pub closed spec fn spec_len(self) -> nat {
        self.rows@.len()
    }

    /// The key of the row stored at position `i`.
    pub closed spec fn key_at(self, i: int) -> (u128, Seq<char>) {
        self.rows@[i].key()
    }

    /// Every position holds a key of the view, and the view's value under it.
    pub proof fn lemma_position_in_view(self, i: int)
        requires
            self.wf(),
            0 <= i < self.spec_len(),
        ensures
            self@.contains_key(self.key_at(i)),
    {
    }

    /// No two positions hold the same key.
    pub proof fn lemma_keys_distinct(self, i: int, j: int)
        requires
            self.wf(),
            0 <= i < self.spec_len(),
            0 <= j < self.spec_len(),
            i != j,
        ensures
            self.key_at(i) != self.key_at(j),
    {
        if i < j {
            assert(self.rows@[i].key() != self.rows@[j].key());
        } else {
            assert(self.rows@[j].key() != self.rows@[i].key());
        }
    }

    /// Every key of the view is stored at some position.
    pub proof fn lemma_key_has_position(self, k: (u128, Seq<char>))
        requires
            self.wf(),
            self@.contains_key(k),
        ensures
            exists|i: int| 0 <= i < self.spec_len() && #[trigger] self.key_at(i) == k,
    {
        let i = choose|i: int| 0 <= i < self.rows@.len() && #[trigger] self.rows@[i].key() == k;
        assert(self.key_at(i) == k);
    }

    /// The domain of the view is finite and has one key per row.
    pub proof fn lemma_len(self)
        requires
            self.wf(),
        ensures
            self@.dom().finite(),
            self@.dom().len() == self.spec_len(),
    {
    }

    pub fn new() -> (t: Self)
        ensures
            t.wf(),
            t@ == Map::<(u128, Seq<char>), V::V>::empty(),
    {
        Table { rows: Vec::new(), contents: Ghost(Map::empty()) }
    }

    pub fn len(&self) -> (n: usize)
        requires
            self.wf(),
        ensures
            n == self.spec_len(),
            n == self@.dom().len(),
    {
        self.rows.len()
    }

    /// The position of the row with the given key, if there is one.
    pub fn position(&self, id: u128, name: &String) -> (r: Option<usize>)
        requires
            self.wf(),
        ensures
            match r {
                Some(i) => i < self.spec_len() && self.key_at(i as int) == (id, name@),
                None => !self@.contains_key((id, name@)),
            },
    {
        let mut i: usize = 0;
        while i < self.rows.len()
            invariant
                self.wf(),
                i <= self.rows@.len(),
                forall|j: int| 0 <= j < i ==> #[trigger] self.rows@[j].key() != (id, name@),
            decreases self.rows@.len() - i,
        {
            if self.rows[i].id == id && self.rows[i].name == *name {
                return Some(i);
            }
            i = i + 1;
        }
        None
    }

    pub fn contains(&self, id: u128, name: &String) -> (b: bool)
        requires
            self.wf(),
        ensures
            b == self@.contains_key((id, name@)),
    {
        match self.position(id, name) {
            Some(_) => true,
            None => false,
        }
    }

    /// The identifier column of the row at position `i`.
    pub fn id_at(&self, i: usize) -> (id: u128)
        requires
            self.wf(),
            i < self.spec_len(),
        ensures
            id == self.key_at(i as int).0,
    {
        self.rows[i].id
    }

    /// The text column of the row at position `i`.
    pub fn name_at(&self, i: usize) -> (name: &String)
        requires
            self.wf(),
            i < self.spec_len(),
        ensures
            name@ == self.key_at(i as int).1,
    {
        &self.rows[i].name
    }

    /// The value of the row at position `i`.
    pub fn value_at(&self, i: usize) -> (value: &V)
        requires
            self.wf(),
            i < self.spec_len(),
        ensures
            self@.contains_key(self.key_at(i as int)),
            value@ == self@[self.key_at(i as int)],
    {
        &self.rows[i].value
    }

    /// Adds a row under a key that the table does not hold yet.
    pub fn insert(&mut self, id: u128, name: String, value: V)
        requires
            old(self).wf(),
            !old(self)@.contains_key((id, name@)),
        ensures
            final(self).wf(),
            final(self)@ == old(self)@.insert((id, name@), value@),
            final(self).spec_len() == old(self).spec_len() + 1,
    {
        let ghost k = (id, name@);
        let ghost v = value@;
        let ghost before = *self;
        self.rows.push(Row { id, name, value });
        self.contents = Ghost(before.contents@.insert(k, v));
        proof {
            assert(self.rows@[self.rows@.len() - 1].key() == k);
            assert forall|i: int| 0 <= i < self.rows@.len() implies self.contents@.contains_key(
                #[trigger] self.rows@[i].key(),
            ) && self.contents@[self.rows@[i].key()] == self.rows@[i].value@ by {
                if i < before.rows@.len() {
                    assert(self.rows@[i] == before.rows@[i]);
                    assert(before.contents@.contains_key(before.rows@[i].key()));
                }
            }
            assert forall|i: int, j: int| 0 <= i < j < self.rows@.len() implies #[trigger] self.rows@[i].key()
                != #[trigger] self.rows@[j].key() by {
                assert(self.rows@[i] == before.rows@[i]);
                assert(before.contents@.contains_key(before.rows@[i].key()));
                if j < before.rows@.len() {
                    assert(self.rows@[j] == before.rows@[j]);
                }
            }
            assert forall|q: (u128, Seq<char>)| self.contents@.contains_key(q) implies exists|i: int|
                0 <= i < self.rows@.len() && #[trigger] self.rows@[i].key() == q by {
                if q == k {
                    assert(self.rows@[self.rows@.len() - 1].key() == q);
                } else {
                    assert(before.contents@.contains_key(q));
                    let i = choose|i: int|
                        0 <= i < before.rows@.len() && #[trigger] before.rows@[i].key() == q;
                    assert(self.rows@[i] == before.rows@[i]);
                }
            }
        }
    }

    /// Replaces the value of the row at position `i`; no row moves.
    pub fn replace(&mut self, i: usize, value: V)
        requires
            old(self).wf(),
            i < old(self).spec_len(),
        ensures
            final(self).wf(),
            final(self)@ == old(self)@.insert(old(self).key_at(i as int), value@),
            final(self).spec_len() == old(self).spec_len(),
            forall|j: int| 0 <= j < old(self).spec_len() ==> final(self).key_at(j) == old(self).key_at(j),
    {
        let ghost before = *self;
        let ghost k = before.rows@[i as int].key();
        let ghost v = value@;
        proof {
            assert(before.contents@.contains_key(before.rows@[i as int].key()));
        }
        self.rows[i].value = value;
        self.contents = Ghost(before.contents@.insert(k, v));
        proof {
            assert(self.contents@.dom() =~= before.contents@.dom());
            assert forall|j: int| 0 <= j < self.rows@.len() implies self.rows@[j].key()
                == before.rows@[j].key() by {}
            assert forall|j: int| 0 <= j < self.rows@.len() implies self.contents@.contains_key(
                #[trigger] self.rows@[j].key(),
            ) && self.contents@[self.rows@[j].key()] == self.rows@[j].value@ by {
                assert(before.contents@.contains_key(before.rows@[j].key()));
                if j != i {
                    assert(self.rows@[j] == before.rows@[j]);
                    assert(before.rows@[j].key() != before.rows@[i as int].key());
                }
            }
            assert forall|a: int, b: int| 0 <= a < b < self.rows@.len() implies #[trigger] self.rows@[a].key()
                != #[trigger] self.rows@[b].key() by {
                assert(before.rows@[a].key() != before.rows@[b].key());
            }
            assert forall|q: (u128, Seq<char>)| self.contents@.contains_key(q) implies exists|j: int|
                0 <= j < self.rows@.len() && #[trigger] self.rows@[j].key() == q by {
                assert(before.contents@.contains_key(q));
                let j = choose|j: int|
                    0 <= j < before.rows@.len() && #[trigger] before.rows@[j].key() == q;
                assert(self.rows@[j].key() == q);
            }
        }
    }

    /// Deletes the row at position `i` and hands it out.
    pub fn remove(&mut self, i: usize) -> (row: Row<V>)
        requires
            old(self).wf(),
            i < old(self).spec_len(),
        ensures
            final(self).wf(),
            row.key() == old(self).key_at(i as int),
            old(self)@.contains_key(row.key()),
            row.value@ == old(self)@[row.key()],
            final(self)@ == old(self)@.remove(row.key()),
            final(self).spec_len() + 1 == old(self).spec_len(),
    {
        let ghost before = *self;
        let ghost k = before.rows@[i as int].key();
        proof {
            assert(before.contents@.contains_key(before.rows@[i as int].key()));
        }
        let row = self.rows.swap_remove(i);
        self.contents = Ghost(before.contents@.remove(k));
        proof {
            let last = before.rows@.len() - 1;
            assert forall|j: int| 0 <= j < self.rows@.len() implies #[trigger] self.rows@[j]
                == before.rows@[if j == i { last } else { j }] by {}
            assert forall|j: int| 0 <= j < self.rows@.len() implies self.contents@.contains_key(
                #[trigger] self.rows@[j].key(),
            ) && self.contents@[self.rows@[j].key()] == self.rows@[j].value@ by {
                let src = if j == i { last } else { j };
                assert(self.rows@[j] == before.rows@[src]);
                assert(before.contents@.contains_key(before.rows@[src].key()));
                if src < i {
                    assert(before.rows@[src].key() != before.rows@[i as int].key());
                } else {
                    assert(before.rows@[i as int].key() != before.rows@[src].key());
                }
            }
            assert forall|a: int, b: int| 0 <= a < b < self.rows@.len() implies #[trigger] self.rows@[a].key()
                != #[trigger] self.rows@[b].key() by {
                let sa = if a == i { last } else { a };
                let sb = if b == i { last } else { b };
                assert(self.rows@[a] == before.rows@[sa]);
                assert(self.rows@[b] == before.rows@[sb]);
                if sa < sb {
                    assert(before.rows@[sa].key() != before.rows@[sb].key());
                } else {
                    assert(before.rows@[sb].key() != before.rows@[sa].key());
                }
            }
            assert forall|q: (u128, Seq<char>)| self.contents@.contains_key(q) implies exists|j: int|
                0 <= j < self.rows@.len() && #[trigger] self.rows@[j].key() == q by {
                assert(before.contents@.contains_key(q));
                let j = choose|j: int|
                    0 <= j < before.rows@.len() && #[trigger] before.rows@[j].key() == q;
                if j == last {
                    assert(self.rows@[i as int] == before.rows@[last]);
                    assert(self.rows@[i as int].key() == q);
                } else {
                    assert(self.rows@[j] == before.rows@[j]);
                    assert(self.rows@[j].key() == q);
                }
            }
        }
        row
    }
}

} // verus!
