//! A table keyed by text, kept as a list of entries with distinct keys.
use vstd::prelude::*;

verus! {

pub open spec fn keys_distinct<V>(e: Seq<(String, V)>) -> bool {
    forall|i: int, j: int|
        0 <= i < e.len() && 0 <= j < e.len() && #[trigger] e[i].0@ == #[trigger] e[j].0@ ==> i
            == j
}

pub open spec fn holds_key<V>(e: Seq<(String, V)>, k: Seq<char>) -> bool {
    exists|i: int| 0 <= i < e.len() && #[trigger] e[i].0@ == k
}

pub open spec fn index_of_key<V>(e: Seq<(String, V)>, k: Seq<char>) -> int {
    choose|i: int| 0 <= i < e.len() && #[trigger] e[i].0@ == k
}

/// The map from key to value that a list of entries stands for.
pub open spec fn entries_map<V>(e: Seq<(String, V)>) -> Map<Seq<char>, V> {
    Map::new(|k: Seq<char>| holds_key(e, k), |k: Seq<char>| e[index_of_key(e, k)].1)
}

proof fn lemma_at<V>(e: Seq<(String, V)>, i: int)
    requires
        keys_distinct(e),
        0 <= i < e.len(),
    ensures
        holds_key(e, e[i].0@),
        index_of_key(e, e[i].0@) == i,
        entries_map(e).contains_key(e[i].0@),
        entries_map(e)[e[i].0@] == e[i].1,
{
    let k = e[i].0@;
    assert(e[i].0@ == k);
    let c = index_of_key(e, k);
    assert(e[c].0@ == e[i].0@);
}

proof fn lemma_append<V>(e: Seq<(String, V)>, key: String, v: V)
    requires
        keys_distinct(e),
        !holds_key(e, key@),
    ensures
        keys_distinct(e.push((key, v))),
        entries_map(e.push((key, v))) == entries_map(e).insert(key@, v),
{
    let f = e.push((key, v));
    let k = key@;
    assert(f[e.len() as int].0@ == k);
    assert forall|i: int, j: int|
        0 <= i < f.len() && 0 <= j < f.len() && #[trigger] f[i].0@ == #[trigger] f[j].0@ implies i
        == j by {
        if i < e.len() && j < e.len() {
            assert(e[i].0@ == e[j].0@);
        } else if i < e.len() {
            assert(e[i].0@ == k);
        } else if j < e.len() {
            assert(e[j].0@ == k);
        }
    }
    assert forall|q: Seq<char>| #[trigger] holds_key(f, q) == (holds_key(e, q) || q == k) by {
        if holds_key(e, q) {
            let i = choose|i: int| 0 <= i < e.len() && #[trigger] e[i].0@ == q;
            assert(f[i].0@ == q);
        }
        if holds_key(f, q) && q != k {
            let i = choose|i: int| 0 <= i < f.len() && #[trigger] f[i].0@ == q;
            assert(e[i].0@ == q);
        }
    }
    assert forall|q: Seq<char>| holds_key(f, q) implies #[trigger] entries_map(f)[q]
        == entries_map(e).insert(k, v)[q] by {
        let i = index_of_key(f, q);
        lemma_at(f, i);
        if q != k {
            let j = index_of_key(e, q);
            lemma_at(e, j);
            assert(f[j].0@ == q);
            lemma_at(f, j);
        }
    }
    assert(entries_map(f) =~= entries_map(e).insert(k, v));
}

proof fn lemma_delete<V>(e: Seq<(String, V)>, i: int)
    requires
        keys_distinct(e),
        0 <= i < e.len(),
    ensures
        keys_distinct(e.remove(i)),
        entries_map(e.remove(i)) == entries_map(e).remove(e[i].0@),
{
    let f = e.remove(i);
    let k = e[i].0@;
    lemma_at(e, i);
    assert forall|a: int, b: int|
        0 <= a < f.len() && 0 <= b < f.len() && #[trigger] f[a].0@ == #[trigger] f[b].0@ implies a
        == b by {
        let a2 = if a < i { a } else { a + 1 };
        let b2 = if b < i { b } else { b + 1 };
        assert(e[a2].0@ == e[b2].0@);
    }
    assert forall|q: Seq<char>| #[trigger] holds_key(f, q) == (holds_key(e, q) && q != k) by {
        if holds_key(e, q) && q != k {
            let j = choose|j: int| 0 <= j < e.len() && #[trigger] e[j].0@ == q;
            if j < i {
                assert(f[j].0@ == q);
            } else {
                assert(j != i);
                assert(f[j - 1].0@ == q);
            }
        }
        if holds_key(f, q) {
            let j = choose|j: int| 0 <= j < f.len() && #[trigger] f[j].0@ == q;
            let j2 = if j < i { j } else { j + 1 };
            assert(e[j2].0@ == q);
            assert(j2 != i);
        }
    }
    assert forall|q: Seq<char>| holds_key(f, q) implies #[trigger] entries_map(f)[q]
        == entries_map(e)[q] by {
        let j = index_of_key(f, q);
        lemma_at(f, j);
        let j2 = if j < i { j } else { j + 1 };
        assert(e[j2].0@ == q);
        lemma_at(e, j2);
    }
    assert(entries_map(f) =~= entries_map(e).remove(k));
}

proof fn lemma_replace<V>(e: Seq<(String, V)>, i: int, v: V)
    requires
        keys_distinct(e),
        0 <= i < e.len(),
    ensures
        keys_distinct(e.update(i, (e[i].0, v))),
        entries_map(e.update(i, (e[i].0, v))) == entries_map(e).insert(e[i].0@, v),
{
    let f = e.update(i, (e[i].0, v));
    lemma_at(e, i);
    assert forall|a: int, b: int|
        0 <= a < f.len() && 0 <= b < f.len() && #[trigger] f[a].0@ == #[trigger] f[b].0@ implies a
        == b by {
        assert(e[a].0@ == e[b].0@);
    }
    assert forall|q: Seq<char>| #[trigger] holds_key(f, q) == holds_key(e, q) by {
        if holds_key(e, q) {
            let j = choose|j: int| 0 <= j < e.len() && #[trigger] e[j].0@ == q;
            assert(f[j].0@ == q);
        }
        if holds_key(f, q) {
            let j = choose|j: int| 0 <= j < f.len() && #[trigger] f[j].0@ == q;
            assert(e[j].0@ == q);
        }
    }
    assert forall|q: Seq<char>| holds_key(f, q) implies #[trigger] entries_map(f)[q]
        == entries_map(e).insert(e[i].0@, v)[q] by {
        let j = index_of_key(f, q);
        lemma_at(f, j);
        assert(e[j].0@ == q);
        lemma_at(e, j);
    }
    assert(entries_map(f) =~= entries_map(e).insert(e[i].0@, v));
}

/// A map from text keys to values.
pub struct KeyedTable<V> {
    entries: Vec<(String, V)>,
}

impl<V> View for KeyedTable<V> {
    type V = Map<Seq<char>, V>;

    closed spec fn view(&self) -> Map<Seq<char>, V> {
        entries_map(self.entries@)
    }
}

impl<V> KeyedTable<V> {
    /// The entries have distinct keys.
    pub closed spec fn wf(&self) -> bool {
        keys_distinct(self.entries@)
    }

    pub fn new() -> (r: Self)
        ensures
            r.wf(),
            r@ == Map::<Seq<char>, V>::empty(),
    {
        let r = KeyedTable { entries: Vec::new() };
        assert(entries_map(r.entries@) =~= Map::<Seq<char>, V>::empty());
        r
    }

    fn position(&self, key: &str) -> (r: Option<usize>)
        requires
            self.wf(),
        ensures
            match r {
                Some(i) => i < self.entries@.len() && self.entries@[i as int].0@ == key@,
                None => !holds_key(self.entries@, key@),
            },
    {
        let mut i: usize = 0;
        while i < self.entries.len()
            invariant
                i <= self.entries@.len(),
                forall|j: int| 0 <= j < i ==> #[trigger] self.entries@[j].0@ != key@,
            decreases self.entries@.len() - i,
        {
            if crate::text::eq_chars(
                crate::text::chars_of(self.entries[i].0.as_str()).as_slice(),
                crate::text::chars_of(key).as_slice(),
            ) {
                return Some(i);
            }
            i = i + 1;
        }
        None
    }

    pub fn contains_key(&self, key: &str) -> (r: bool)
        requires
            self.wf(),
        ensures
            r == self@.contains_key(key@),
    {
        match self.position(key) {
            Some(i) => {
                proof {
                    lemma_at(self.entries@, i as int);
                }
                true
            },
            None => false,
        }
    }

    pub fn get(&self, key: &str) -> (r: Option<&V>)
        requires
            self.wf(),
        ensures
            match r {
                Some(v) => self@.contains_key(key@) && *v == self@[key@],
                None => !self@.contains_key(key@),
            },
    {
        match self.position(key) {
            Some(i) => {
                proof {
                    lemma_at(self.entries@, i as int);
                }
                Some(&self.entries[i].1)
            },
            None => None,
        }
    }

    /// Sets the value of `key`, replacing any earlier one.
    pub fn insert(&mut self, key: String, value: V)
        requires
            old(self).wf(),
        ensures
            final(self).wf(),
            final(self)@ == old(self)@.insert(key@, value),
    {
        match self.position(key.as_str()) {
            Some(i) => {
                proof {
                    lemma_replace(self.entries@, i as int, value);
                }
                let k = self.entries.remove(i);
                self.entries.insert(i, (k.0, value));
                assert(self.entries@ =~= old(self).entries@.update(
                    i as int,
                    (old(self).entries@[i as int].0, value),
                ));
            },
            None => {
                proof {
                    lemma_append(self.entries@, key, value);
                }
                self.entries.push((key, value));
            },
        }
    }

    /// Removes `key` and returns its value, if it was there.
    pub fn remove(&mut self, key: &str) -> (r: Option<V>)
        requires
            old(self).wf(),
        ensures
            final(self).wf(),
            final(self)@ == old(self)@.remove(key@),
            r == (if old(self)@.contains_key(key@) {
                Some(old(self)@[key@])
            } else {
                None
            }),
    {
        match self.position(key) {
            Some(i) => {
                proof {
                    lemma_at(self.entries@, i as int);
                    lemma_delete(self.entries@, i as int);
                }
                let (_, v) = self.entries.remove(i);
                Some(v)
            },
            None => {
                assert(old(self)@.remove(key@) =~= old(self)@);
                None
            },
        }
    }
}

} // verus!
