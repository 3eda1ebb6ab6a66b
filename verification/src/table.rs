//! Keyed collections over plain rows: a map and a set, each read by the
//! values its keys stand for.

use vstd::prelude::*;
use vstd::string::*;

use crate::text::{same_bytes, same_text};
use crate::wire::TopicId;

verus! {

/// What a row can be found by.
pub trait Key: View + Sized {
    /// Whether two keys stand for the same value.
    fn same(&self, other: &Self) -> (r: bool)
        ensures
            r == (self@ == other@),
    ;

    /// The same key again.
    fn copy(&self) -> (r: Self)
        ensures
            r@ == self@,
    ;
}

impl Key for String {
    fn same(&self, other: &String) -> (r: bool) {
        same_text(self.as_str(), other.as_str())
    }

    fn copy(&self) -> (r: String) {
        self.clone()
    }
}

impl Key for TopicId {
    fn same(&self, other: &TopicId) -> (r: bool) {
        same_bytes(self.as_slice(), other.as_slice())
    }

    fn copy(&self) -> (r: TopicId) {
        *self
    }
}

impl Key for (String, i32) {
    fn same(&self, other: &(String, i32)) -> (r: bool) {
        self.1 == other.1 && same_text(self.0.as_str(), other.0.as_str())
    }

    fn copy(&self) -> (r: (String, i32)) {
        (self.0.clone(), self.1)
    }
}

impl Key for (String, String) {
    fn same(&self, other: &(String, String)) -> (r: bool) {
        same_text(self.0.as_str(), other.0.as_str()) && same_text(
            self.1.as_str(),
            other.1.as_str(),
        )
    }

    fn copy(&self) -> (r: (String, String)) {
        (self.0.clone(), self.1.clone())
    }
}

impl Key for (String, String, i32) {
    fn same(&self, other: &(String, String, i32)) -> (r: bool) {
        self.2 == other.2 && same_text(self.0.as_str(), other.0.as_str()) && same_text(
            self.1.as_str(),
            other.1.as_str(),
        )
    }

    fn copy(&self) -> (r: (String, String, i32)) {
        (self.0.clone(), self.1.clone(), self.2)
    }
}

/// The first row at or after the `i`th that a key finds.
pub open spec fn find<K: View, V>(rows: Seq<(K, V)>, key: K::V, i: int) -> Option<int>
    decreases rows.len() - i,
{
    if !(0 <= i < rows.len()) {
        None
    } else if rows[i].0@ == key {
        Some(i)
    } else {
        find(rows, key, i + 1)
    }
}

proof fn lemma_find<K: View, V>(rows: Seq<(K, V)>, key: K::V, i: int)
    requires
        0 <= i <= rows.len(),
    ensures
        match find(rows, key, i) {
            Some(k) => {
                &&& i <= k < rows.len()
                &&& rows[k].0@ == key
                &&& forall|j: int| i <= j < k ==> (#[trigger] rows[j]).0@ != key
            },
            None => forall|j: int| i <= j < rows.len() ==> (#[trigger] rows[j]).0@ != key,
        },
    decreases rows.len() - i,
{
    if i < rows.len() && rows[i].0@ != key {
        lemma_find(rows, key, i + 1);
    }
}

/// The first row that fits is the one found.
proof fn lemma_found<K: View, V>(rows: Seq<(K, V)>, key: K::V, k: int)
    requires
        0 <= k < rows.len(),
        rows[k].0@ == key,
        forall|j: int| 0 <= j < k ==> (#[trigger] rows[j]).0@ != key,
    ensures
        find(rows, key, 0) == Some(k),
{
    lemma_find(rows, key, 0);
}

/// A map from keys to values. Where a key has several rows, the first is
/// its row.
#[derive(Debug)]
pub struct Table<K, V> {
    rows: Vec<(K, V)>,
}

impl<K: View, V: View> View for Table<K, V> {
    type V = Map<K::V, V::V>;

    closed spec fn view(&self) -> Map<K::V, V::V> {
        table_of(self.rows@)
    }
}

impl<K: Key, V: View> Table<K, V> {
    /// A map of nothing.
    pub fn new() -> (r: Table<K, V>)
        ensures
            r@ == Map::<K::V, V::V>::empty(),
    {
        let r = Table { rows: Vec::new() };
        assert(r@ =~= Map::<K::V, V::V>::empty());
        r
    }

    fn place(&self, key: &K) -> (r: Option<usize>)
        ensures
            match r {
                Some(i) => find(self.rows@, key@, 0) == Some(i as int) && i < self.rows@.len(),
                None => find(self.rows@, key@, 0) is None,
            },
    {
        let mut i: usize = 0;
        while i < self.rows.len()
            invariant
                i <= self.rows@.len(),
                find(self.rows@, key@, 0) == find(self.rows@, key@, i as int),
            decreases self.rows@.len() - i,
        {
            if self.rows[i].0.same(key) {
                return Some(i);
            }
            i = i + 1;
        }
        None
    }

    /// Whether the map has the key.
    pub fn contains(&self, key: &K) -> (r: bool)
        ensures
            r == self@.contains_key(key@),
    {
        self.place(key).is_some()
    }

    /// The value of a key.
    pub fn get(&self, key: &K) -> (r: Option<&V>)
        ensures
            match r {
                Some(v) => self@.contains_key(key@) && v@ == self@[key@],
                None => !self@.contains_key(key@),
            },
    {
        match self.place(key) {
            Some(i) => Some(&self.rows[i].1),
            None => None,
        }
    }

    /// The value of a key, to be changed in place.
    pub fn get_mut(&mut self, key: &K) -> (r: Option<&mut V>)
        ensures
            match r {
                Some(v) => {
                    &&& old(self)@.contains_key(key@)
                    &&& (*v)@ == old(self)@[key@]
                    &&& final(self)@ == old(self)@.insert(key@, (*final(v))@)
                },
                None => !old(self)@.contains_key(key@) && final(self)@ == old(self)@,
            },
    {
        let ghost before = self.rows@;
        match self.place(key) {
            Some(i) => {
                proof {
                    lemma_find(before, key@, 0);
                    assert forall|row: (K, V)|
                        row.0@ == before[i as int].0@ implies (#[trigger] table_of(
                        before.update(i as int, row),
                    )) == table_of(before).insert(key@, row.1@) by {
                        lemma_replaced(before, i as int, row);
                    }
                }
                let row = &mut self.rows[i];
                Some(&mut row.1)
            },
            None => None,
        }
    }

    /// Gives a key a value, in place of the one it had.
    pub fn insert(&mut self, key: K, value: V)
        ensures
            final(self)@ == old(self)@.insert(key@, value@),
    {
        let ghost before = self.rows@;
        match self.place(&key) {
            Some(i) => {
                let ghost row = (key, value);
                self.rows.set(i, (key, value));
                proof {
                    lemma_replaced(before, i as int, row);
                }
            },
            None => {
                let ghost row = (key, value);
                self.rows.push((key, value));
                proof {
                    lemma_appended(before, row);
                }
            },
        }
    }

    /// The value of a key, to be changed in place; made first where there
    /// was none.
    pub fn entry(&mut self, key: K, fresh: V) -> (r: &mut V)
        ensures
            (*r)@ == (if old(self)@.contains_key(key@) {
                old(self)@[key@]
            } else {
                fresh@
            }),
            final(self)@ == old(self)@.insert(key@, (*final(r))@),
    {
        let ghost given = key@;
        let ghost start = self@;
        let i: usize = match self.place(&key) {
            Some(i) => i,
            None => {
                let ghost before = self.rows@;
                let ghost row = (key, fresh);
                let i: usize = self.rows.len();
                self.rows.push((key, fresh));
                proof {
                    lemma_appended(before, row);
                    lemma_find(before, given, 0);
                    lemma_found(self.rows@, given, i as int);
                    assert(self@ == start.insert(given, fresh@));
                }
                i
            },
        };
        let ghost before = self.rows@;
        proof {
            lemma_find(before, given, 0);
            assert forall|row: (K, V)| row.0@ == before[i as int].0@ implies (#[trigger] table_of(
                before.update(i as int, row),
            )) == table_of(before).insert(given, row.1@) by {
                lemma_replaced(before, i as int, row);
            }
            assert forall|v: V::V| #[trigger] table_of(before).insert(given, v) == start.insert(
                given,
                v,
            ) by {
                assert(table_of(before).insert(given, v) =~= start.insert(given, v));
            }
        }
        let row = &mut self.rows[i];
        &mut row.1
    }
}

impl<K: Key, V: View> Table<K, V> {
    /// Takes a key away, with its value.
    pub fn remove(&mut self, key: &K)
        ensures
            final(self)@ == old(self)@.remove(key@),
    {
        let ghost start = self@;
        let ghost gone = key@;
        let mut i: usize = 0;
        while i < self.rows.len()
            invariant
                i <= self.rows@.len(),
                gone == key@,
                start == old(self)@,
                forall|j: int| 0 <= j < i ==> (#[trigger] self.rows@[j]).0@ != gone,
                self@.remove(gone) == start.remove(gone),
            decreases self.rows@.len() - i,
        {
            if self.rows[i].0.same(key) {
                let ghost before = self.rows@;
                let _ = self.rows.remove(i);
                proof {
                    lemma_removed(before, i as int);
                }
            } else {
                i = i + 1;
            }
        }
        proof {
            lemma_find(self.rows@, gone, 0);
            assert(self@.remove(gone) =~= self@);
        }
    }

    /// The keys that have a value, each once.
    pub fn keys(&self) -> (r: Vec<K>)
        ensures
            forall|i: int| 0 <= i < r@.len() ==> self@.contains_key((#[trigger] r@[i])@),
            forall|key: K::V|
                self@.contains_key(key) ==> exists|i: int|
                    0 <= i < r@.len() && (#[trigger] r@[i])@ == key,
            forall|i: int, j: int|
                0 <= i < j < r@.len() ==> (#[trigger] r@[i])@ != (#[trigger] r@[j])@,
    {
        let mut keys: Vec<K> = Vec::new();
        let mut i: usize = 0;
        while i < self.rows.len()
            invariant
                i <= self.rows@.len(),
                forall|j: int|
                    0 <= j < keys@.len() ==> exists|k: int|
                        0 <= k < i && find(self.rows@, (#[trigger] keys@[j])@, 0) == Some(k),
                forall|k: int|
                    #![trigger self.rows@[k]]
                    0 <= k < i ==> exists|j: int|
                        0 <= j < keys@.len() && (#[trigger] keys@[j])@ == self.rows@[k].0@,
                forall|a: int, b: int|
                    0 <= a < b < keys@.len() ==> (#[trigger] keys@[a])@ != (#[trigger] keys@[b])@,
            decreases self.rows@.len() - i,
        {
            let ghost known = keys@;
            let ghost here = self.rows@[i as int].0@;
            proof {
                lemma_find(self.rows@, here, 0);
            }
            let first = match self.place(&self.rows[i].0) {
                Some(k) => k == i,
                None => false,
            };
            if first {
                keys.push(self.rows[i].0.copy());
                proof {
                    assert(keys@[known.len() as int]@ == here);
                    assert forall|j: int| 0 <= j < keys@.len() implies exists|k: int|
                        0 <= k < i + 1 && find(self.rows@, (#[trigger] keys@[j])@, 0) == Some(k) by {
                        if j < known.len() {
                            assert(keys@[j] == known[j]);
                        } else {
                            assert(find(self.rows@, keys@[j]@, 0) == Some(i as int));
                        }
                    }
                    assert forall|k: int|
                        #![trigger self.rows@[k]]
                        0 <= k < i + 1 implies exists|j: int|
                        0 <= j < keys@.len() && (#[trigger] keys@[j])@ == self.rows@[k].0@ by {
                        if k < i {
                            let j = choose|j: int|
                                0 <= j < known.len() && (#[trigger] known[j])@
                                    == self.rows@[k].0@;
                            assert(keys@[j]@ == self.rows@[k].0@);
                        }
                    }
                    assert forall|a: int, b: int| 0 <= a < b < keys@.len() implies (
                    #[trigger] keys@[a])@ != (#[trigger] keys@[b])@ by {
                        assert(keys@[a] == known[a]);
                        if b < known.len() {
                            assert(keys@[b] == known[b]);
                        }
                    }
                }
            } else {
                proof {
                    let k = find(self.rows@, here, 0)->Some_0;
                    assert(k < i && self.rows@[k].0@ == here);
                }
            }
            i = i + 1;
        }
        proof {
            assert forall|key: K::V| self@.contains_key(key) implies exists|j: int|
                0 <= j < keys@.len() && (#[trigger] keys@[j])@ == key by {
                lemma_find(self.rows@, key, 0);
                let k = find(self.rows@, key, 0)->Some_0;
                assert(self.rows@[k].0@ == key);
            }
        }
        keys
    }
}

/// What rows stand for.
spec fn table_of<K: View, V: View>(rows: Seq<(K, V)>) -> Map<K::V, V::V> {
    Map::new(
        |key: K::V| find(rows, key, 0) is Some,
        |key: K::V| rows[find(rows, key, 0)->Some_0].1@,
    )
}

/// A key, for a statement about all of them.
spec fn keyed<T>(key: T) -> T {
    key
}

/// Whether a key finds the same row among some rows and others.
spec fn same_place<K: View, V>(rows: Seq<(K, V)>, now: Seq<(K, V)>, key: K::V) -> bool {
    match find(rows, key, 0) {
        Some(k) => find(now, key, 0) == Some(k) && 0 <= k < rows.len() && k < now.len() && now[k]
            == rows[k],
        None => find(now, key, 0) is None,
    }
}

proof fn lemma_replaced<K: View, V: View>(rows: Seq<(K, V)>, i: int, row: (K, V))
    requires
        0 <= i < rows.len(),
        find(rows, row.0@, 0) == Some(i),
    ensures
        table_of(rows.update(i, row)) == table_of(rows).insert(row.0@, row.1@),
{
    let now = rows.update(i, row);
    lemma_find(rows, row.0@, 0);
    lemma_found(now, row.0@, i);
    assert forall|key: K::V| key != row.0@ implies same_place(rows, now, #[trigger] keyed(key)) by {
        lemma_find(rows, key, 0);
        lemma_find(now, key, 0);
        match find(rows, key, 0) {
            Some(k) => {
                assert(now[k] == rows[k]);
                lemma_found(now, key, k);
            },
            None => {
                match find(now, key, 0) {
                    Some(k) => {
                        assert(now[k] == rows[k]);
                    },
                    None => {},
                }
            },
        }
    }
    let after = table_of(rows).insert(row.0@, row.1@);
    assert forall|key: K::V| table_of(now).contains_key(key) == #[trigger] after.contains_key(key)
        && (after.contains_key(key) ==> table_of(now)[key] == after[key]) by {
        if key != row.0@ {
            assert(same_place(rows, now, keyed(key)));
        }
    }
    assert(table_of(now) =~= after);
}

proof fn lemma_appended<K: View, V: View>(rows: Seq<(K, V)>, row: (K, V))
    requires
        find(rows, row.0@, 0) is None,
    ensures
        table_of(rows.push(row)) == table_of(rows).insert(row.0@, row.1@),
{
    let now = rows.push(row);
    lemma_find(rows, row.0@, 0);
    lemma_found(now, row.0@, rows.len() as int);
    assert forall|key: K::V| key != row.0@ implies same_place(rows, now, #[trigger] keyed(key)) by {
        lemma_find(rows, key, 0);
        lemma_find(now, key, 0);
        match find(rows, key, 0) {
            Some(k) => {
                assert(now[k] == rows[k]);
                lemma_found(now, key, k);
            },
            None => {
                match find(now, key, 0) {
                    Some(k) => {
                        assert(k < rows.len());
                        assert(now[k] == rows[k]);
                    },
                    None => {},
                }
            },
        }
    }
    let after = table_of(rows).insert(row.0@, row.1@);
    assert forall|key: K::V| table_of(now).contains_key(key) == #[trigger] after.contains_key(key)
        && (after.contains_key(key) ==> table_of(now)[key] == after[key]) by {
        if key != row.0@ {
            assert(same_place(rows, now, keyed(key)));
        }
    }
    assert(table_of(now) =~= after);
}

proof fn lemma_removed<K: View, V: View>(rows: Seq<(K, V)>, i: int)
    requires
        0 <= i < rows.len(),
        forall|j: int| 0 <= j < i ==> (#[trigger] rows[j]).0@ != rows[i].0@,
    ensures
        table_of(rows.remove(i)).remove(rows[i].0@) == table_of(rows).remove(rows[i].0@),
{
    let gone = rows[i].0@;
    let now = rows.remove(i);
    let before = table_of(rows).remove(gone);
    let after = table_of(now).remove(gone);
    assert forall|key: K::V| after.contains_key(key) == #[trigger] before.contains_key(key) && (
    before.contains_key(key) ==> after[key] == before[key]) by {
        if key != gone {
            lemma_find(rows, key, 0);
            lemma_find(now, key, 0);
            match find(rows, key, 0) {
                Some(k) => {
                    let moved = if k < i {
                        k
                    } else {
                        k - 1
                    };
                    assert(now[moved] == rows[k]);
                    assert forall|j: int| 0 <= j < moved implies (#[trigger] now[j]).0@ != key by {
                        if j < i {
                            assert(now[j] == rows[j]);
                        } else {
                            assert(now[j] == rows[j + 1]);
                        }
                    }
                    lemma_found(now, key, moved);
                },
                None => {
                    match find(now, key, 0) {
                        Some(k) => {
                            if k < i {
                                assert(now[k] == rows[k]);
                            } else {
                                assert(now[k] == rows[k + 1]);
                            }
                        },
                        None => {},
                    }
                },
            }
        }
    }
    assert(after =~= before);
}

/// A set of keys.
#[derive(Debug)]
pub struct Pool<K> {
    rows: Vec<K>,
}

impl<K: View> View for Pool<K> {
    type V = Set<K::V>;

    closed spec fn view(&self) -> Set<K::V> {
        Set::new(|key: K::V| exists|i: int| 0 <= i < self.rows@.len() && (#[trigger] self.rows@[i])@ == key)
    }
}

impl<K: Key> Pool<K> {
    /// A set of nothing.
    pub fn new() -> (r: Pool<K>)
        ensures
            r@ == Set::<K::V>::empty(),
    {
        let r = Pool { rows: Vec::new() };
        assert(r@ =~= Set::<K::V>::empty());
        r
    }

    /// Whether a key is in the set.
    pub fn contains(&self, key: &K) -> (r: bool)
        ensures
            r == self@.contains(key@),
    {
        let mut i: usize = 0;
        while i < self.rows.len()
            invariant
                i <= self.rows@.len(),
                forall|j: int| 0 <= j < i ==> (#[trigger] self.rows@[j])@ != key@,
            decreases self.rows@.len() - i,
        {
            if self.rows[i].same(key) {
                assert(self.rows@[i as int]@ == key@);
                return true;
            }
            i = i + 1;
        }
        false
    }

    /// Puts a key into the set.
    pub fn insert(&mut self, key: K)
        ensures
            final(self)@ == old(self)@.insert(key@),
    {
        let ghost before = self.rows@;
        let ghost start = self@;
        self.rows.push(key);
        proof {
            assert(self.rows@[before.len() as int]@ == key@);
            assert forall|k: K::V| #[trigger] start.insert(key@).contains(k) implies self@.contains(
                k,
            ) by {
                if start.contains(k) {
                    let i = choose|i: int| 0 <= i < before.len() && (#[trigger] before[i])@ == k;
                    assert(self.rows@[i]@ == k);
                }
            }
            assert forall|k: K::V| #[trigger] self@.contains(k) implies start.insert(
                key@,
            ).contains(k) by {
                let i = choose|i: int| 0 <= i < self.rows@.len() && (#[trigger] self.rows@[i])@ == k;
                if i < before.len() {
                    assert(before[i]@ == k);
                }
            }
            assert(self@ =~= start.insert(key@));
        }
    }

    /// Takes a key out of the set.
    pub fn remove(&mut self, key: &K)
        ensures
            final(self)@ == old(self)@.remove(key@),
    {
        let ghost start = self@;
        let ghost gone = key@;
        let mut i: usize = 0;
        while i < self.rows.len()
            invariant
                i <= self.rows@.len(),
                gone == key@,
                start == old(self)@,
                forall|j: int| 0 <= j < i ==> (#[trigger] self.rows@[j])@ != gone,
                self@.remove(gone) == start.remove(gone),
            decreases self.rows@.len() - i,
        {
            if self.rows[i].same(key) {
                let ghost before = self.rows@;
                let ghost was = self@;
                let _ = self.rows.remove(i);
                proof {
                    assert forall|k: K::V|
                        k != gone implies self@.contains(k) == #[trigger] was.contains(k) by {
                        if was.contains(k) {
                            let j = choose|j: int|
                                0 <= j < before.len() && (#[trigger] before[j])@ == k;
                            if j < i {
                                assert(self.rows@[j]@ == k);
                            } else {
                                assert(self.rows@[j - 1]@ == k);
                            }
                        }
                        if self@.contains(k) {
                            let j = choose|j: int|
                                0 <= j < self.rows@.len() && (#[trigger] self.rows@[j])@ == k;
                            if j < i {
                                assert(before[j]@ == k);
                            } else {
                                assert(before[j + 1]@ == k);
                            }
                        }
                    }
                    assert(self@.remove(gone) =~= was.remove(gone));
                }
            } else {
                i = i + 1;
            }
        }
        assert(self@.remove(gone) =~= self@);
    }
}

} // verus!
