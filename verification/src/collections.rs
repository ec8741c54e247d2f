//! A map and a set keyed by name, backed by vectors.

use vstd::prelude::*;

use crate::text;

verus! {

/// A map from name to values. A key occurs at most once.
#[derive(Debug)]
pub struct TextMap<V> {
    entries: Vec<(String, V)>,
}

impl<V: View> View for TextMap<V> {
    type V = Map<Seq<char>, V::V>;

    closed spec fn view(&self) -> Map<Seq<char>, V::V> {
        entries_map(self.entries@)
    }
}

spec fn keys_of<V>(entries: Seq<(String, V)>) -> Seq<Seq<char>> {
    Seq::new(entries.len(), |i: int| entries[i].0@)
}

spec fn keys_distinct<V>(entries: Seq<(String, V)>) -> bool {
    forall|i: int, j: int|
        0 <= i < j < entries.len() ==> #[trigger] entries[i].0@ != #[trigger] entries[j].0@
}

spec fn has_key<V>(entries: Seq<(String, V)>, key: Seq<char>) -> bool {
    exists|i: int| 0 <= i < entries.len() && #[trigger] entries[i].0@ == key
}

spec fn key_position<V>(entries: Seq<(String, V)>, key: Seq<char>) -> int {
    choose|i: int| 0 <= i < entries.len() && #[trigger] entries[i].0@ == key
}

spec fn entries_map<V: View>(entries: Seq<(String, V)>) -> Map<Seq<char>, V::V> {
    Map::new(
        |key: Seq<char>| has_key(entries, key),
        |key: Seq<char>| entries[key_position(entries, key)].1@,
    )
}

proof fn lemma_key_position<V: View>(entries: Seq<(String, V)>, i: int)
    requires
        keys_distinct(entries),
        0 <= i < entries.len(),
    ensures
        has_key(entries, entries[i].0@),
        key_position(entries, entries[i].0@) == i,
        entries_map(entries).contains_key(entries[i].0@),
        entries_map(entries)[entries[i].0@] == entries[i].1@,
{
    let key = entries[i].0@;
    let p = key_position(entries, key);
    assert(0 <= p < entries.len() && entries[p].0@ == key);
    if p < i {
        assert(entries[p].0@ != entries[i].0@);
    } else if i < p {
        assert(entries[i].0@ != entries[p].0@);
    }
}

proof fn lemma_key_absent<V: View>(entries: Seq<(String, V)>, key: Seq<char>)
    requires
        forall|i: int| 0 <= i < entries.len() ==> #[trigger] entries[i].0@ != key,
    ensures
        !has_key(entries, key),
        !entries_map(entries).contains_key(key),
{
}

proof fn lemma_keys_domain<V: View>(entries: Seq<(String, V)>)
    requires
        keys_distinct(entries),
    ensures
        keys_of(entries).no_duplicates(),
        keys_of(entries).to_set() == entries_map(entries).dom(),
        entries_map(entries).dom().finite(),
        entries_map(entries).dom().len() == entries.len(),
{
    let keys = keys_of(entries);
    assert forall|i: int, j: int| 0 <= i < keys.len() && 0 <= j < keys.len() && i
        != j implies keys[i] != keys[j] by {
        if i < j {
            assert(entries[i].0@ != entries[j].0@);
        } else {
            assert(entries[j].0@ != entries[i].0@);
        }
    }
    assert forall|key: Seq<char>|
        keys.to_set().contains(key) == entries_map(entries).dom().contains(key) by {
        if keys.contains(key) {
            let i = choose|i: int| 0 <= i < keys.len() && keys[i] == key;
            lemma_key_position(entries, i);
        }
        if has_key(entries, key) {
            let i = key_position(entries, key);
            assert(keys[i] == key);
        }
    }
    assert(keys.to_set() =~= entries_map(entries).dom());
    keys.unique_seq_to_set();
}

impl<V> TextMap<V> {
    #[verifier::type_invariant]
    spec fn well_formed(self) -> bool {
        keys_distinct(self.entries@)
    }

    /// The keys in the order in which `key_at` hands them out.
    pub closed spec fn order(&self) -> Seq<Seq<char>> {
        keys_of(self.entries@)
    }
}

impl<V: View> TextMap<V> {
    /// The empty map.
    pub fn new() -> (r: Self)
        ensures
            r@ == Map::<Seq<char>, V::V>::empty(),
    {
        let r = TextMap { entries: Vec::new() };
        proof {
            assert(r@ =~= Map::<Seq<char>, V::V>::empty());
        }
        r
    }

    fn position(&self, key: &str) -> (r: Option<usize>)
        ensures
            r is Some <==> self@.contains_key(key@),
            r matches Some(i) ==> i < self.entries@.len() && self.entries@[i as int].0@ == key@
                && self@[key@] == self.entries@[i as int].1@,
    {
        proof {
            use_type_invariant(self);
        }
        let mut i: usize = 0;
        while i < self.entries.len()
            invariant
                keys_distinct(self.entries@),
                i <= self.entries@.len(),
                forall|j: int| 0 <= j < i ==> #[trigger] self.entries@[j].0@ != key@,
            decreases self.entries@.len() - i,
        {
            if text::same(self.entries[i].0.as_str(), key) {
                proof {
                    lemma_key_position(self.entries@, i as int);
                }
                return Some(i);
            }
            i = i + 1;
        }
        proof {
            lemma_key_absent(self.entries@, key@);
        }
        None
    }

    /// Tells whether a key is present.
    pub fn contains_key(&self, key: &str) -> (r: bool)
        ensures
            r == self@.contains_key(key@),
    {
        self.position(key).is_some()
    }

    /// The value of a key.
    pub fn get(&self, key: &str) -> (r: Option<&V>)
        ensures
            r is Some <==> self@.contains_key(key@),
            r matches Some(value) ==> value@ == self@[key@],
    {
        match self.position(key) {
            Some(i) => Some(&self.entries[i].1),
            None => None,
        }
    }

    /// Removes a key and hands its value back.
    pub fn remove(&mut self, key: &str) -> (r: Option<V>)
        ensures
            final(self)@ == old(self)@.remove(key@),
            r is Some <==> old(self)@.contains_key(key@),
            r matches Some(value) ==> value@ == old(self)@[key@],
    {
        match self.position(key) {
            Some(i) => {
                proof {
                    use_type_invariant(&*self);
                }
                let mut entries: Vec<(String, V)> = Vec::new();
                std::mem::swap(&mut entries, &mut self.entries);
                let ghost before = entries@;
                let (_, value) = entries.remove(i);
                proof {
                    let after = entries@;
                    assert(after =~= before.remove(i as int));
                    assert(keys_distinct(after)) by {
                        assert forall|a: int, b: int|
                            0 <= a < b < after.len() implies #[trigger] after[a].0@
                            != #[trigger] after[b].0@ by {
                            let x = if a < i { a } else { a + 1 };
                            let y = if b < i { b } else { b + 1 };
                            assert(after[a] == before[x] && after[b] == before[y]);
                        }
                    }
                    let m = entries_map(after);
                    let n = entries_map(before).remove(key@);
                    assert forall|k: Seq<char>| #[trigger]
                        m.dom().contains(k) == n.dom().contains(k) && (m.dom().contains(k) ==> m[k]
                            == n[k]) by {
                        if has_key(after, k) {
                            let a = key_position(after, k);
                            let x = if a < i { a } else { a + 1 };
                            assert(after[a] == before[x]);
                            lemma_key_position(after, a);
                            lemma_key_position(before, x);
                            lemma_key_position(before, i as int);
                        }
                        if has_key(before, k) && k != key@ {
                            let x = key_position(before, k);
                            lemma_key_position(before, x);
                            let a = if x < i { x } else { x - 1 };
                            assert(after[a] == before[x]);
                            lemma_key_position(after, a);
                        }
                    }
                    assert(m =~= n);
                }
                self.entries = entries;
                Some(value)
            },
            None => {
                proof {
                    assert(self@ =~= self@.remove(key@));
                }
                None
            },
        }
    }

    /// Sets the value of a key.
    pub fn insert(&mut self, key: String, value: V)
        ensures
            final(self)@ == old(self)@.insert(key@, value@),
    {
        let _ = self.remove(key.as_str());
        proof {
            use_type_invariant(&*self);
        }
        let ghost mid = self@;
        let mut entries: Vec<(String, V)> = Vec::new();
        std::mem::swap(&mut entries, &mut self.entries);
        let ghost before = entries@;
        let ghost view = value@;
        let ghost name = key@;
        entries.push((key, value));
        proof {
            let after = entries@;
            let last = before.len() as int;
            assert forall|a: int| 0 <= a < before.len() implies #[trigger] after[a] == before[a]
                && before[a].0@ != name by {
                lemma_key_position(before, a);
            }
            assert(keys_distinct(after)) by {
                assert forall|a: int, b: int| 0 <= a < b < after.len() implies #[trigger] after[a].0@
                    != #[trigger] after[b].0@ by {
                    assert(after[a] == before[a]);
                    if b < last {
                        assert(after[b] == before[b]);
                    }
                }
            }
            lemma_key_position(after, last);
            let m = entries_map(after);
            let n = entries_map(before).insert(name, view);
            assert forall|k: Seq<char>| #[trigger]
                m.dom().contains(k) == n.dom().contains(k) && (m.dom().contains(k) ==> m[k]
                    == n[k]) by {
                if has_key(after, k) {
                    let a = key_position(after, k);
                    lemma_key_position(after, a);
                    if a < last {
                        assert(after[a] == before[a]);
                        lemma_key_position(before, a);
                    }
                }
                if has_key(before, k) {
                    let a = key_position(before, k);
                    lemma_key_position(before, a);
                    assert(after[a] == before[a]);
                    lemma_key_position(after, a);
                }
            }
            assert(m =~= n);
            assert(mid == entries_map(before));
            assert(mid.insert(name, view) =~= old(self)@.insert(name, view));
        }
        self.entries = entries;
    }

    /// The number of keys.
    pub fn len(&self) -> (r: usize)
        ensures
            r == self@.dom().len(),
            self@.dom().finite(),
            r == self.order().len(),
            self.order().no_duplicates(),
            self.order().to_set() == self@.dom(),
    {
        proof {
            use_type_invariant(self);
            lemma_keys_domain(self.entries@);
        }
        self.entries.len()
    }

    /// Tells whether the map has no key.
    pub fn is_empty(&self) -> (r: bool)
        ensures
            r == (self@ == Map::<Seq<char>, V::V>::empty()),
    {
        let n: usize = self.len();
        proof {
            if n == 0 {
                assert(self@.dom() =~= Set::<Seq<char>>::empty());
                assert(self@ =~= Map::<Seq<char>, V::V>::empty());
            } else {
                assert(self@.dom().len() != 0);
                assert(self@ != Map::<Seq<char>, V::V>::empty());
            }
        }
        n == 0
    }

    /// The key at a position of `order`.
    pub fn key_at(&self, i: usize) -> (r: &String)
        requires
            i < self.order().len(),
        ensures
            r@ == self.order()[i as int],
            self@.contains_key(r@),
    {
        proof {
            use_type_invariant(self);
            lemma_key_position(self.entries@, i as int);
        }
        &self.entries[i].0
    }

    /// The value at a position of `order`.
    pub fn value_at(&self, i: usize) -> (r: &V)
        requires
            i < self.order().len(),
        ensures
            self@.contains_key(self.order()[i as int]),
            r@ == self@[self.order()[i as int]],
    {
        proof {
            use_type_invariant(self);
            lemma_key_position(self.entries@, i as int);
        }
        &self.entries[i].1
    }
}

/// A set of texts.
#[derive(Debug)]
pub struct TextSet {
    items: Vec<String>,
}

impl View for TextSet {
    type V = Set<Seq<char>>;

    closed spec fn view(&self) -> Set<Seq<char>> {
        text::texts(self.items@).to_set()
    }
}

impl TextSet {
    #[verifier::type_invariant]
    spec fn well_formed(self) -> bool {
        text::texts(self.items@).no_duplicates()
    }

    /// The empty set.
    pub fn new() -> (r: Self)
        ensures
            r@ == Set::<Seq<char>>::empty(),
    {
        let r = TextSet { items: Vec::new() };
        proof {
            assert(r@ =~= Set::<Seq<char>>::empty());
        }
        r
    }

    fn position(&self, item: &str) -> (r: Option<usize>)
        ensures
            r is Some <==> self@.contains(item@),
            r matches Some(i) ==> i < self.items@.len() && self.items@[i as int]@ == item@,
    {
        let mut i: usize = 0;
        while i < self.items.len()
            invariant
                i <= self.items@.len(),
                forall|j: int| 0 <= j < i ==> #[trigger] self.items@[j]@ != item@,
            decreases self.items@.len() - i,
        {
            if text::same(self.items[i].as_str(), item) {
                proof {
                    assert(text::texts(self.items@)[i as int] == item@);
                }
                return Some(i);
            }
            i = i + 1;
        }
        None
    }

    /// Tells whether a name is a member.
    pub fn contains(&self, item: &str) -> (r: bool)
        ensures
            r == self@.contains(item@),
    {
        self.position(item).is_some()
    }

    /// Adds a member.
    pub fn insert(&mut self, item: String)
        ensures
            final(self)@ == old(self)@.insert(item@),
    {
        if self.contains(item.as_str()) {
            proof {
                assert(self@ =~= self@.insert(item@));
            }
            return;
        }
        proof {
            use_type_invariant(&*self);
        }
        let mut items: Vec<String> = Vec::new();
        std::mem::swap(&mut items, &mut self.items);
        let ghost before = items@;
        let ghost name = item@;
        items.push(item);
        proof {
            let a = text::texts(before);
            let b = text::texts(items@);
            assert(b =~= a.push(name));
            assert(!a.contains(name));
            assert forall|i: int, j: int| 0 <= i < b.len() && 0 <= j < b.len() && i
                != j implies b[i] != b[j] by {
                if i < a.len() {
                    assert(a.contains(a[i]));
                }
                if j < a.len() {
                    assert(a.contains(a[j]));
                }
            }
            assert forall|x: Seq<char>| b.to_set().contains(x) == a.to_set().insert(name).contains(
                x,
            ) by {
                if a.contains(x) {
                    let k = choose|k: int| 0 <= k < a.len() && a[k] == x;
                    assert(b[k] == x);
                }
                if x == name {
                    assert(b[a.len() as int] == x);
                }
            }
            assert(b.to_set() =~= a.to_set().insert(name));
        }
        self.items = items;
    }

    /// Removes a member.
    pub fn remove(&mut self, item: &str)
        ensures
            final(self)@ == old(self)@.remove(item@),
    {
        match self.position(item) {
            Some(i) => {
                proof {
                    use_type_invariant(&*self);
                }
                let mut items: Vec<String> = Vec::new();
                std::mem::swap(&mut items, &mut self.items);
                let ghost before = items@;
                let _ = items.remove(i);
                proof {
                    let a = text::texts(before);
                    let b = text::texts(items@);
                    assert(b =~= a.remove(i as int));
                    assert forall|p: int, q: int| 0 <= p < b.len() && 0 <= q < b.len() && p
                        != q implies b[p] != b[q] by {
                        let x = if p < i { p } else { p + 1 };
                        let y = if q < i { q } else { q + 1 };
                        assert(b[p] == a[x] && b[q] == a[y]);
                    }
                    assert forall|x: Seq<char>|
                        b.to_set().contains(x) == a.to_set().remove(item@).contains(x) by {
                        if b.contains(x) {
                            let k = choose|k: int| 0 <= k < b.len() && b[k] == x;
                            let p = if k < i { k } else { k + 1 };
                            assert(a[p] == x);
                            assert(a[i as int] == item@);
                        }
                        if a.contains(x) && x != item@ {
                            let p = choose|p: int| 0 <= p < a.len() && a[p] == x;
                            let k = if p < i { p } else { p - 1 };
                            assert(b[k] == x);
                        }
                    }
                    assert(b.to_set() =~= a.to_set().remove(item@));
                }
                self.items = items;
            },
            None => {
                proof {
                    assert(self@ =~= self@.remove(item@));
                }
            },
        }
    }

    /// The number of members.
    pub fn len(&self) -> (r: usize)
        ensures
            r == self@.len(),
            self@.finite(),
    {
        proof {
            use_type_invariant(self);
            text::texts(self.items@).unique_seq_to_set();
        }
        self.items.len()
    }
}

/// How many keys of a map have a value with a property.
pub open spec fn count_where<T>(m: Map<Seq<char>, T>, p: spec_fn(T) -> bool) -> nat {
    m.dom().filter(|key: Seq<char>| p(m[key])).len()
}

/// One more key adds one to the count exactly when its value has the property.
pub proof fn lemma_filter_insert(s: Set<Seq<char>>, key: Seq<char>, q: spec_fn(Seq<char>) -> bool)
    requires
        s.finite(),
        !s.contains(key),
    ensures
        s.insert(key).filter(q).len() == s.filter(q).len() + (if q(key) {
            1nat
        } else {
            0nat
        }),
{
    if q(key) {
        assert(s.insert(key).filter(q) =~= s.filter(q).insert(key));
    } else {
        assert(s.insert(key).filter(q) =~= s.filter(q));
    }
}

} // verus!
