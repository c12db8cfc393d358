//! Maps and sets with string keys.

use vstd::prelude::*;

use crate::text::{text, text_eq};

verus! {

/// A map from strings to values; its entries stay in the order in which their
/// keys first came.
#[derive(Debug)]
pub struct TextMap<V> {
    entries: Vec<(String, V)>,
}

spec fn find_key<V>(entries: Seq<(String, V)>, key: Seq<char>) -> Option<V>
    decreases entries.len(),
{
    if entries.len() == 0 {
        None
    } else if entries[0].0@ == key {
        Some(entries[0].1)
    } else {
        find_key(entries.drop_first(), key)
    }
}

proof fn lemma_find_key_hit<V>(entries: Seq<(String, V)>, key: Seq<char>, i: int)
    requires
        0 <= i < entries.len(),
        entries[i].0@ == key,
        forall|j: int| 0 <= j < i ==> (#[trigger] entries[j]).0@ != key,
    ensures
        find_key(entries, key) == Some(entries[i].1),
    decreases entries.len(),
{
    if i > 0 {
        assert(entries[0].0@ != key);
        assert forall|j: int| 0 <= j < i - 1 implies (#[trigger] entries.drop_first()[j]).0@
            != key by {
            assert(entries[j + 1].0@ != key);
        }
        lemma_find_key_hit(entries.drop_first(), key, i - 1);
    }
}

proof fn lemma_find_key_miss<V>(entries: Seq<(String, V)>, key: Seq<char>)
    requires
        forall|j: int| 0 <= j < entries.len() ==> (#[trigger] entries[j]).0@ != key,
    ensures
        find_key(entries, key) is None,
    decreases entries.len(),
{
    if entries.len() > 0 {
        assert(entries[0].0@ != key);
        assert forall|j: int| 0 <= j < entries.len() - 1 implies (
        #[trigger] entries.drop_first()[j]).0@ != key by {
            assert(entries[j + 1].0@ != key);
        }
        lemma_find_key_miss(entries.drop_first(), key);
    }
}

proof fn lemma_find_key_other<V>(a: Seq<(String, V)>, b: Seq<(String, V)>, key: Seq<char>, i: int)
    requires
        a.len() == b.len(),
        0 <= i < a.len(),
        a[i].0@ != key,
        b[i].0@ != key,
        forall|j: int| 0 <= j < a.len() && j != i ==> a[j] == b[j],
    ensures
        find_key(a, key) == find_key(b, key),
    decreases a.len(),
{
    if i > 0 {
        if a[0].0@ != key {
            lemma_find_key_other(a.drop_first(), b.drop_first(), key, i - 1);
        }
    } else {
        assert(a.drop_first() =~= b.drop_first());
    }
}

proof fn lemma_find_key_push<V>(a: Seq<(String, V)>, x: (String, V), key: Seq<char>)
    ensures
        find_key(a.push(x), key) == (match find_key(a, key) {
            Some(v) => Some(v),
            None => if x.0@ == key {
                Some(x.1)
            } else {
                None
            },
        }),
    decreases a.len(),
{
    if a.len() == 0 {
        assert(a.push(x).drop_first() =~= Seq::<(String, V)>::empty());
        assert(find_key(Seq::<(String, V)>::empty(), key) is None);
    } else {
        assert(a.push(x).drop_first() =~= a.drop_first().push(x));
        lemma_find_key_push(a.drop_first(), x, key);
    }
}

impl<V> View for TextMap<V> {
    type V = Map<Seq<char>, V>;

    closed spec fn view(&self) -> Map<Seq<char>, V> {
        Map::new(
            |key: Seq<char>| find_key(self.entries@, key) is Some,
            |key: Seq<char>| find_key(self.entries@, key)->0,
        )
    }
}

impl<V> TextMap<V> {
    #[verifier::type_invariant]
    spec fn keys_differ(self) -> bool {
        forall|i: int, j: int|
            0 <= i < j < self.entries@.len() ==> (#[trigger] self.entries@[i]).0@ != (
            #[trigger] self.entries@[j]).0@
    }

    /// The keys, in the order in which they first came.
    pub closed spec fn keys(&self) -> Seq<Seq<char>> {
        self.entries@.map_values(|e: (String, V)| e.0@)
    }

    /// The empty map.
    pub fn new() -> (r: Self)
        ensures
            r@ == Map::<Seq<char>, V>::empty(),
            r.keys() == Seq::<Seq<char>>::empty(),
    {
        let r = TextMap { entries: Vec::new() };
        assert(r@ =~= Map::<Seq<char>, V>::empty());
        assert(r.keys() =~= Seq::<Seq<char>>::empty());
        r
    }

    fn position(&self, key: &str) -> (r: Option<usize>)
        ensures
            match r {
                Some(i) => i < self.entries.len() && self.entries@[i as int].0@ == key@ && forall|
                    j: int,
                |
                    0 <= j < i ==> (#[trigger] self.entries@[j]).0@ != key@,
                None => forall|j: int|
                    0 <= j < self.entries.len() ==> (#[trigger] self.entries@[j]).0@ != key@,
            },
    {
        let mut i: usize = 0;
        while i < self.entries.len()
            invariant
                i <= self.entries.len(),
                forall|j: int| 0 <= j < i ==> (#[trigger] self.entries@[j]).0@ != key@,
            decreases self.entries.len() - i,
        {
            if text_eq(self.entries[i].0.as_str(), key) {
                return Some(i);
            }
            i = i + 1;
        }
        None
    }

    /// The value under `key`.
    pub fn get(&self, key: &str) -> (r: Option<&V>)
        ensures
            match r {
                Some(v) => self@.contains_key(key@) && self@[key@] == *v,
                None => !self@.contains_key(key@),
            },
    {
        match self.position(key) {
            Some(i) => {
                proof {
                    lemma_find_key_hit(self.entries@, key@, i as int);
                }
                Some(&self.entries[i].1)
            },
            None => {
                proof {
                    lemma_find_key_miss(self.entries@, key@);
                }
                None
            },
        }
    }

    /// Whether `key` has a value.
    pub fn contains_key(&self, key: &str) -> (r: bool)
        ensures
            r == self@.contains_key(key@),
    {
        self.get(key).is_some()
    }

    /// Puts `value` under `key`.
    pub fn insert(&mut self, key: &str, value: V)
        ensures
            final(self)@ == old(self)@.insert(key@, value),
            final(self).keys() == (if old(self)@.contains_key(key@) {
                old(self).keys()
            } else {
                old(self).keys().push(key@)
            }),
    {
        proof {
            use_type_invariant(&*self);
        }
        let at = self.position(key);
        let mut entries: Vec<(String, V)> = Vec::new();
        std::mem::swap(&mut entries, &mut self.entries);
        let ghost before = entries@;
        assert(before == old(self).entries@);
        match at {
            Some(i) => {
                entries.set(i, (text(key), value));
                proof {
                    lemma_find_key_hit(before, key@, i as int);
                    assert forall|k: Seq<char>| find_key(entries@, k) == (if k == key@ {
                        Some(value)
                    } else {
                        find_key(before, k)
                    }) by {
                        if k == key@ {
                            lemma_find_key_hit(entries@, k, i as int);
                        } else {
                            lemma_find_key_other(before, entries@, k, i as int);
                        }
                    }
                }
            },
            None => {
                entries.push((text(key), value));
                proof {
                    lemma_find_key_miss(before, key@);
                    assert forall|k: Seq<char>| find_key(entries@, k) == (if k == key@ {
                        Some(value)
                    } else {
                        find_key(before, k)
                    }) by {
                        lemma_find_key_push(before, entries@.last(), k);
                        assert(entries@ =~= before.push(entries@.last()));
                    }
                }
            },
        }
        self.entries = entries;
        assert(self@ =~= old(self)@.insert(key@, value));
        assert(self.keys() =~= (if old(self)@.contains_key(key@) {
            old(self).keys()
        } else {
            old(self).keys().push(key@)
        }));
    }

    /// How many keys the map has; every key is listed, once.
    pub fn len(&self) -> (r: usize)
        ensures
            r == self.keys().len(),
            self.keys().no_duplicates(),
            forall|k: Seq<char>| self.keys().contains(k) <==> #[trigger] self@.contains_key(k),
    {
        proof {
            use_type_invariant(self);
            assert forall|k: Seq<char>| self.keys().contains(k) <==> #[trigger] self@.contains_key(
                k,
            ) by {
                if self.keys().contains(k) {
                    let i = choose|i: int| 0 <= i < self.keys().len() && self.keys()[i] == k;
                    assert(self.entries@[i].0@ == k);
                    lemma_find_key_hit(self.entries@, k, i);
                } else {
                    assert forall|j: int| 0 <= j < self.entries@.len() implies (
                    #[trigger] self.entries@[j]).0@ != k by {
                        assert(self.keys()[j] == self.entries@[j].0@);
                    }
                    lemma_find_key_miss(self.entries@, k);
                }
            }
        }
        self.entries.len()
    }

    /// The key at position `i` and its value.
    pub fn at(&self, i: usize) -> (r: (&String, &V))
        requires
            i < self.keys().len(),
        ensures
            r.0@ == self.keys()[i as int],
            self@.contains_key(r.0@),
            self@[r.0@] == *r.1,
    {
        proof {
            use_type_invariant(self);
            lemma_find_key_hit(self.entries@, self.entries@[i as int].0@, i as int);
        }
        let e = &self.entries[i];
        (&e.0, &e.1)
    }
}

/// A set of strings; its members stay in the order in which they came.
#[derive(Debug)]
pub struct TextSet {
    items: Vec<String>,
}

impl View for TextSet {
    type V = Set<Seq<char>>;

    open spec fn view(&self) -> Set<Seq<char>> {
        self.order().to_set()
    }
}

impl TextSet {
    /// No member stands twice.
    #[verifier::type_invariant]
    pub open spec fn items_differ(self) -> bool {
        self.order().no_duplicates()
    }

    /// The members, in the order in which they came.
    pub closed spec fn order(&self) -> Seq<Seq<char>> {
        self.items.deep_view()
    }

    /// The empty set.
    pub fn new() -> (r: Self)
        ensures
            r@ == Set::<Seq<char>>::empty(),
            r.order() == Seq::<Seq<char>>::empty(),
    {
        let r = TextSet { items: Vec::new() };
        assert(r.order() =~= Seq::<Seq<char>>::empty());
        assert(r@ =~= Set::<Seq<char>>::empty());
        r
    }

    /// Whether `s` is a member.
    pub fn contains(&self, s: &str) -> (r: bool)
        ensures
            r == self@.contains(s@),
    {
        let mut i: usize = 0;
        while i < self.items.len()
            invariant
                i <= self.items.len(),
                forall|j: int| 0 <= j < i ==> #[trigger] self.order()[j] != s@,
                self.order().len() == self.items.len(),
            decreases self.items.len() - i,
        {
            assert(self.order()[i as int] == self.items@[i as int]@);
            if text_eq(self.items[i].as_str(), s) {
                assert(self.order().contains(s@));
                return true;
            }
            i = i + 1;
        }
        assert(!self.order().contains(s@));
        false
    }

    /// Makes `s` a member.
    pub fn insert(&mut self, s: &str)
        ensures
            final(self)@ == old(self)@.insert(s@),
            final(self).order() == (if old(self)@.contains(s@) {
                old(self).order()
            } else {
                old(self).order().push(s@)
            }),
    {
        if self.contains(s) {
            assert(self@ =~= old(self)@.insert(s@));
            return ;
        }
        proof {
            use_type_invariant(&*self);
        }
        let mut items: Vec<String> = Vec::new();
        std::mem::swap(&mut items, &mut self.items);
        let ghost before = items.deep_view();
        items.push(text(s));
        proof {
            assert(items.deep_view() =~= before.push(s@));
            assert(items.deep_view().no_duplicates()) by {
                assert(!before.contains(s@));
                assert forall|i: int, j: int|
                    0 <= i < items.deep_view().len() && 0 <= j < items.deep_view().len() && i
                        != j implies items.deep_view()[i] != items.deep_view()[j] by {
                    if i < before.len() {
                        assert(before.contains(before[i]));
                    }
                    if j < before.len() {
                        assert(before.contains(before[j]));
                    }
                }
            }
        }
        self.items = items;
        proof {
            assert(self.order() =~= before.push(s@));
            assert forall|x: Seq<char>| self@.contains(x) == old(self)@.insert(s@).contains(x) by {
                if before.push(s@).contains(x) {
                    let i = choose|i: int| 0 <= i < before.push(s@).len() && before.push(s@)[i] == x;
                    if i < before.len() {
                        assert(before[i] == x);
                    }
                }
                if before.contains(x) {
                    let i = choose|i: int| 0 <= i < before.len() && before[i] == x;
                    assert(before.push(s@)[i] == x);
                }
                assert(before.push(s@)[before.len() as int] == s@);
            }
            assert(self@ =~= old(self)@.insert(s@));
        }
    }

    /// How many members the set has.
    pub fn len(&self) -> (r: usize)
        ensures
            r == self.order().len(),
            r == self@.len(),
    {
        proof {
            use_type_invariant(self);
            self.order().unique_seq_to_set();
        }
        self.items.len()
    }

    /// The member at position `i`.
    pub fn at(&self, i: usize) -> (r: &String)
        requires
            i < self.order().len(),
        ensures
            r@ == self.order()[i as int],
            self@.contains(r@),
    {
        let r = &self.items[i];
        assert(self.order()[i as int] == r@);
        r
    }

    /// The members from position `from` on.
    pub fn skip(&self, from: usize) -> (r: TextSet)
        requires
            from <= self.order().len(),
        ensures
            r.order() == self.order().skip(from as int),
            r@.subset_of(self@),
    {
        proof {
            use_type_invariant(self);
        }
        let ghost all = self.order();
        let mut items: Vec<String> = Vec::new();
        let mut i: usize = from;
        while i < self.items.len()
            invariant
                from <= i <= self.items.len(),
                all == self.order(),
                all.len() == self.items.len(),
                items.deep_view() == all.subrange(from as int, i as int),
            decreases self.items.len() - i,
        {
            let ghost before = items.deep_view();
            items.push(self.items[i].clone());
            assert(items.deep_view() =~= before.push(all[i as int]));
            i = i + 1;
            assert(all.subrange(from as int, i as int) =~= before.push(all[i - 1]));
        }
        assert(items.deep_view() =~= all.skip(from as int));
        let r = TextSet { items };
        proof {
            assert forall|x: Seq<char>| r@.contains(x) implies self@.contains(x) by {
                let k = choose|k: int| 0 <= k < r.order().len() && r.order()[k] == x;
                assert(all[from + k] == x);
            }
        }
        r
    }
}

impl Clone for TextSet {
    fn clone(&self) -> (r: Self)
        ensures
            r@ == self@,
            r.order() == self.order(),
    {
        let r = self.skip(0);
        assert(self.order().skip(0) =~= self.order());
        r
    }
}

} // verus!
