//! Small text-keyed collections: a set of names and a map from names to
//! values. Both keep their entries in insertion order and never hold a name
//! twice; their views are a mathematical set and map over character sequences.

use vstd::prelude::*;

verus! {

/// The character sequences of a list of strings, in order.
pub open spec fn texts(items: Seq<String>) -> Seq<Seq<char>> {
    items.map_values(|s: String| s@)
}

/// Finds the position of `key` in `items`.
fn position_of(items: &Vec<String>, key: &String) -> (found: Option<usize>)
    ensures
        match found {
            Some(i) => i < items.len() && items[i as int]@ == key@,
            None => !texts(items@).contains(key@),
        },
{
    let mut i: usize = 0;
    while i < items.len()
        invariant
            i <= items.len(),
            forall|j: int| 0 <= j < i ==> (#[trigger] items[j])@ != key@,
        decreases items.len() - i,
    {
        if items[i] == *key {
            return Some(i);
        }
        i = i + 1;
    }
    assert(!texts(items@).contains(key@)) by {
        if texts(items@).contains(key@) {
            let j: int = choose|j: int| 0 <= j < texts(items@).len() && texts(items@)[j] == key@;
            assert(items[j]@ == key@);
        }
    }
    None
}

/// Removing one position from a list without repeats leaves a list without
/// repeats that holds every other element and no longer the removed one.
proof fn lemma_remove_distinct<A>(s: Seq<A>, i: int)
    requires
        s.no_duplicates(),
        0 <= i < s.len(),
    ensures
        s.remove(i).no_duplicates(),
        s.remove(i).to_set() == s.to_set().remove(s[i]),
{
    let t = s.remove(i);
    assert forall|a: int, b: int| 0 <= a < t.len() && 0 <= b < t.len() && a != b implies t[a]
        != t[b] by {
        let a0: int = if a < i { a } else { a + 1 };
        let b0: int = if b < i { b } else { b + 1 };
        assert(t[a] == s[a0] && t[b] == s[b0]);
    }
    assert forall|x: A| t.to_set().contains(x) <==> s.to_set().remove(s[i]).contains(x) by {
        if t.contains(x) {
            let a: int = choose|a: int| 0 <= a < t.len() && t[a] == x;
            let a0: int = if a < i { a } else { a + 1 };
            assert(s[a0] == x);
        }
        if s.contains(x) && x != s[i] {
            let a0: int = choose|a0: int| 0 <= a0 < s.len() && s[a0] == x;
            let a: int = if a0 < i { a0 } else { a0 - 1 };
            assert(t[a] == x);
        }
    }
    assert(t.to_set() =~= s.to_set().remove(s[i]));
}

/// Appending a new element to a list without repeats leaves a list without
/// repeats.
proof fn lemma_push_distinct<A>(s: Seq<A>, x: A)
    requires
        s.no_duplicates(),
        !s.contains(x),
    ensures
        s.push(x).no_duplicates(),
        s.push(x).to_set() == s.to_set().insert(x),
{
    let t = s.push(x);
    assert forall|a: int, b: int| 0 <= a < t.len() && 0 <= b < t.len() && a != b implies t[a]
        != t[b] by {
        if a < s.len() {
            assert(s[a] == t[a]);
        }
        if b < s.len() {
            assert(s[b] == t[b]);
        }
    }
    assert forall|y: A| t.to_set().contains(y) <==> s.to_set().insert(x).contains(y) by {
        if t.contains(y) {
            let a: int = choose|a: int| 0 <= a < t.len() && t[a] == y;
            if a < s.len() {
                assert(s[a] == y);
            }
        }
        if s.contains(y) {
            let a: int = choose|a: int| 0 <= a < s.len() && s[a] == y;
            assert(t[a] == y);
        }
        if y == x {
            assert(t[s.len() as int] == x);
        }
    }
    assert(t.to_set() =~= s.to_set().insert(x));
}

/// A set of names.
#[derive(Debug)]
pub struct StringSet {
    items: Vec<String>,
}

impl View for StringSet {
    type V = Set<Seq<char>>;

    closed spec fn view(&self) -> Set<Seq<char>> {
        texts(self.items@).to_set()
    }
}

impl StringSet {
    #[verifier::type_invariant]
    spec fn distinct(self) -> bool {
        texts(self.items@).no_duplicates()
    }

    /// A set is always finite.
    pub proof fn lemma_finite(&self)
        ensures
            self@.finite(),
    {
        vstd::seq_lib::seq_to_set_is_finite(texts(self.items@));
    }

    /// The empty set.
    pub fn new() -> (set: Self)
        ensures
            set@ == Set::<Seq<char>>::empty(),
    {
        let set = StringSet { items: Vec::new() };
        assert(texts(set.items@).to_set() =~= Set::<Seq<char>>::empty());
        set
    }

    /// The number of names in the set.
    pub fn len(&self) -> (n: usize)
        ensures
            n == self@.len(),
            self@.finite(),
    {
        proof {
            use_type_invariant(self);
            texts(self.items@).unique_seq_to_set();
            self.lemma_finite();
        }
        self.items.len()
    }

    /// Whether the set holds no name.
    pub fn is_empty(&self) -> (empty: bool)
        ensures
            empty == (self@ == Set::<Seq<char>>::empty()),
    {
        proof {
            if self.items.len() > 0 {
                assert(texts(self.items@)[0] == self.items[0]@);
                assert(texts(self.items@).contains(self.items[0]@));
                assert(self@.contains(self.items[0]@));
            } else {
                assert(self@ =~= Set::<Seq<char>>::empty());
            }
        }
        self.items.len() == 0
    }

    /// Whether `name` is in the set.
    pub fn contains(&self, name: &String) -> (present: bool)
        ensures
            present == self@.contains(name@),
    {
        let found: Option<usize> = position_of(&self.items, name);
        proof {
            if let Some(i) = found {
                assert(texts(self.items@)[i as int] == name@);
            }
        }
        found.is_some()
    }

    /// Adds `name` to the set; tells whether it was new.
    pub fn insert(&mut self, name: String) -> (added: bool)
        ensures
            final(self)@ == old(self)@.insert(name@),
            added == !old(self)@.contains(name@),
    {
        proof {
            use_type_invariant(&*self);
        }
        let mut items: Vec<String> = Vec::new();
        std::mem::swap(&mut items, &mut self.items);
        let found: Option<usize> = position_of(&items, &name);
        let added: bool = found.is_none();
        proof {
            if let Some(i) = found {
                assert(texts(items@)[i as int] == name@);
            }
        }
        if added {
            proof {
                lemma_push_distinct(texts(items@), name@);
                assert(texts(items@.push(name)) =~= texts(items@).push(name@));
            }
            items.push(name);
        } else {
            assert(texts(items@).to_set().insert(name@) =~= texts(items@).to_set());
        }
        self.items = items;
        added
    }

    /// Takes `name` out of the set; tells whether it was there.
    pub fn remove(&mut self, name: &String) -> (removed: bool)
        ensures
            final(self)@ == old(self)@.remove(name@),
            removed == old(self)@.contains(name@),
    {
        proof {
            use_type_invariant(&*self);
        }
        let mut items: Vec<String> = Vec::new();
        std::mem::swap(&mut items, &mut self.items);
        let removed: bool = match position_of(&items, name) {
            Some(i) => {
                proof {
                    lemma_remove_distinct(texts(items@), i as int);
                    assert(texts(items@.remove(i as int)) =~= texts(items@).remove(i as int));
                }
                let _ = items.remove(i);
                true
            },
            None => {
                assert(texts(items@).to_set().remove(name@) =~= texts(items@).to_set());
                false
            },
        };
        self.items = items;
        removed
    }

    /// The names of the set, each once, in the order in which they came in.
    pub fn to_vec(&self) -> (names: Vec<String>)
        ensures
            texts(names@).no_duplicates(),
            texts(names@).to_set() == self@,
    {
        proof {
            use_type_invariant(self);
        }
        let mut names: Vec<String> = Vec::new();
        let mut i: usize = 0;
        while i < self.items.len()
            invariant
                i <= self.items.len(),
                names.len() == i,
                forall|j: int| 0 <= j < i ==> (#[trigger] names[j])@ == self.items[j]@,
            decreases self.items.len() - i,
        {
            names.push(self.items[i].clone());
            i = i + 1;
        }
        assert(texts(names@) =~= texts(self.items@));
        names
    }
}

/// A map from names to values.
#[derive(Debug)]
pub struct StringMap<V> {
    keys: Vec<String>,
    values: Vec<V>,
}

/// The position at which `key` stands in `keys`.
pub open spec fn slot_of(keys: Seq<Seq<char>>, key: Seq<char>) -> int {
    choose|i: int| 0 <= i < keys.len() && keys[i] == key
}

impl<V> View for StringMap<V> {
    type V = Map<Seq<char>, V>;

    closed spec fn view(&self) -> Map<Seq<char>, V> {
        Map::new(
            |k: Seq<char>| texts(self.keys@).contains(k),
            |k: Seq<char>| self.values[slot_of(texts(self.keys@), k)],
        )
    }
}

impl<V> StringMap<V> {
    #[verifier::type_invariant]
    spec fn paired(self) -> bool {
        &&& self.keys.len() == self.values.len()
        &&& texts(self.keys@).no_duplicates()
    }

    /// Under each key stands the value at the key's position.
    proof fn lemma_slots(&self)
        requires
            self.paired(),
        ensures
            forall|i: int|
                0 <= i < self.keys.len() ==> self@.contains_key(#[trigger] self.keys[i]@)
                    && self@[self.keys[i]@] == self.values[i],
            forall|k: Seq<char>| #[trigger]
                self@.contains_key(k) ==> 0 <= slot_of(texts(self.keys@), k) < self.keys.len()
                    && self.keys[slot_of(texts(self.keys@), k)]@ == k,
            self@.dom() == texts(self.keys@).to_set(),
    {
        let ks = texts(self.keys@);
        assert forall|i: int| 0 <= i < self.keys.len() implies self@.contains_key(
            #[trigger] self.keys[i]@,
        ) && self@[self.keys[i]@] == self.values[i] by {
            assert(ks[i] == self.keys[i]@);
            assert(ks.contains(self.keys[i]@));
            let s: int = slot_of(ks, self.keys[i]@);
            assert(0 <= s < ks.len() && ks[s] == ks[i]);
        }
        assert forall|k: Seq<char>| #[trigger] self@.contains_key(k) implies 0 <= slot_of(ks, k)
            < self.keys.len() && self.keys[slot_of(ks, k)]@ == k by {
            let s: int = slot_of(ks, k);
            assert(0 <= s < ks.len() && ks[s] == k);
        }
        assert(self@.dom() =~= ks.to_set());
    }

    /// A map always has finitely many keys.
    pub proof fn lemma_finite(&self)
        ensures
            self@.dom().finite(),
    {
        assert(self@.dom() =~= texts(self.keys@).to_set());
        vstd::seq_lib::seq_to_set_is_finite(texts(self.keys@));
    }

    /// The empty map.
    pub fn new() -> (map: Self)
        ensures
            map@ == Map::<Seq<char>, V>::empty(),
    {
        let map = StringMap { keys: Vec::new(), values: Vec::new() };
        assert(map@ =~= Map::<Seq<char>, V>::empty());
        map
    }

    /// The number of keys in the map.
    pub fn len(&self) -> (n: usize)
        ensures
            n == self@.dom().len(),
            self@.dom().finite(),
    {
        proof {
            use_type_invariant(self);
            self.lemma_slots();
            texts(self.keys@).unique_seq_to_set();
            self.lemma_finite();
        }
        self.keys.len()
    }

    /// The keys of the map, each once, in the order in which they came in.
    pub fn keys(&self) -> (names: Vec<String>)
        ensures
            texts(names@).no_duplicates(),
            texts(names@).to_set() == self@.dom(),
    {
        proof {
            use_type_invariant(self);
            self.lemma_slots();
        }
        let mut names: Vec<String> = Vec::new();
        let mut i: usize = 0;
        while i < self.keys.len()
            invariant
                i <= self.keys.len(),
                names.len() == i,
                forall|j: int| 0 <= j < i ==> (#[trigger] names[j])@ == self.keys[j]@,
            decreases self.keys.len() - i,
        {
            names.push(self.keys[i].clone());
            i = i + 1;
        }
        assert(texts(names@) =~= texts(self.keys@));
        names
    }

    /// Whether a value stands under `key`.
    pub fn contains_key(&self, key: &String) -> (present: bool)
        ensures
            present == self@.contains_key(key@),
    {
        let found: Option<usize> = position_of(&self.keys, key);
        proof {
            if let Some(i) = found {
                assert(texts(self.keys@)[i as int] == key@);
            }
        }
        found.is_some()
    }

    /// The value under `key`, if there is one.
    pub fn get(&self, key: &String) -> (value: Option<&V>)
        ensures
            match value {
                Some(v) => self@.contains_key(key@) && *v == self@[key@],
                None => !self@.contains_key(key@),
            },
    {
        proof {
            use_type_invariant(self);
            self.lemma_slots();
        }
        match position_of(&self.keys, key) {
            Some(i) => Some(&self.values[i]),
            None => None,
        }
    }

    /// Puts `value` under `key`, in place of what stood there.
    pub fn insert(&mut self, key: String, value: V)
        ensures
            final(self)@ == old(self)@.insert(key@, value),
    {
        proof {
            use_type_invariant(&*self);
            self.lemma_slots();
        }
        let ghost before = *self;
        let mut taken: StringMap<V> = StringMap { keys: Vec::new(), values: Vec::new() };
        std::mem::swap(&mut taken, self);
        let StringMap { mut keys, mut values } = taken;
        match position_of(&keys, &key) {
            Some(i) => {
                values.set(i, value);
            },
            None => {
                proof {
                    lemma_push_distinct(texts(keys@), key@);
                    assert(texts(keys@.push(key)) =~= texts(keys@).push(key@));
                }
                keys.push(key);
                values.push(value);
            },
        }
        *self = StringMap { keys, values };
        proof {
            self.lemma_slots();
            let after = *self;
            let goal = before@.insert(key@, value);
            assert(after@.dom() =~= goal.dom());
            assert forall|k: Seq<char>| after@.contains_key(k) implies after@[k] == goal[k] by {
                let s: int = slot_of(texts(after.keys@), k);
                if k != key@ {
                    assert(before.keys[s]@ == k);
                } else {
                    if s < before.keys.len() {
                        assert(before.keys[s]@ == k || after.keys[s]@ == k);
                    }
                }
            }
            assert(after@ =~= goal);
        }
    }

    /// Takes the value under `key` out of the map, if there is one.
    pub fn remove(&mut self, key: &String) -> (value: Option<V>)
        ensures
            final(self)@ == old(self)@.remove(key@),
            value == (if old(self)@.contains_key(key@) {
                Some(old(self)@[key@])
            } else {
                None
            }),
    {
        proof {
            use_type_invariant(&*self);
            self.lemma_slots();
        }
        let ghost before = *self;
        let mut taken: StringMap<V> = StringMap { keys: Vec::new(), values: Vec::new() };
        std::mem::swap(&mut taken, self);
        let StringMap { mut keys, mut values } = taken;
        let value: Option<V> = match position_of(&keys, key) {
            Some(i) => {
                proof {
                    lemma_remove_distinct(texts(keys@), i as int);
                    assert(texts(keys@.remove(i as int)) =~= texts(keys@).remove(i as int));
                }
                let _ = keys.remove(i);
                Some(values.remove(i))
            },
            None => None,
        };
        *self = StringMap { keys, values };
        proof {
            self.lemma_slots();
            let after = *self;
            let goal = before@.remove(key@);
            assert(after@.dom() =~= goal.dom());
            assert forall|k: Seq<char>| after@.contains_key(k) implies after@[k] == goal[k] by {
                let s: int = slot_of(texts(after.keys@), k);
                let s0: int = slot_of(texts(before.keys@), k);
                assert(before@.contains_key(k));
                assert(before.keys[s0]@ == k);
                if value.is_some() {
                    let i: int = slot_of(texts(before.keys@), key@);
                    let s1: int = if s < i { s } else { s + 1 };
                    assert(before.keys[s1]@ == k);
                    assert(texts(before.keys@)[s1] == texts(before.keys@)[s0]);
                }
            }
            assert(after@ =~= goal);
        }
        value
    }
}

} // verus!
