//! Small collections keyed by text: a set of paths, a map from text to
//! values, and a relation between keys and paths. Each keeps its entries in
//! the order in which they came, and none holds a key or a path twice.
use crate::text::views;
use vstd::prelude::*;

verus! {

/// The texts in the order in which each first occurs.
pub open spec fn first_occurrences(texts: Seq<Seq<char>>) -> Seq<Seq<char>>
    decreases texts.len(),
{
    if texts.len() == 0 {
        seq![]
    } else {
        let before = first_occurrences(texts.drop_last());
        if before.contains(texts.last()) {
            before
        } else {
            before.push(texts.last())
        }
    }
}

/// In a sequence without duplicates an item is found where it stands.
pub proof fn lemma_index_of<A>(s: Seq<A>, i: int)
    requires
        s.no_duplicates(),
        0 <= i < s.len(),
    ensures
        s.index_of(s[i]) == i,
        s.contains(s[i]),
{
}

/// The position of `key` among `keys`.
fn position_of(keys: &Vec<String>, key: &String) -> (r: Option<usize>)
    ensures
        match r {
            Some(i) => i < keys.len() && keys@[i as int]@ == key@ && views(keys@).contains(key@),
            None => !views(keys@).contains(key@),
        },
{
    let mut i: usize = 0;
    while i < keys.len()
        invariant
            i <= keys.len(),
            forall|j: int| 0 <= j < i ==> views(keys@)[j] != key@,
        decreases keys.len() - i,
    {
        if keys[i] == *key {
            proof {
                assert(views(keys@)[i as int] == key@);
            }
            return Some(i);
        }
        i += 1;
    }
    None
}

/// A set of paths.
#[derive(Debug)]
pub struct PathSet {
    items: Vec<String>,
}

impl View for PathSet {
    type V = Set<Seq<char>>;

    closed spec fn view(&self) -> Set<Seq<char>> {
        views(self.items@).to_set()
    }
}

impl PathSet {
    /// No path stands in the set twice.
    pub closed spec fn wf(&self) -> bool {
        views(self.items@).no_duplicates()
    }

    /// The paths in the order in which they came into the set.
    pub closed spec fn order(&self) -> Seq<Seq<char>> {
        views(self.items@)
    }

    /// The order lists each path of the set once.
    pub proof fn lemma_order(&self)
        requires
            self.wf(),
        ensures
            self.order().no_duplicates(),
            self.order().to_set() == self@,
            self.order().len() == self@.len(),
            self@.finite(),
    {
        views(self.items@).unique_seq_to_set();
    }

    /// A set without paths.
    pub fn new() -> (s: Self)
        ensures
            s.wf(),
            s@ == Set::<Seq<char>>::empty(),
            s.order() == Seq::<Seq<char>>::empty(),
    {
        PathSet { items: Vec::new() }
    }

    /// Whether `path` is in the set.
    pub fn contains(&self, path: &str) -> (r: bool)
        ensures
            r == self@.contains(path@),
    {
        let key: String = path.to_owned();
        position_of(&self.items, &key).is_some()
    }

    /// Puts `path` into the set and tells whether it was new.
    pub fn insert(&mut self, path: String) -> (added: bool)
        requires
            old(self).wf(),
        ensures
            final(self).wf(),
            final(self)@ == old(self)@.insert(path@),
            added == !old(self)@.contains(path@),
            final(self).order() == if added {
                old(self).order().push(path@)
            } else {
                old(self).order()
            },
    {
        match position_of(&self.items, &path) {
            Some(_) => {
                false
            },
            None => {
                proof {
                    assert(views(self.items@.push(path)) == views(self.items@).push(path@));
                    views(self.items@).lemma_push_to_set_commute(path@);
                }
                self.items.push(path);
                true
            },
        }
    }

    /// The number of paths in the set.
    pub fn len(&self) -> (n: usize)
        requires
            self.wf(),
        ensures
            n == self@.len(),
            n == self.order().len(),
    {
        proof {
            self.lemma_order();
        }
        self.items.len()
    }

    /// Whether the set holds no path.
    pub fn is_empty(&self) -> (r: bool)
        requires
            self.wf(),
        ensures
            r == (self@.len() == 0),
    {
        self.len() == 0
    }

    /// The paths of the set, each once, in the order in which they came.
    pub fn items(&self) -> (r: &Vec<String>)
        ensures
            views(r@) == self.order(),
    {
        &self.items
    }

    /// Puts every path of `other` into the set.
    pub fn extend(&mut self, other: &PathSet)
        requires
            old(self).wf(),
        ensures
            final(self).wf(),
            final(self)@ == old(self)@.union(other@),
    {
        let mut i: usize = 0;
        while i < other.items.len()
            invariant
                i <= other.items.len(),
                self.wf(),
                self@ == old(self)@.union(views(other.items@).take(i as int).to_set()),
            decreases other.items.len() - i,
        {
            proof {
                let all = views(other.items@);
                assert(all.take(i + 1) == all.take(i as int).push(other.items@[i as int]@));
                all.take(i as int).lemma_push_to_set_commute(other.items@[i as int]@);
            }
            self.insert(other.items[i].clone());
            i += 1;
        }
        proof {
            assert(views(other.items@).take(other.items.len() as int) == views(other.items@));
        }
    }
}

/// `relation` with `member` added to what stands under `key`.
pub open spec fn relation_add(
    relation: Map<Seq<char>, Set<Seq<char>>>,
    key: Seq<char>,
    member: Seq<char>,
) -> Map<Seq<char>, Set<Seq<char>>> {
    relation.insert(
        key,
        (if relation.contains_key(key) {
            relation[key]
        } else {
            Set::empty()
        }).insert(member),
    )
}

/// Whether `member` stands under `key`.
pub open spec fn relates(
    relation: Map<Seq<char>, Set<Seq<char>>>,
    key: Seq<char>,
    member: Seq<char>,
) -> bool {
    relation.contains_key(key) && relation[key].contains(member)
}

/// Adding a pair to a relation adds that pair and no other.
pub proof fn lemma_relation_add(
    relation: Map<Seq<char>, Set<Seq<char>>>,
    key: Seq<char>,
    member: Seq<char>,
)
    ensures
        forall|k: Seq<char>, m: Seq<char>| #[trigger]
            relates(relation_add(relation, key, member), k, m) <==> relates(relation, k, m) || (k
                == key && m == member),
{
}

/// The paths of the first `n` sets, one after another.
pub open spec fn members_upto(sets: Seq<PathSet>, n: int) -> Seq<Seq<char>>
    decreases n,
{
    if n <= 0 {
        seq![]
    } else {
        members_upto(sets, n - 1) + sets[n - 1].order()
    }
}

proof fn lemma_members_upto(sets: Seq<PathSet>, n: int, i: int, member: Seq<char>)
    requires
        0 <= i < n <= sets.len(),
        sets[i].order().contains(member),
    ensures
        members_upto(sets, n).contains(member),
    decreases n,
{
    if i < n - 1 {
        lemma_members_upto(sets, n - 1, i, member);
        let k = members_upto(sets, n - 1).index_of(member);
        assert(members_upto(sets, n)[k] == member);
    } else {
        let k = sets[i].order().index_of(member);
        assert(members_upto(sets, n)[members_upto(sets, n - 1).len() + k] == member);
    }
}

/// A relation between keys and paths: under each key a set of paths.
#[derive(Debug)]
pub struct PathRelation {
    keys: Vec<String>,
    sets: Vec<PathSet>,
}

impl View for PathRelation {
    type V = Map<Seq<char>, Set<Seq<char>>>;

    closed spec fn view(&self) -> Map<Seq<char>, Set<Seq<char>>> {
        Map::new(
            |k: Seq<char>| views(self.keys@).contains(k),
            |k: Seq<char>| self.sets@[views(self.keys@).index_of(k)]@,
        )
    }
}

impl PathRelation {
    /// No key stands in the relation twice, and each key has its set.
    pub closed spec fn wf(&self) -> bool {
        &&& views(self.keys@).no_duplicates()
        &&& self.keys.len() == self.sets.len()
        &&& forall|i: int| 0 <= i < self.sets.len() ==> (#[trigger] self.sets@[i]).wf()
    }

    /// Every path that stands under some key.
    pub closed spec fn members(&self) -> Set<Seq<char>> {
        members_upto(self.sets@, self.sets.len() as int).to_set()
    }

    /// The members are finitely many, and what stands under a key is among
    /// them.
    pub proof fn lemma_members(&self)
        requires
            self.wf(),
        ensures
            self.members().finite(),
            forall|k: Seq<char>, m: Seq<char>|
                #[trigger] relates(self@, k, m) ==> self.members().contains(m),
    {
        assert forall|k: Seq<char>, m: Seq<char>| #[trigger]
            relates(self@, k, m) implies self.members().contains(m) by {
            let i = views(self.keys@).index_of(k);
            lemma_members_upto(self.sets@, self.sets.len() as int, i, m);
        }
    }

    /// A relation without keys.
    pub fn new() -> (r: Self)
        ensures
            r.wf(),
            r@ == Map::<Seq<char>, Set<Seq<char>>>::empty(),
    {
        PathRelation { keys: Vec::new(), sets: Vec::new() }
    }

    /// The set that stands under `key`.
    pub fn get(&self, key: &str) -> (r: Option<&PathSet>)
        requires
            self.wf(),
        ensures
            match r {
                Some(set) => self@.contains_key(key@) && set@ == self@[key@] && set.wf(),
                None => !self@.contains_key(key@),
            },
    {
        let wanted: String = key.to_owned();
        match position_of(&self.keys, &wanted) {
            Some(i) => {
                proof {
                    lemma_index_of(views(self.keys@), i as int);
                }
                Some(&self.sets[i])
            },
            None => None,
        }
    }

    /// Adds `member` to what stands under `key`.
    pub fn add(&mut self, key: String, member: String)
        requires
            old(self).wf(),
        ensures
            final(self).wf(),
            final(self)@ == relation_add(old(self)@, key@, member@),
    {
        let ghost old_keys = views(self.keys@);
        match position_of(&self.keys, &key) {
            Some(i) => {
                proof {
                    lemma_index_of(old_keys, i as int);
                }
                self.sets[i].insert(member);
            },
            None => {
                let mut set = PathSet::new();
                set.insert(member);
                proof {
                    assert(views(self.keys@.push(key)) == old_keys.push(key@));
                }
                self.keys.push(key);
                self.sets.push(set);
                proof {
                    let new_keys = views(self.keys@);
                    assert forall|k: Seq<char>| new_keys.contains(k) <==> (old_keys.contains(k)
                        || k == key@) by {
                        if old_keys.contains(k) {
                            let j = old_keys.index_of(k);
                            assert(new_keys[j] == k);
                        }
                        if k == key@ {
                            assert(new_keys[old_keys.len() as int] == k);
                        }
                    }
                }
            },
        }
    }
}

/// A map from text to values.
#[derive(Debug)]
pub struct StringMap<V> {
    keys: Vec<String>,
    values: Vec<V>,
}

impl<V> View for StringMap<V> {
    type V = Map<Seq<char>, V>;

    closed spec fn view(&self) -> Map<Seq<char>, V> {
        Map::new(
            |k: Seq<char>| views(self.keys@).contains(k),
            |k: Seq<char>| self.values@[views(self.keys@).index_of(k)],
        )
    }
}

impl<V> StringMap<V> {
    /// No key stands in the map twice, and each key has its value.
    pub closed spec fn wf(&self) -> bool {
        &&& views(self.keys@).no_duplicates()
        &&& self.keys.len() == self.values.len()
    }

    /// The keys in the order in which they came into the map.
    pub closed spec fn key_order(&self) -> Seq<Seq<char>> {
        views(self.keys@)
    }

    /// The key order lists each key of the map once.
    pub proof fn lemma_key_order(&self)
        requires
            self.wf(),
        ensures
            self.key_order().no_duplicates(),
            forall|k: Seq<char>| self.key_order().contains(k) <==> self@.contains_key(k),
    {
    }

    /// A map without keys.
    pub fn new() -> (r: Self)
        ensures
            r.wf(),
            r@ == Map::<Seq<char>, V>::empty(),
            r.key_order() == Seq::<Seq<char>>::empty(),
    {
        StringMap { keys: Vec::new(), values: Vec::new() }
    }

    /// The number of keys.
    pub fn len(&self) -> (n: usize)
        ensures
            n == self.key_order().len(),
    {
        self.keys.len()
    }

    /// The key at position `i` of the key order.
    pub fn key_at(&self, i: usize) -> (key: &String)
        requires
            self.wf(),
            i < self.key_order().len(),
        ensures
            key@ == self.key_order()[i as int],
    {
        &self.keys[i]
    }

    /// The value of the key at position `i` of the key order.
    pub fn value_at(&self, i: usize) -> (value: &V)
        requires
            self.wf(),
            i < self.key_order().len(),
        ensures
            self@.contains_key(self.key_order()[i as int]),
            *value == self@[self.key_order()[i as int]],
    {
        &self.values[i]
    }

    /// The value under `key`.
    pub fn get(&self, key: &str) -> (r: Option<&V>)
        requires
            self.wf(),
        ensures
            match r {
                Some(value) => self@.contains_key(key@) && *value == self@[key@],
                None => !self@.contains_key(key@),
            },
    {
        let wanted: String = key.to_owned();
        match position_of(&self.keys, &wanted) {
            Some(i) => {
                proof {
                    lemma_index_of(views(self.keys@), i as int);
                }
                Some(&self.values[i])
            },
            None => None,
        }
    }

    /// Whether the map has `key`.
    pub fn contains_key(&self, key: &str) -> (r: bool)
        requires
            self.wf(),
        ensures
            r == self@.contains_key(key@),
    {
        self.get(key).is_some()
    }

    /// Puts `value` under `key`, in place of what stood there.
    pub fn insert(&mut self, key: String, value: V)
        requires
            old(self).wf(),
        ensures
            final(self).wf(),
            final(self)@ == old(self)@.insert(key@, value),
            final(self).key_order() == if old(self)@.contains_key(key@) {
                old(self).key_order()
            } else {
                old(self).key_order().push(key@)
            },
    {
        let ghost old_keys = views(self.keys@);
        match position_of(&self.keys, &key) {
            Some(i) => {
                proof {
                    lemma_index_of(old_keys, i as int);
                }
                self.values.set(i, value);
            },
            None => {
                proof {
                    assert(views(self.keys@.push(key)) == old_keys.push(key@));
                }
                self.keys.push(key);
                self.values.push(value);
                proof {
                    let new_keys = views(self.keys@);
                    assert forall|k: Seq<char>| new_keys.contains(k) <==> (old_keys.contains(k)
                        || k == key@) by {
                        if old_keys.contains(k) {
                            let j = old_keys.index_of(k);
                            assert(new_keys[j] == k);
                        }
                        if k == key@ {
                            assert(new_keys[old_keys.len() as int] == k);
                        }
                    }
                }
            },
        }
    }
}

} // verus!
