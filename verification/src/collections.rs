//! Maps and sets keyed by paths.

use vstd::prelude::*;

use crate::path::{plain_paths, spelled_paths, Part, PathBuf, WrittenPath};

verus! {

/// What can be a key: values that can be compared and copied.
pub trait Key: View + Sized {
    /// Whether two keys are the same.
    fn same(&self, other: &Self) -> (same: bool)
        ensures
            same == (self@ == other@),
    ;

    /// A copy.
    fn duplicate(&self) -> (copy: Self)
        ensures
            copy@ == self@,
    ;
}

impl Key for PathBuf {
    fn same(&self, other: &PathBuf) -> (same: bool) {
        PathBuf::same(self, other)
    }

    fn duplicate(&self) -> (copy: PathBuf) {
        PathBuf::duplicate(self)
    }
}

/// A map.
#[derive(Debug)]
pub struct KeyMap<K, V> {
    entries: Vec<(K, V)>,
}

/// A map from paths to values.
pub type PathMap<V> = KeyMap<PathBuf, V>;

/// The keys in a list.
pub open spec fn keys_view<K: Key>(keys: Seq<K>) -> Seq<K::V> {
    keys.map_values(|key: K| key@)
}

/// The keys of a list of entries.
spec fn entry_keys<K: Key, V>(entries: Seq<(K, V)>) -> Seq<K::V> {
    entries.map_values(|entry: (K, V)| entry.0@)
}

/// The map that a list of entries with distinct keys stands for.
spec fn entry_map<K: Key, V>(entries: Seq<(K, V)>) -> Map<K::V, V> {
    Map::new(
        |path: K::V| entry_keys(entries).contains(path),
        |path: K::V| entries[entry_keys(entries).index_of(path)].1,
    )
}

impl<K: Key, V> View for KeyMap<K, V> {
    type V = Map<K::V, V>;

    closed spec fn view(&self) -> Map<K::V, V> {
        entry_map(self.entries@)
    }
}

proof fn lemma_entry<K: Key, V>(entries: Seq<(K, V)>, i: int)
    requires
        entry_keys(entries).no_duplicates(),
        0 <= i < entries.len(),
    ensures
        entry_map(entries).contains_key(entries[i].0@),
        entry_map(entries)[entries[i].0@] == entries[i].1,
{
    let keys = entry_keys(entries);
    assert(keys[i] == entries[i].0@);
    let j = keys.index_of(keys[i]);
    assert(0 <= j < keys.len() && keys[j] == keys[i]);
}

proof fn lemma_entries_finite<K: Key, V>(entries: Seq<(K, V)>)
    requires
        entry_keys(entries).no_duplicates(),
    ensures
        entry_map(entries).dom().finite(),
        entry_map(entries).dom().len() == entries.len(),
{
    let keys = entry_keys(entries);
    assert(entry_map(entries).dom() =~= keys.to_set());
    keys.unique_seq_to_set();
}

/// Two lists whose entries agree key by key stand for the same map.
proof fn lemma_same_map<K: Key, V>(entries: Seq<(K, V)>, map: Map<K::V, V>)
    requires
        entry_keys(entries).no_duplicates(),
        forall|i: int| 0 <= i < entries.len() ==> map.contains_key((#[trigger] entries[i]).0@) && map[entries[i].0@]
            == entries[i].1,
        forall|path: K::V| #[trigger] map.contains_key(path) ==> entry_keys(entries).contains(path),
    ensures
        entry_map(entries) == map,
{
    let keys = entry_keys(entries);
    assert forall|path: K::V| #![auto] entry_map(entries).contains_key(path) implies map.contains_key(path) && map[path]
        == entry_map(entries)[path] by {
        let i = keys.index_of(path);
        assert(keys[i] == path);
        assert(entries[i].0@ == path);
    }
    assert(entry_map(entries) =~= map);
}

impl<K: Key, V> KeyMap<K, V> {
    /// Every key occurs once.
    pub closed spec fn wf(&self) -> bool {
        entry_keys(self.entries@).no_duplicates()
    }

    /// The empty map.
    pub fn new() -> (map: KeyMap<K, V>)
        ensures
            map.wf(),
            map@ == Map::<K::V, V>::empty(),
    {
        let map = KeyMap { entries: Vec::new() };
        proof {
            assert(entry_keys(map.entries@) =~= Seq::<K::V>::empty());
            assert(map@ =~= Map::<K::V, V>::empty());
        }
        map
    }

    /// The number of keys.
    pub fn len(&self) -> (len: usize)
        requires
            self.wf(),
        ensures
            self@.dom().finite(),
            len == self@.dom().len(),
    {
        proof {
            lemma_entries_finite(self.entries@);
        }
        self.entries.len()
    }

    /// The keys, each once, in the order in which they were first inserted.
    pub fn keys(&self) -> (keys: Vec<K>)
        requires
            self.wf(),
        ensures
            keys_view(keys@).no_duplicates(),
            forall|path: K::V| #[trigger]
                keys_view(keys@).contains(path) <==> self@.contains_key(path),
    {
        let mut keys: Vec<K> = Vec::new();
        let ghost all = entry_keys(self.entries@);
        let mut i: usize = 0;
        while i < self.entries.len()
            invariant
                i <= self.entries@.len(),
                all == entry_keys(self.entries@),
                keys_view(keys@) == all.take(i as int),
            decreases self.entries@.len() - i,
        {
            let ghost before = keys@;
            keys.push(self.entries[i].0.duplicate());
            i += 1;
            assert(keys_view(keys@) =~= keys_view(before).push(all[i - 1]));
            assert(keys_view(keys@) =~= all.take(i as int));
        }
        assert(all.take(i as int) =~= all);
        keys
    }

    /// Where the entry of a key stands.
    fn find(&self, path: &K) -> (index: Option<usize>)
        requires
            self.wf(),
        ensures
            match index {
                Some(i) => i < self.entries@.len() && self.entries@[i as int].0@ == path@
                    && self@.contains_key(path@) && self@[path@] == self.entries@[i as int].1,
                None => !self@.contains_key(path@),
            },
    {
        let mut i: usize = 0;
        while i < self.entries.len()
            invariant
                i <= self.entries@.len(),
                self.wf(),
                forall|j: int| 0 <= j < i ==> entry_keys(self.entries@)[j] != path@,
            decreases self.entries@.len() - i,
        {
            if self.entries[i].0.same(path) {
                proof {
                    lemma_entry(self.entries@, i as int);
                }
                return Some(i);
            }
            i += 1;
        }
        None
    }

    /// Whether a key is in the map.
    pub fn contains_key(&self, path: &K) -> (contained: bool)
        requires
            self.wf(),
        ensures
            contained == self@.contains_key(path@),
    {
        self.find(path).is_some()
    }

    /// The value of a key.
    pub fn get(&self, path: &K) -> (value: Option<&V>)
        requires
            self.wf(),
        ensures
            match value {
                Some(value) => self@.contains_key(path@) && *value == self@[path@],
                None => !self@.contains_key(path@),
            },
    {
        match self.find(path) {
            Some(i) => Some(&self.entries[i].1),
            None => None,
        }
    }

    /// The value of a key, for changing it in place.
    pub fn get_mut(&mut self, path: &K) -> (value: Option<&mut V>)
        requires
            old(self).wf(),
        ensures
            final(self).wf(),
            match value {
                Some(value) => old(self)@.contains_key(path@) && *value == old(self)@[path@]
                    && final(self)@ == old(self)@.insert(path@, *final(value)),
                None => !old(self)@.contains_key(path@) && final(self)@ == old(self)@,
            },
    {
        match self.find(path) {
            Some(i) => {
                proof {
                    assert forall|v: V|
                        #![trigger self.entries@.update(i as int, (self.entries@[i as int].0, v))]
                        entry_map(self.entries@.update(i as int, (self.entries@[i as int].0, v)))
                            == self@.insert(path@, v) && entry_keys(
                            self.entries@.update(i as int, (self.entries@[i as int].0, v)),
                        ).no_duplicates() by {
                        lemma_update(self.entries@, i as int, v);
                    }
                }
                Some(&mut self.entries[i].1)
            },
            None => None,
        }
    }

    /// Gives a key a value, in place of the one that it had.
    pub fn insert(&mut self, path: K, value: V)
        requires
            old(self).wf(),
        ensures
            final(self).wf(),
            final(self)@ == old(self)@.insert(path@, value),
    {
        match self.find(&path) {
            Some(i) => {
                let ghost before = self.entries@;
                let ghost key = before[i as int].0;
                proof {
                    lemma_update(before, i as int, value);
                }
                self.entries[i].1 = value;
                assert(self.entries@ =~= before.update(i as int, (key, value)));
            },
            None => {
                let ghost before = self.entries@;
                let ghost keys = entry_keys(before);
                self.entries.push((path, value));
                proof {
                    let entries = self.entries@;
                    assert(entry_keys(entries) =~= keys.push(path@));
                    assert(!keys.contains(path@));
                    let map = entry_map(before).insert(path@, value);
                    assert forall|i: int| 0 <= i < entries.len() implies map.contains_key((
                    #[trigger] entries[i]).0@) && map[entries[i].0@] == entries[i].1 by {
                        if i < before.len() {
                            lemma_entry(before, i);
                            assert(keys[i] == entries[i].0@);
                        }
                    }
                    assert forall|p: K::V| #[trigger] map.contains_key(p) implies entry_keys(
                        entries,
                    ).contains(p) by {
                        if p == path@ {
                            assert(entry_keys(entries)[before.len() as int] == p);
                        } else {
                            let j = keys.index_of(p);
                            assert(entry_keys(entries)[j] == p);
                        }
                    }
                    lemma_same_map(entries, map);
                }
            },
        }
    }

    /// Takes a key and its value out.
    pub fn remove(&mut self, path: &K) -> (value: Option<V>)
        requires
            old(self).wf(),
        ensures
            final(self).wf(),
            final(self)@ == old(self)@.remove(path@),
            match value {
                Some(value) => old(self)@.contains_key(path@) && value == old(self)@[path@],
                None => !old(self)@.contains_key(path@),
            },
    {
        match self.find(path) {
            Some(i) => {
                let ghost before = self.entries@;
                let ghost keys = entry_keys(before);
                let removed = self.entries.remove(i);
                proof {
                    let entries = self.entries@;
                    let map = entry_map(before).remove(path@);
                    assert(entry_keys(entries) =~= keys.remove(i as int));
                    assert forall|j: int| 0 <= j < entries.len() implies map.contains_key((
                    #[trigger] entries[j]).0@) && map[entries[j].0@] == entries[j].1 by {
                        let k = if j < i {
                            j
                        } else {
                            j + 1
                        };
                        assert(entries[j] == before[k]);
                        assert(keys[k] == before[k].0@);
                        assert(keys[i as int] == path@);
                        lemma_entry(before, k);
                    }
                    assert forall|p: K::V| #[trigger] map.contains_key(p) implies entry_keys(
                        entries,
                    ).contains(p) by {
                        let k = keys.index_of(p);
                        assert(keys[k] == p && k != i);
                        let j = if k < i {
                            k
                        } else {
                            k - 1
                        };
                        assert(entry_keys(entries)[j] == p);
                    }
                    lemma_same_map(entries, map);
                }
                Some(removed.1)
            },
            None => {
                assert(self@.remove(path@) =~= self@);
                None
            },
        }
    }
}

proof fn lemma_update<K: Key, V>(entries: Seq<(K, V)>, i: int, value: V)
    requires
        entry_keys(entries).no_duplicates(),
        0 <= i < entries.len(),
    ensures
        entry_keys(entries.update(i, (entries[i].0, value))).no_duplicates(),
        entry_map(entries.update(i, (entries[i].0, value))) == entry_map(entries).insert(
            entries[i].0@,
            value,
        ),
{
    let keys = entry_keys(entries);
    let updated = entries.update(i, (entries[i].0, value));
    assert(entry_keys(updated) =~= keys);
    let map = entry_map(entries).insert(entries[i].0@, value);
    assert forall|j: int| 0 <= j < updated.len() implies map.contains_key((#[trigger] updated[j]).0@) && map[updated[j].0@]
        == updated[j].1 by {
        lemma_entry(entries, j);
        assert(keys[j] == entries[j].0@ && keys[i] == entries[i].0@);
    }
    assert(keys[i] == entries[i].0@);
    lemma_same_map(updated, map);
}

/// A list of paths with `path` added at the end, unless it is there already.
pub open spec fn with_path(paths: Seq<WrittenPath>, path: WrittenPath) -> Seq<WrittenPath> {
    if plain_paths(paths).contains(path.path) {
        paths
    } else {
        paths.push(path)
    }
}

/// A list of paths with `path` taken out.
pub open spec fn without_path(paths: Seq<WrittenPath>, path: Seq<Part>) -> Seq<WrittenPath> {
    if plain_paths(paths).contains(path) {
        paths.remove(plain_paths(paths).index_of(path))
    } else {
        paths
    }
}

/// A set of paths that remembers the order in which they were added, and how
/// each was written then.
#[derive(Debug)]
pub struct PathSet {
    paths: Vec<PathBuf>,
}

impl View for PathSet {
    type V = Seq<WrittenPath>;

    closed spec fn view(&self) -> Seq<WrittenPath> {
        spelled_paths(self.paths@)
    }
}

impl PathSet {
    /// The empty set.
    pub fn new() -> (set: PathSet)
        ensures
            set@ == Seq::<WrittenPath>::empty(),
    {
        let set = PathSet { paths: Vec::new() };
        assert(set@ =~= Seq::<WrittenPath>::empty());
        set
    }

    /// Where a path stands.
    fn find(&self, path: &PathBuf) -> (index: Option<usize>)
        ensures
            match index {
                Some(i) => i < self@.len() && plain_paths(self@)[i as int] == path@ && plain_paths(
                    self@,
                ).index_of_first(path@) == Some(i as int),
                None => !plain_paths(self@).contains(path@),
            },
    {
        let mut i: usize = 0;
        while i < self.paths.len()
            invariant
                i <= self.paths@.len(),
                forall|j: int| 0 <= j < i ==> plain_paths(self@)[j] != path@,
            decreases self.paths@.len() - i,
        {
            assert(plain_paths(self@)[i as int] == self.paths@[i as int]@);
            if self.paths[i].same(path) {
                proof {
                    plain_paths(self@).index_of_first_ensures(path@);
                }
                return Some(i);
            }
            i += 1;
        }
        None
    }

    /// Whether a path is in the set.
    pub fn contains(&self, path: &PathBuf) -> (contained: bool)
        ensures
            contained == plain_paths(self@).contains(path@),
    {
        self.find(path).is_some()
    }

    /// Adds a path.
    pub fn insert(&mut self, path: PathBuf)
        ensures
            final(self)@ == with_path(old(self)@, path.spelled()),
    {
        if !self.contains(&path) {
            let ghost before = self@;
            self.paths.push(path);
            assert(self@ =~= before.push(path.spelled()));
        }
    }

    /// Takes a path out. Returns whether it was there.
    pub fn remove(&mut self, path: &PathBuf) -> (removed: bool)
        requires
            plain_paths(old(self)@).no_duplicates(),
        ensures
            removed == plain_paths(old(self)@).contains(path@),
            final(self)@ == without_path(old(self)@, path@),
            plain_paths(final(self)@).no_duplicates(),
    {
        match self.find(path) {
            Some(i) => {
                let ghost before = self@;
                self.paths.remove(i);
                proof {
                    assert(plain_paths(before).index_of(path@) == i);
                    assert(self@ =~= before.remove(i as int));
                    assert(plain_paths(self@) =~= plain_paths(before).remove(i as int));
                }
                true
            },
            None => false,
        }
    }

    /// Takes all paths out, in order.
    pub fn take(&mut self) -> (paths: Vec<PathBuf>)
        ensures
            spelled_paths(paths@) == old(self)@,
            final(self)@ == Seq::<WrittenPath>::empty(),
    {
        let mut paths: Vec<PathBuf> = Vec::new();
        std::mem::swap(&mut paths, &mut self.paths);
        assert(self@ =~= Seq::<WrittenPath>::empty());
        paths
    }
}

} // verus!
