use vstd::prelude::*;

verus! {

/// The key spaces of the store.
#[derive(Clone, Copy, Debug, PartialEq, Eq, Structural)]
pub enum Column {
    BlockStorageMeta,
    Headers,
    Transactions,
    Events,
    StateDiffs,
    ClassInfo,
    CompiledClasses,
    PendingBlock,
    PendingClasses,
    TrieFlat,
    TrieNodes,
    TrieLog,
    L1Messages,
}

/// A key of the trie layer; its kind selects the column.
#[derive(Debug)]
pub enum DatabaseKey {
    Trie(Vec<u8>),
    Flat(Vec<u8>),
    TrieLog(Vec<u8>),
}

impl DatabaseKey {
    pub open spec fn bytes_spec(&self) -> Seq<u8> {
        match self {
            DatabaseKey::Trie(b) => b@,
            DatabaseKey::Flat(b) => b@,
            DatabaseKey::TrieLog(b) => b@,
        }
    }

    pub fn as_slice(&self) -> (r: &[u8])
        ensures
            r@ == self.bytes_spec(),
    {
        match self {
            DatabaseKey::Trie(b) => b.as_slice(),
            DatabaseKey::Flat(b) => b.as_slice(),
            DatabaseKey::TrieLog(b) => b.as_slice(),
        }
    }
}

/// Which column holds each kind of trie key.
#[derive(Clone, Copy, Debug, PartialEq, Eq, Structural)]
pub struct DatabaseKeyMapping {
    pub flat: Column,
    pub trie: Column,
    pub log: Column,
}

impl DatabaseKeyMapping {
    pub fn map(&self, key: &DatabaseKey) -> (r: Column)
        ensures
            key is Trie ==> r == self.trie,
            key is Flat ==> r == self.flat,
            key is TrieLog ==> r == self.log,
    {
        match key {
            DatabaseKey::Trie(_) => self.trie,
            DatabaseKey::Flat(_) => self.flat,
            DatabaseKey::TrieLog(_) => self.log,
        }
    }
}

pub open spec fn kind_index(key: &DatabaseKey) -> usize {
    match key {
        DatabaseKey::Trie(_) => 0,
        DatabaseKey::Flat(_) => 1,
        DatabaseKey::TrieLog(_) => 2,
    }
}

fn copy_bytes(v: &[u8]) -> (r: Vec<u8>)
    ensures
        r@ == v@,
{
    let mut out: Vec<u8> = Vec::new();
    let mut i: usize = 0;
    while i < v.len()
        invariant
            i <= v@.len(),
            out@ == v@.subrange(0, i as int),
        decreases v@.len() - i,
    {
        out.push(v[i]);
        i = i + 1;
        assert(out@ =~= v@.subrange(0, i as int));
    }
    assert(v@.subrange(0, i as int) =~= v@);
    out
}

/// The key under which a transaction records a change: the kind of key, then its bytes.
pub fn to_changed_key(k: &DatabaseKey) -> (r: (usize, Vec<u8>))
    ensures
        r.0 == kind_index(k),
        r.1@ == k.bytes_spec(),
{
    let kind: usize = match k {
        DatabaseKey::Trie(_) => 0,
        DatabaseKey::Flat(_) => 1,
        DatabaseKey::TrieLog(_) => 2,
    };
    (kind, copy_bytes(k.as_slice()))
}

pub open spec fn starts_with(key: Seq<u8>, prefix: Seq<u8>) -> bool {
    prefix.len() <= key.len() && key.subrange(0, prefix.len() as int) == prefix
}

fn starts_with_exec(key: &[u8], prefix: &[u8]) -> (r: bool)
    ensures
        r == starts_with(key@, prefix@),
{
    if prefix.len() > key.len() {
        return false;
    }
    let mut i: usize = 0;
    while i < prefix.len()
        invariant
            i <= prefix@.len() <= key@.len(),
            forall|j: int| 0 <= j < i ==> key@[j] == prefix@[j],
        decreases prefix@.len() - i,
    {
        if key[i] != prefix[i] {
            assert(key@.subrange(0, prefix@.len() as int)[i as int] != prefix@[i as int]);
            return false;
        }
        i = i + 1;
    }
    assert(key@.subrange(0, prefix@.len() as int) =~= prefix@);
    true
}

/// The number of leading entries whose keys start with `prefix`.
pub open spec fn prefixed_run(entries: Seq<(Vec<u8>, Vec<u8>)>, prefix: Seq<u8>) -> nat
    decreases entries.len(),
{
    if entries.len() == 0 || !starts_with(entries[0].0@, prefix) {
        0
    } else {
        1 + prefixed_run(entries.drop_first(), prefix)
    }
}

/// Of the entries read in key order from the first key at or after `prefix`, the leading
/// ones whose keys start with `prefix`: the scan ends at the first key that does not.
pub fn get_by_prefix(entries: &Vec<(Vec<u8>, Vec<u8>)>, prefix: &[u8]) -> (r: Vec<(Vec<u8>, Vec<u8>)>)
    ensures
        r@.len() == prefixed_run(entries@, prefix@),
        forall|i: int|
            0 <= i < r@.len() ==> (#[trigger] r@[i]).0@ == entries@[i].0@ && r@[i].1@ == entries@[i].1@,
{
    let mut out: Vec<(Vec<u8>, Vec<u8>)> = Vec::new();
    let mut i: usize = 0;
    assert(entries@.subrange(0, entries@.len() as int) =~= entries@);
    while i < entries.len() && starts_with_exec(entries[i].0.as_slice(), prefix)
        invariant
            i <= entries@.len(),
            out@.len() == i,
            prefixed_run(entries@, prefix@) == i + prefixed_run(entries@.subrange(i as int, entries@.len() as int), prefix@),
            forall|j: int|
                0 <= j < i ==> (#[trigger] out@[j]).0@ == entries@[j].0@ && out@[j].1@ == entries@[j].1@,
        decreases entries@.len() - i,
    {
        let ghost rest = entries@.subrange(i as int, entries@.len() as int);
        assert(rest.drop_first() =~= entries@.subrange(i + 1, entries@.len() as int));
        assert(rest[0] == entries@[i as int]);
        out.push((copy_bytes(entries[i].0.as_slice()), copy_bytes(entries[i].1.as_slice())));
        i = i + 1;
    }
    proof {
        let rest = entries@.subrange(i as int, entries@.len() as int);
        if i < entries@.len() {
            assert(rest[0] == entries@[i as int]);
        }
    }
    out
}

/// The keys that removing by `prefix` deletes, from the keys read in order from the first
/// key at or after `prefix`.
pub fn keys_to_remove_by_prefix(keys: &Vec<Vec<u8>>, prefix: &[u8]) -> (r: usize)
    ensures
        r <= keys@.len(),
        forall|i: int| 0 <= i < r ==> starts_with(#[trigger] keys@[i]@, prefix@),
        r < keys@.len() ==> !starts_with(keys@[r as int]@, prefix@),
{
    let mut i: usize = 0;
    while i < keys.len() && starts_with_exec(keys[i].as_slice(), prefix)
        invariant
            i <= keys@.len(),
            forall|j: int| 0 <= j < i ==> starts_with(#[trigger] keys@[j]@, prefix@),
        decreases keys@.len() - i,
    {
        i = i + 1;
    }
    i
}

/// The writes of a read transaction on a snapshot, kept in memory: for each changed key,
/// its new value, or `None` where it was removed.
#[derive(Debug)]
pub struct BonsaiTransaction {
    changed: Vec<((usize, Vec<u8>), Option<Vec<u8>>)>,
}

pub open spec fn change_key_view(k: (usize, Vec<u8>)) -> (usize, Seq<u8>) {
    (k.0, k.1@)
}

pub open spec fn opt_bytes(v: Option<Vec<u8>>) -> Option<Seq<u8>> {
    match v {
        Some(b) => Some(b@),
        None => None,
    }
}

impl BonsaiTransaction {
    /// The changes as a map from key to new value.
    pub closed spec fn view(&self) -> Map<(usize, Seq<u8>), Option<Seq<u8>>> {
        Map::new(
            |k: (usize, Seq<u8>)| exists|i: int| 0 <= i < self.changed@.len() && change_key_view(self.changed@[i].0) == k,
            |k: (usize, Seq<u8>)| {
                let i = choose|i: int| 0 <= i < self.changed@.len() && change_key_view(self.changed@[i].0) == k;
                opt_bytes(self.changed@[i].1)
            },
        )
    }

    pub closed spec fn wf(&self) -> bool {
        forall|i: int, j: int|
            0 <= i < j < self.changed@.len() ==> change_key_view(#[trigger] self.changed@[i].0) != change_key_view(
                #[trigger] self.changed@[j].0,
            )
    }

    pub fn new() -> (r: BonsaiTransaction)
        ensures
            r.wf(),
            r@ == Map::<(usize, Seq<u8>), Option<Seq<u8>>>::empty(),
    {
        let r = BonsaiTransaction { changed: Vec::new() };
        assert(r@ =~= Map::<(usize, Seq<u8>), Option<Seq<u8>>>::empty());
        r
    }

    fn find(&self, kind: usize, key: &[u8]) -> (r: Option<usize>)
        requires
            self.wf(),
        ensures
            r is None ==> !self@.contains_key((kind, key@)),
            r matches Some(i) ==> i < self.changed@.len() && change_key_view(self.changed@[i as int].0) == (
                kind,
                key@,
            ),
    {
        let mut i: usize = 0;
        while i < self.changed.len()
            invariant
                i <= self.changed@.len(),
                forall|j: int| 0 <= j < i ==> change_key_view(#[trigger] self.changed@[j].0) != (kind, key@),
            decreases self.changed@.len() - i,
        {
            let entry = &self.changed[i];
            if entry.0.0 == kind && bytes_equal(entry.0.1.as_slice(), key) {
                return Some(i);
            }
            i = i + 1;
        }
        None
    }

    proof fn lemma_view_at(&self, i: int)
        requires
            self.wf(),
            0 <= i < self.changed@.len(),
        ensures
            self@.contains_key(change_key_view(self.changed@[i].0)),
            self@[change_key_view(self.changed@[i].0)] == opt_bytes(self.changed@[i].1),
    {
        let k = change_key_view(self.changed@[i].0);
        let j = choose|j: int| 0 <= j < self.changed@.len() && change_key_view(self.changed@[j].0) == k;
        if j != i {
            if j < i {
                assert(change_key_view(self.changed@[j].0) != change_key_view(self.changed@[i].0));
            } else {
                assert(change_key_view(self.changed@[i].0) != change_key_view(self.changed@[j].0));
            }
        }
    }

    /// Records a new value, or a removal, for a key.
    fn record(&mut self, k: &DatabaseKey, value: Option<Vec<u8>>)
        requires
            old(self).wf(),
        ensures
            final(self).wf(),
            final(self)@ == old(self)@.insert((kind_index(k), k.bytes_spec()), opt_bytes(value)),
    {
        let (kind, bytes) = to_changed_key(k);
        let ghost key = (kind, bytes@);
        match self.find(kind, bytes.as_slice()) {
            Some(i) => {
                let ghost old_changed = self.changed@;
                self.changed.set(i, ((kind, bytes), value));
                assert(change_key_view(self.changed@[i as int].0) == key);
                proof {
                    assert forall|a: int, b: int|
                        0 <= a < b < self.changed@.len() implies change_key_view(#[trigger] self.changed@[a].0)
                            != change_key_view(#[trigger] self.changed@[b].0) by {
                        assert(change_key_view(old_changed[a].0) != change_key_view(old_changed[b].0));
                    }
                    assert forall|kk: (usize, Seq<u8>)| #[trigger] self@.contains_key(kk) <==> old(self)@.insert(key, opt_bytes(value)).contains_key(kk) by {
                        if kk == key {
                            self.lemma_view_at(i as int);
                        } else {
                            if old(self)@.contains_key(kk) {
                                let j = choose|j: int| 0 <= j < old_changed.len() && change_key_view(old_changed[j].0) == kk;
                                assert(change_key_view(self.changed@[j].0) == kk);
                            }
                            if self@.contains_key(kk) {
                                let j = choose|j: int| 0 <= j < self.changed@.len() && change_key_view(self.changed@[j].0) == kk;
                                assert(change_key_view(old_changed[j].0) == kk);
                            }
                        }
                    }
                    assert forall|kk: (usize, Seq<u8>)| #[trigger] self@.contains_key(kk) implies self@[kk] == old(self)@.insert(key, opt_bytes(value))[kk] by {
                        let j = choose|j: int| 0 <= j < self.changed@.len() && change_key_view(self.changed@[j].0) == kk;
                        self.lemma_view_at(j);
                        if kk != key {
                            assert(j != i);
                            old(self).lemma_view_at(j);
                        } else {
                            self.lemma_view_at(i as int);
                        }
                    }
                    assert(self@ =~= old(self)@.insert(key, opt_bytes(value)));
                }
            },
            None => {
                let ghost old_changed = self.changed@;
                self.changed.push(((kind, bytes), value));
                proof {
                    let n = old_changed.len() as int;
                    assert forall|a: int, b: int|
                        0 <= a < b < self.changed@.len() implies change_key_view(#[trigger] self.changed@[a].0)
                            != change_key_view(#[trigger] self.changed@[b].0) by {
                        if b == n {
                            if change_key_view(old_changed[a].0) == key {
                                assert(old(self)@.contains_key(key));
                            }
                        } else {
                            assert(change_key_view(old_changed[a].0) != change_key_view(old_changed[b].0));
                        }
                    }
                    assert forall|kk: (usize, Seq<u8>)| #[trigger] self@.contains_key(kk) <==> old(self)@.insert(key, opt_bytes(value)).contains_key(kk) by {
                        if kk == key {
                            self.lemma_view_at(n);
                        } else {
                            if old(self)@.contains_key(kk) {
                                let j = choose|j: int| 0 <= j < old_changed.len() && change_key_view(old_changed[j].0) == kk;
                                assert(change_key_view(self.changed@[j].0) == kk);
                            }
                            if self@.contains_key(kk) {
                                let j = choose|j: int| 0 <= j < self.changed@.len() && change_key_view(self.changed@[j].0) == kk;
                                assert(change_key_view(old_changed[j].0) == kk);
                            }
                        }
                    }
                    assert forall|kk: (usize, Seq<u8>)| #[trigger] self@.contains_key(kk) implies self@[kk] == old(self)@.insert(key, opt_bytes(value))[kk] by {
                        let j = choose|j: int| 0 <= j < self.changed@.len() && change_key_view(self.changed@[j].0) == kk;
                        self.lemma_view_at(j);
                        if kk != key {
                            assert(j != n);
                            old(self).lemma_view_at(j);
                        }
                    }
                    assert(self@ =~= old(self)@.insert(key, opt_bytes(value)));
                }
            },
        }
    }

    /// Records `value` under `k`; other readers never see it.
    pub fn insert(&mut self, k: &DatabaseKey, value: &[u8])
        requires
            old(self).wf(),
        ensures
            final(self).wf(),
            final(self)@ == old(self)@.insert((kind_index(k), k.bytes_spec()), Some(value@)),
    {
        self.record(k, Some(copy_bytes(value)));
    }

    /// Records that `k` is removed.
    pub fn remove(&mut self, k: &DatabaseKey)
        requires
            old(self).wf(),
        ensures
            final(self).wf(),
            final(self)@ == old(self)@.insert((kind_index(k), k.bytes_spec()), None::<Seq<u8>>),
    {
        self.record(k, None);
    }

    /// The value of `k` as this transaction sees it: its own change if it made one, else
    /// `stored`, the value in the snapshot.
    pub fn get(&self, k: &DatabaseKey, stored: Option<Vec<u8>>) -> (r: Option<Vec<u8>>)
        requires
            self.wf(),
        ensures
            self@.contains_key((kind_index(k), k.bytes_spec())) ==> opt_bytes(r) == self@[(
                kind_index(k),
                k.bytes_spec(),
            )],
            !self@.contains_key((kind_index(k), k.bytes_spec())) ==> r == stored,
    {
        let (kind, bytes) = to_changed_key(k);
        match self.find(kind, bytes.as_slice()) {
            Some(i) => {
                proof { self.lemma_view_at(i as int); }
                match &self.changed[i].1 {
                    Some(v) => Some(copy_bytes(v.as_slice())),
                    None => None,
                }
            },
            None => stored,
        }
    }
}

fn bytes_equal(a: &[u8], b: &[u8]) -> (r: bool)
    ensures
        r <==> a@ == b@,
{
    if a.len() != b.len() {
        return false;
    }
    let mut i: usize = 0;
    while i < a.len()
        invariant
            i <= a@.len() == b@.len(),
            forall|j: int| 0 <= j < i ==> a@[j] == b@[j],
        decreases a@.len() - i,
    {
        if a[i] != b[i] {
            return false;
        }
        i = i + 1;
    }
    assert(a@ =~= b@);
    true
}

} // verus!
