use vstd::prelude::*;

verus! {

/// A value that can hand out a copy of itself with the same view.
pub trait Snapshot: Sized + View {
    fn snapshot(&self) -> (r: Self)
        ensures
            r@ == self@,
    ;
}

impl Snapshot for String {
    fn snapshot(&self) -> (r: Self) {
        self.clone()
    }
}

/// A key with a mathematical view, equality and copies.
pub trait StoreKey: Sized {
    type KV;

    spec fn kview(&self) -> Self::KV;

    fn key_eq(&self, other: &Self) -> (r: bool)
        ensures
            r == (self.kview() == other.kview()),
    ;

    fn key_copy(&self) -> (r: Self)
        ensures
            r.kview() == self.kview(),
    ;
}

/// A test on keys, such as "belongs to this session".
pub trait KeySelector<K: StoreKey> {
    spec fn selects(&self, k: K::KV) -> bool;

    fn select(&self, k: &K) -> (r: bool)
        ensures
            r == self.selects(k.kview()),
    ;
}

/// A key made of two names, such as a session and an object in it.
pub type KeyView = (Seq<char>, Seq<char>);

impl StoreKey for (String, String) {
    type KV = KeyView;

    open spec fn kview(&self) -> KeyView {
        (self.0@, self.1@)
    }

    fn key_eq(&self, other: &Self) -> (r: bool) {
        self.0 == other.0 && self.1 == other.1
    }

    fn key_copy(&self) -> (r: Self) {
        (self.0.clone(), self.1.clone())
    }
}

impl StoreKey for String {
    type KV = Seq<char>;

    open spec fn kview(&self) -> Seq<char> {
        self@
    }

    fn key_eq(&self, other: &Self) -> (r: bool) {
        *self == *other
    }

    fn key_copy(&self) -> (r: Self) {
        self.clone()
    }
}

/// Selects the pair keys whose first name is the given one.
pub struct FirstIs(pub String);

impl KeySelector<(String, String)> for FirstIs {
    open spec fn selects(&self, k: KeyView) -> bool {
        k.0 == self.0@
    }

    fn select(&self, k: &(String, String)) -> (r: bool) {
        k.0 == self.0
    }
}

pub open spec fn entry_key<K: StoreKey, V>(e: (K, V)) -> K::KV {
    e.0.kview()
}

/// The map that a list of entries describes; a later entry for a key wins.
pub open spec fn entries_map<K: StoreKey, V: View>(es: Seq<(K, V)>) -> Map<K::KV, V::V>
    decreases es.len(),
{
    if es.len() == 0 {
        Map::empty()
    } else {
        entries_map(es.drop_last()).insert(entry_key(es.last()), es.last().1@)
    }
}

pub open spec fn keys_unique<K: StoreKey, V>(es: Seq<(K, V)>) -> bool {
    forall|i: int, j: int|
        0 <= i < es.len() && 0 <= j < es.len() && i != j ==> entry_key(#[trigger] es[i])
            != entry_key(#[trigger] es[j])
}

/// Which keys a list of entries holds, and the value of each when keys are unique.
pub proof fn lemma_entries_map<K: StoreKey, V: View>(es: Seq<(K, V)>)
    ensures
        forall|k: K::KV|
            #[trigger] entries_map(es).dom().contains(k) <==> exists|i: int|
                0 <= i < es.len() && entry_key(#[trigger] es[i]) == k,
        keys_unique(es) ==> forall|i: int|
            0 <= i < es.len() ==> #[trigger] entries_map(es)[entry_key(es[i])] == es[i].1@,
    decreases es.len(),
{
    if es.len() > 0 {
        let p = es.drop_last();
        lemma_entries_map(p);
        let last = entry_key(es.last());
        assert(entries_map(es) == entries_map(p).insert(last, es.last().1@));
        assert forall|k: K::KV| #[trigger]
            entries_map(es).dom().contains(k) <==> exists|i: int|
                0 <= i < es.len() && entry_key(#[trigger] es[i]) == k by {
            if entries_map(es).dom().contains(k) {
                if k == last {
                    assert(entry_key(es[es.len() - 1]) == k);
                } else {
                    assert(entries_map(p).dom().contains(k));
                    let i = choose|i: int| 0 <= i < p.len() && entry_key(#[trigger] p[i]) == k;
                    assert(es[i] == p[i]);
                }
            }
            if exists|i: int| 0 <= i < es.len() && entry_key(#[trigger] es[i]) == k {
                let i = choose|i: int| 0 <= i < es.len() && entry_key(#[trigger] es[i]) == k;
                if i < es.len() - 1 {
                    assert(p[i] == es[i]);
                    assert(entries_map(p).dom().contains(k));
                }
            }
        }
        if keys_unique(es) {
            assert(keys_unique(p)) by {
                assert forall|i: int, j: int|
                    0 <= i < p.len() && 0 <= j < p.len() && i != j implies entry_key(
                    #[trigger] p[i],
                ) != entry_key(#[trigger] p[j]) by {
                    assert(p[i] == es[i] && p[j] == es[j]);
                }
            }
            assert forall|i: int| 0 <= i < es.len() implies #[trigger] entries_map(
                es,
            )[entry_key(es[i])] == es[i].1@ by {
                if i < es.len() - 1 {
                    assert(p[i] == es[i]);
                    assert(entry_key(es[i]) != entry_key(es[es.len() - 1]));
                }
            }
        }
    }
}

/// Entries under keys, each key at most once.
///
/// The stores of this library are keyed by text. vstd specifies
/// `std::collections::HashMap` only for key types that obey its hash-table key
/// model (`vstd::std_specs::hash::obeys_key_model`), which it grants to the
/// primitive types alone; for `String` keys that would have to be assumed, so
/// a map's contents are kept here in a vector whose invariant is proved.
pub struct KeyedStore<K, V> {
    entries: Vec<(K, V)>,
}

impl<K: StoreKey, V: View> View for KeyedStore<K, V> {
    type V = Map<K::KV, V::V>;

    closed spec fn view(&self) -> Map<K::KV, V::V> {
        entries_map(self.entries@)
    }
}

impl<K: StoreKey, V: Snapshot> KeyedStore<K, V> {
    pub closed spec fn wf(&self) -> bool {
        keys_unique(self.entries@)
    }

    /// An empty store.
    pub fn new() -> (r: Self)
        ensures
            r.wf(),
            r@ == Map::<K::KV, V::V>::empty(),
    {
        KeyedStore { entries: Vec::new() }
    }

    /// The number of keys.
    pub fn len(&self) -> (n: usize)
        requires
            self.wf(),
        ensures
            n == self@.dom().len(),
    {
        proof {
            self.lemma_dom_len();
        }
        self.entries.len()
    }

    proof fn lemma_dom_len(&self)
        requires
            self.wf(),
        ensures
            self@.dom().len() == self.entries@.len(),
            self@.dom().finite(),
    {
        lemma_unique_map_len(self.entries@);
    }

    fn find(&self, key: &K) -> (r: Option<usize>)
        requires
            self.wf(),
        ensures
            r is Some <==> self@.dom().contains(key.kview()),
            r matches Some(i) ==> i < self.entries@.len() && entry_key(self.entries@[i as int])
                == key.kview(),
    {
        let mut i: usize = 0;
        while i < self.entries.len()
            invariant
                i <= self.entries.len(),
                forall|j: int|
                    0 <= j < i ==> entry_key(#[trigger] self.entries@[j]) != key.kview(),
            decreases self.entries.len() - i,
        {
            if self.entries[i].0.key_eq(key) {
                proof {
                    lemma_entries_map(self.entries@);
                    assert(self@.dom().contains(entry_key(self.entries@[i as int])));
                }
                return Some(i);
            }
            i = i + 1;
        }
        proof {
            lemma_entries_map(self.entries@);
        }
        None
    }

    /// The value stored under `key`.
    pub fn get(&self, key: &K) -> (r: Option<&V>)
        requires
            self.wf(),
        ensures
            r is Some <==> self@.dom().contains(key.kview()),
            r matches Some(v) ==> v@ == self@[key.kview()],
    {
        proof {
            lemma_entries_map(self.entries@);
        }
        match self.find(key) {
            Some(i) => Some(&self.entries[i].1),
            None => None,
        }
    }

    /// Whether some key is selected by `sel`.
    pub fn any_selected<S: KeySelector<K>>(&self, sel: &S) -> (r: bool)
        requires
            self.wf(),
        ensures
            r == exists|k: K::KV| #[trigger] self@.dom().contains(k) && sel.selects(k),
    {
        let mut i: usize = 0;
        while i < self.entries.len()
            invariant
                i <= self.entries.len(),
                forall|j: int| 0 <= j < i ==> !sel.selects(entry_key(#[trigger] self.entries@[j])),
            decreases self.entries.len() - i,
        {
            if sel.select(&self.entries[i].0) {
                proof {
                    lemma_entries_map(self.entries@);
                    let k = entry_key(self.entries@[i as int]);
                    assert(entries_map(self.entries@).dom().contains(k));
                    assert(self@.dom().contains(k) && sel.selects(k));
                }
                return true;
            }
            i = i + 1;
        }
        proof {
            lemma_entries_map(self.entries@);
            assert forall|k: K::KV| self@.dom().contains(k) implies !sel.selects(k) by {
                let j = choose|j: int|
                    0 <= j < self.entries@.len() && entry_key(#[trigger] self.entries@[j]) == k;
            }
        }
        false
    }

    /// The entries, each key once; a map of them is the store.
    pub fn into_entries(self) -> (r: Vec<(K, V)>)
        requires
            self.wf(),
        ensures
            keys_unique(r@),
            entries_map(r@) == self@,
    {
        self.entries
    }

    /// Stores `v` under `key`, replacing what was there.
    pub fn insert(&mut self, key: K, v: V)
        requires
            old(self).wf(),
        ensures
            final(self).wf(),
            final(self)@ == old(self)@.insert(key.kview(), v@),
    {
        let ghost kk = key.kview();
        let ghost vv = v@;
        match self.find(&key) {
            Some(i) => {
                let ghost es = self.entries@;
                self.entries.set(i, (key, v));
                proof {
                    let ns = self.entries@;
                    lemma_entries_map(es);
                    assert(keys_unique(ns)) by {
                        assert forall|x: int, y: int|
                            0 <= x < ns.len() && 0 <= y < ns.len() && x != y implies entry_key(
                            #[trigger] ns[x],
                        ) != entry_key(#[trigger] ns[y]) by {
                            if x != i && y != i {
                                assert(ns[x] == es[x] && ns[y] == es[y]);
                            } else if x == i {
                                assert(ns[y] == es[y]);
                            } else {
                                assert(ns[x] == es[x]);
                            }
                        }
                    }
                    lemma_entries_map(ns);
                    assert(entries_map(ns) =~= entries_map(es).insert(kk, vv)) by {
                        assert forall|k: K::KV| #[trigger]
                            entries_map(ns).dom().contains(k) <==> entries_map(es).insert(
                                kk,
                                vv,
                            ).dom().contains(k) by {
                            if entries_map(ns).dom().contains(k) {
                                let j = choose|j: int|
                                    0 <= j < ns.len() && entry_key(#[trigger] ns[j]) == k;
                                if j != i {
                                    assert(ns[j] == es[j]);
                                }
                            }
                            if entries_map(es).dom().contains(k) {
                                let j = choose|j: int|
                                    0 <= j < es.len() && entry_key(#[trigger] es[j]) == k;
                                if j != i {
                                    assert(ns[j] == es[j]);
                                } else {
                                    assert(entry_key(ns[j]) == k);
                                }
                            }
                            if k == kk {
                                assert(entry_key(ns[i as int]) == k);
                            }
                        }
                        assert forall|k: K::KV| #[trigger]
                            entries_map(ns).dom().contains(k) implies entries_map(ns)[k]
                            == entries_map(es).insert(kk, vv)[k] by {
                            let j = choose|j: int|
                                0 <= j < ns.len() && entry_key(#[trigger] ns[j]) == k;
                            assert(entries_map(ns)[entry_key(ns[j])] == ns[j].1@);
                            if j != i {
                                assert(ns[j] == es[j]);
                                assert(entries_map(es)[entry_key(es[j])] == es[j].1@);
                            }
                        }
                    }
                }
            },
            None => {
                let ghost es = self.entries@;
                self.entries.push((key, v));
                proof {
                    let ns = self.entries@;
                    lemma_entries_map(es);
                    assert(ns.drop_last() =~= es);
                    assert(keys_unique(ns)) by {
                        assert forall|x: int, y: int|
                            0 <= x < ns.len() && 0 <= y < ns.len() && x != y implies entry_key(
                            #[trigger] ns[x],
                        ) != entry_key(#[trigger] ns[y]) by {
                            if x < es.len() && y < es.len() {
                                assert(ns[x] == es[x] && ns[y] == es[y]);
                            } else if x < es.len() {
                                assert(ns[x] == es[x]);
                                assert(entries_map(es).dom().contains(entry_key(es[x])));
                            } else {
                                assert(ns[y] == es[y]);
                                assert(entries_map(es).dom().contains(entry_key(es[y])));
                            }
                        }
                    }
                }
            },
        }
    }

    /// Drops every key that `sel` selects.
    pub fn remove_selected<S: KeySelector<K>>(&mut self, sel: &S)
        requires
            old(self).wf(),
        ensures
            final(self).wf(),
            final(self)@ == old(self)@.restrict(old(self)@.dom().filter(|k: K::KV| !sel.selects(k))),
    {
        let ghost es = self.entries@;
        let mut kept: Vec<(K, V)> = Vec::new();
        let mut i: usize = 0;
        while i < self.entries.len()
            invariant
                self.entries@ == es,
                keys_unique(es),
                i <= es.len(),
                keys_unique(kept@),
                forall|j: int| 0 <= j < kept@.len() ==> !sel.selects(entry_key(#[trigger] kept@[j])),
                forall|j: int|
                    #![trigger kept@[j]]
                    0 <= j < kept@.len() ==> exists|x: int|
                        0 <= x < i && entry_key(#[trigger] es[x]) == entry_key(kept@[j]) && es[x].1@
                            == kept@[j].1@,
                forall|x: int|
                    0 <= x < i && !sel.selects(entry_key(#[trigger] es[x])) ==> exists|j: int|
                        0 <= j < kept@.len() && entry_key(#[trigger] kept@[j]) == entry_key(es[x]),
            decreases es.len() - i,
        {
            if !sel.select(&self.entries[i].0) {
                let k0 = self.entries[i].0.key_copy();
                let v0 = self.entries[i].1.snapshot();
                let ghost before = kept@;
                kept.push((k0, v0));
                proof {
                    let ns = kept@;
                    assert(ns.drop_last() =~= before);
                    assert(entry_key(ns.last()) == entry_key(es[i as int]));
                    assert(keys_unique(ns)) by {
                        assert forall|x: int, y: int|
                            0 <= x < ns.len() && 0 <= y < ns.len() && x != y implies entry_key(
                            #[trigger] ns[x],
                        ) != entry_key(#[trigger] ns[y]) by {
                            if x < before.len() && y < before.len() {
                                assert(ns[x] == before[x] && ns[y] == before[y]);
                            } else if x < before.len() {
                                assert(ns[x] == before[x]);
                                let w = choose|w: int|
                                    0 <= w < i && entry_key(#[trigger] es[w]) == entry_key(
                                        before[x],
                                    ) && es[w].1@ == before[x].1@;
                            } else {
                                assert(ns[y] == before[y]);
                                let w = choose|w: int|
                                    0 <= w < i && entry_key(#[trigger] es[w]) == entry_key(
                                        before[y],
                                    ) && es[w].1@ == before[y].1@;
                            }
                        }
                    }
                    assert forall|j: int| #![trigger ns[j]] 0 <= j < ns.len() implies exists|x: int|
                        0 <= x < i + 1 && entry_key(#[trigger] es[x]) == entry_key(ns[j])
                            && es[x].1@ == ns[j].1@ by {
                        if j < before.len() {
                            assert(ns[j] == before[j]);
                        } else {
                            assert(entry_key(es[i as int]) == entry_key(ns[j]));
                        }
                    }
                    assert forall|x: int|
                        0 <= x < i + 1 && !sel.selects(entry_key(#[trigger] es[x])) implies exists|
                        j: int,
                    | 0 <= j < ns.len() && entry_key(#[trigger] ns[j]) == entry_key(es[x]) by {
                        if x < i {
                            let j = choose|j: int|
                                0 <= j < before.len() && entry_key(#[trigger] before[j])
                                    == entry_key(es[x]);
                            assert(ns[j] == before[j]);
                        } else {
                            assert(entry_key(ns[ns.len() - 1]) == entry_key(es[x]));
                        }
                    }
                    assert forall|j: int| 0 <= j < ns.len() implies !sel.selects(
                        entry_key(#[trigger] ns[j]),
                    ) by {
                        if j < before.len() {
                            assert(ns[j] == before[j]);
                        }
                    }
                }
            }
            i = i + 1;
        }
        self.entries = kept;
        proof {
            let ns = self.entries@;
            lemma_entries_map(es);
            lemma_entries_map(ns);
            let target = entries_map(es).restrict(
                entries_map(es).dom().filter(|k: K::KV| !sel.selects(k)),
            );
            assert forall|k: K::KV| #[trigger]
                entries_map(ns).dom().contains(k) <==> target.dom().contains(k) by {
                if entries_map(ns).dom().contains(k) {
                    let j = choose|j: int| 0 <= j < ns.len() && entry_key(#[trigger] ns[j]) == k;
                    let x = choose|x: int|
                        0 <= x < es.len() && entry_key(#[trigger] es[x]) == entry_key(ns[j])
                            && es[x].1@ == ns[j].1@;
                    assert(entries_map(es).dom().contains(k));
                }
                if target.dom().contains(k) {
                    let x = choose|x: int| 0 <= x < es.len() && entry_key(#[trigger] es[x]) == k;
                }
            }
            assert forall|k: K::KV| #[trigger]
                entries_map(ns).dom().contains(k) implies entries_map(ns)[k] == target[k] by {
                let j = choose|j: int| 0 <= j < ns.len() && entry_key(#[trigger] ns[j]) == k;
                let x = choose|x: int|
                    0 <= x < es.len() && entry_key(#[trigger] es[x]) == entry_key(ns[j])
                        && es[x].1@ == ns[j].1@;
                assert(entries_map(ns)[entry_key(ns[j])] == ns[j].1@);
                assert(entries_map(es)[entry_key(es[x])] == es[x].1@);
            }
            assert(entries_map(ns) =~= target);
        }
    }

    /// A copy of every stored value, one per key.
    pub fn values(&self) -> (r: Vec<V>)
        requires
            self.wf(),
        ensures
            r.len() == self@.dom().len(),
            forall|i: int| 0 <= i < r.len() ==> #[trigger] self@.contains_value(r[i]@),
            forall|k: K::KV|
                self@.dom().contains(k) ==> exists|i: int| 0 <= i < r.len() && #[trigger] r[i]@ == self@[k],
    {
        proof {
            lemma_entries_map(self.entries@);
            self.lemma_dom_len();
        }
        let mut out: Vec<V> = Vec::new();
        let mut i: usize = 0;
        while i < self.entries.len()
            invariant
                i <= self.entries.len(),
                out.len() == i,
                forall|j: int| 0 <= j < i ==> #[trigger] out[j]@ == self.entries@[j].1@,
            decreases self.entries.len() - i,
        {
            out.push(self.entries[i].1.snapshot());
            i = i + 1;
        }
        proof {
            lemma_entries_map(self.entries@);
            self.lemma_dom_len();
            assert forall|j: int| 0 <= j < out.len() implies #[trigger] self@.contains_value(
                out[j]@,
            ) by {
                let k = entry_key(self.entries@[j]);
                assert(entries_map(self.entries@).dom().contains(k));
                assert(entries_map(self.entries@)[k] == self.entries@[j].1@);
            }
            assert forall|k: K::KV| self@.dom().contains(k) implies exists|j: int|
                0 <= j < out.len() && #[trigger] out[j]@ == self@[k] by {
                let j = choose|j: int|
                    0 <= j < self.entries@.len() && entry_key(#[trigger] self.entries@[j]) == k;
                assert(out[j]@ == self.entries@[j].1@);
            }
        }
        out
    }
}

/// With unique keys the map has exactly one key per entry.
proof fn lemma_unique_map_len<K: StoreKey, V: View>(es: Seq<(K, V)>)
    requires
        keys_unique(es),
    ensures
        entries_map(es).dom().finite(),
        entries_map(es).dom().len() == es.len(),
    decreases es.len(),
{
    if es.len() > 0 {
        let p = es.drop_last();
        assert(keys_unique(p)) by {
            assert forall|i: int, j: int|
                0 <= i < p.len() && 0 <= j < p.len() && i != j implies entry_key(#[trigger] p[i])
                != entry_key(#[trigger] p[j]) by {
                assert(p[i] == es[i] && p[j] == es[j]);
            }
        }
        lemma_unique_map_len(p);
        lemma_entries_map(p);
        let k = entry_key(es.last());
        if entries_map(p).dom().contains(k) {
            let i = choose|i: int| 0 <= i < p.len() && entry_key(#[trigger] p[i]) == k;
            assert(p[i] == es[i]);
            assert(entry_key(es[i]) != entry_key(es[es.len() - 1]));
        }
    }
}

} // verus!
