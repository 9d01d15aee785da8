//! The in-memory module store the VM resolves modules against.
//!
//! The store maps a module's self-id — its address and declared name — to
//! the module's serialised bytes, which is the form the VM requests modules
//! in.  Self-ids are unique: inserting a module under an id already present
//! replaces the prior bytes.  The store answers three kinds of question:
//! linkage resolution is the identity (no address remapping), module
//! resolution returns the stored bytes or nothing, and resource resolution
//! always returns nothing — the harness is stateless with respect to
//! on-chain resources.

use vstd::prelude::*;

verus! {

/// A module's self-id: its 32-byte account address and its declared name.
#[derive(Debug, PartialEq, Eq)]
pub struct ModuleKey {
    /// The raw bytes of the module's account address.
    pub address: Vec<u8>,
    /// The module's declared name.
    pub name: String,
}

impl ModuleKey {
    /// The id as a mathematical pair.
    pub open spec fn key_view(&self) -> (Seq<u8>, Seq<char>) {
        (self.address@, self.name@)
    }

    /// Whether two ids are the same address and name.
    pub fn key_eq(&self, other: &ModuleKey) -> (r: bool)
        ensures
            r <==> self.key_view() == other.key_view(),
    {
        bytes_eq(&self.address, &other.address) && self.name == other.name
    }
}

/// Whether two byte vectors hold the same bytes.
pub fn bytes_eq(a: &Vec<u8>, b: &Vec<u8>) -> (r: bool)
    ensures
        r <==> a@ == b@,
{
    if a.len() != b.len() {
        return false;
    }
    let mut i: usize = 0;
    while i < a.len()
        invariant
            a@.len() == b@.len(),
            i <= a@.len(),
            forall|j: int| 0 <= j < i ==> a@[j] == b@[j],
        decreases a@.len() - i,
    {
        if a[i] != b[i] {
            return false;
        }
        i = i + 1;
    }
    proof {
        assert(a@ =~= b@);
    }
    true
}

/// The index of the first entry whose id is `k`.
pub open spec fn key_index(es: Seq<(ModuleKey, Vec<u8>)>, k: (Seq<u8>, Seq<char>)) -> Option<int>
    decreases es,
{
    if es.len() == 0 {
        Option::None
    } else if es[0].0.key_view() == k {
        Option::Some(0int)
    } else {
        match key_index(es.subrange(1, es.len() as int), k) {
            Option::Some(i) => Option::Some(i + 1),
            Option::None => Option::None,
        }
    }
}

/// The mapping an entry list holds: each id present maps to the bytes of
/// its first entry.
pub open spec fn entries_map(es: Seq<(ModuleKey, Vec<u8>)>) -> Map<
    (Seq<u8>, Seq<char>),
    Seq<u8>,
> {
    Map::new(
        |k: (Seq<u8>, Seq<char>)| key_index(es, k) is Some,
        |k: (Seq<u8>, Seq<char>)|
            match key_index(es, k) {
                Option::Some(i) => es[i].1@,
                Option::None => Seq::empty(),
            },
    )
}

/// If the first `i` ids miss and the id at `i` hits, `i` is the first
/// match.
proof fn lemma_key_index_found(es: Seq<(ModuleKey, Vec<u8>)>, k: (Seq<u8>, Seq<char>), i: int)
    requires
        0 <= i < es.len(),
        es[i].0.key_view() == k,
        forall|j: int| 0 <= j < i ==> (#[trigger] es[j].0.key_view()) != k,
    ensures
        key_index(es, k) == Option::Some(i),
    decreases i,
{
    if i > 0 {
        let tail = es.subrange(1, es.len() as int);
        assert(tail[i - 1] == es[i]);
        assert forall|j: int| 0 <= j < i - 1 implies (#[trigger] tail[j].0.key_view()) != k by {
            assert(tail[j] == es[j + 1]);
        }
        lemma_key_index_found(tail, k, i - 1);
    }
}

/// If every id misses, there is no match.
proof fn lemma_key_index_none(es: Seq<(ModuleKey, Vec<u8>)>, k: (Seq<u8>, Seq<char>))
    requires
        forall|j: int| 0 <= j < es.len() ==> (#[trigger] es[j].0.key_view()) != k,
    ensures
        key_index(es, k) is None,
    decreases es.len(),
{
    if es.len() > 0 {
        let tail = es.subrange(1, es.len() as int);
        assert forall|j: int| 0 <= j < tail.len() implies (#[trigger] tail[j].0.key_view())
            != k by {
            assert(tail[j] == es[j + 1]);
        }
        lemma_key_index_none(tail, k);
    }
}

/// A first match always lies in range, hits, and nothing before it hits;
/// no match means every id misses.
proof fn lemma_key_index_inverts(es: Seq<(ModuleKey, Vec<u8>)>, k: (Seq<u8>, Seq<char>))
    ensures
        key_index(es, k) matches Some(i) ==> 0 <= i < es.len() && es[i].0.key_view() == k
            && forall|j: int| 0 <= j < i ==> (#[trigger] es[j].0.key_view()) != k,
        key_index(es, k) is None ==> forall|j: int|
            0 <= j < es.len() ==> (#[trigger] es[j].0.key_view()) != k,
    decreases es.len(),
{
    if es.len() > 0 {
        let tail = es.subrange(1, es.len() as int);
        lemma_key_index_inverts(tail, k);
        if es[0].0.key_view() != k {
            match key_index(tail, k) {
                Option::Some(i) => {
                    assert forall|j: int| 0 <= j < i + 1 implies (#[trigger] es[j].0.key_view())
                        != k by {
                        if j > 0 {
                            assert(es[j] == tail[j - 1]);
                        }
                    }
                    assert(es[i + 1] == tail[i]);
                },
                Option::None => {
                    assert forall|j: int| 0 <= j < es.len() implies (#[trigger] es[j].0.key_view())
                        != k by {
                        if j > 0 {
                            assert(es[j] == tail[j - 1]);
                        }
                    }
                },
            }
        }
    }
}

/// Two entry lists whose ids agree pointwise have matches at the same
/// indices.
proof fn lemma_key_index_same_keys(
    es1: Seq<(ModuleKey, Vec<u8>)>,
    es2: Seq<(ModuleKey, Vec<u8>)>,
    k: (Seq<u8>, Seq<char>),
)
    requires
        es1.len() == es2.len(),
        forall|j: int| 0 <= j < es1.len() ==> (#[trigger] es1[j].0.key_view())
            == es2[j].0.key_view(),
    ensures
        key_index(es1, k) == key_index(es2, k),
    decreases es1.len(),
{
    if es1.len() > 0 {
        let t1 = es1.subrange(1, es1.len() as int);
        let t2 = es2.subrange(1, es2.len() as int);
        assert forall|j: int| 0 <= j < t1.len() implies (#[trigger] t1[j].0.key_view())
            == t2[j].0.key_view() by {
            assert(t1[j] == es1[j + 1]);
            assert(t2[j] == es2[j + 1]);
        }
        lemma_key_index_same_keys(t1, t2, k);
    }
}

/// The in-memory store: serialised modules by self-id, the root module
/// first.
#[derive(Debug)]
pub struct ModuleStore {
    /// The stored modules: each entry an id and the module's bytes.
    pub entries: Vec<(ModuleKey, Vec<u8>)>,
}

impl ModuleStore {
    /// Ids are unique: no two entries share one.
    pub open spec fn wf(&self) -> bool {
        forall|i: int, j: int|
            0 <= i < j < self.entries@.len() ==> (#[trigger] self.entries@[i].0.key_view())
                != (#[trigger] self.entries@[j].0.key_view())
    }

    /// The mapping the store holds, from self-id to module bytes.
    pub open spec fn view_map(&self) -> Map<(Seq<u8>, Seq<char>), Seq<u8>> {
        entries_map(self.entries@)
    }

    /// A store holding one module, the root.
    pub fn new(root_key: ModuleKey, root_bytes: Vec<u8>) -> (s: Self)
        ensures
            s.wf(),
            s.view_map() =~= Map::<(Seq<u8>, Seq<char>), Seq<u8>>::empty().insert(
                root_key.key_view(),
                root_bytes@,
            ),
    {
        let ghost kv = root_key.key_view();
        let ghost bv = root_bytes@;
        let mut entries: Vec<(ModuleKey, Vec<u8>)> = Vec::new();
        entries.push((root_key, root_bytes));
        let s = ModuleStore { entries };
        proof {
            assert forall|k: (Seq<u8>, Seq<char>)|
                true implies #[trigger] s.view_map().contains_key(k) == (k == kv) by {
                if k == kv {
                    lemma_key_index_found(s.entries@, k, 0);
                } else {
                    lemma_key_index_none(s.entries@, k);
                }
            }
            lemma_key_index_found(s.entries@, kv, 0);
        }
        s
    }

    /// Insert a module: an id already present has its bytes replaced, a new
    /// id is appended.
    pub fn insert(&mut self, key: ModuleKey, bytes: Vec<u8>)
        requires
            old(self).wf(),
        ensures
            final(self).wf(),
            final(self).view_map() =~= old(self).view_map().insert(key.key_view(), bytes@),
    {
        let ghost kv = key.key_view();
        let ghost bv = bytes@;
        let ghost es0 = self.entries@;
        let mut i: usize = 0;
        while i < self.entries.len()
            invariant
                es0 == old(self).entries@,
                old(self).wf(),
                self.entries@ == es0,
                key.key_view() == kv,
                bytes@ == bv,
                i <= es0.len(),
                forall|j: int| 0 <= j < i ==> (#[trigger] es0[j].0.key_view()) != kv,
            decreases es0.len() - i,
        {
            let hit = self.entries[i].0.key_eq(&key);
            if hit {
                proof {
                    lemma_key_index_found(es0, kv, i as int);
                }
                self.entries.set(i, (key, bytes));
                proof {
                    let es1 = self.entries@;
                    assert forall|j: int| 0 <= j < es1.len() implies (#[trigger] es1[j].0.key_view())
                        == es0[j].0.key_view() by {}
                    assert forall|a: int, b: int|
                        0 <= a < b < es1.len() implies (#[trigger] es1[a].0.key_view())
                        != (#[trigger] es1[b].0.key_view()) by {
                        assert(es0[a].0.key_view() != es0[b].0.key_view());
                    }
                    assert forall|k: (Seq<u8>, Seq<char>)| true implies key_index(es1, k)
                        == key_index(es0, k) by {
                        lemma_key_index_same_keys(es1, es0, k);
                    }
                    assert forall|k: (Seq<u8>, Seq<char>)|
                        self.view_map().contains_key(k) implies self.view_map()[k] == old(
                        self,
                    ).view_map().insert(kv, bv)[k] by {
                        lemma_key_index_inverts(es0, k);
                        lemma_key_index_inverts(es1, k);
                        if k != kv {
                            match key_index(es1, k) {
                                Option::Some(n) => {
                                    assert(es1[n] == es0[n]);
                                },
                                Option::None => {},
                            }
                        }
                    }
                }
                return ;
            }
            i = i + 1;
        }
        proof {
            lemma_key_index_none(es0, kv);
        }
        self.entries.push((key, bytes));
        proof {
            let es1 = self.entries@;
            assert forall|a: int, b: int|
                0 <= a < b < es1.len() implies (#[trigger] es1[a].0.key_view())
                != (#[trigger] es1[b].0.key_view()) by {
                if b < es0.len() {
                    assert(es1[a] == es0[a] && es1[b] == es0[b]);
                } else {
                    assert(es1[b].0.key_view() == kv);
                    assert(es1[a] == es0[a]);
                }
            }
            assert forall|k: (Seq<u8>, Seq<char>)|
                true implies #[trigger] self.view_map().contains_key(k) == old(
                self,
            ).view_map().insert(kv, bv).contains_key(k) && (self.view_map().contains_key(k)
                ==> self.view_map()[k] == old(self).view_map().insert(kv, bv)[k]) by {
                lemma_key_index_inverts(es0, k);
                lemma_key_index_inverts(es1, k);
                if k == kv {
                    lemma_key_index_found(es1, kv, es0.len() as int);
                } else {
                    match key_index(es0, k) {
                        Option::Some(n) => {
                            assert(es1[n] == es0[n]);
                            assert forall|j: int| 0 <= j < n implies (
                            #[trigger] es1[j].0.key_view()) != k by {
                                assert(es1[j] == es0[j]);
                            }
                            lemma_key_index_found(es1, k, n);
                        },
                        Option::None => {
                            assert forall|j: int| 0 <= j < es1.len() implies (
                            #[trigger] es1[j].0.key_view()) != k by {
                                if j < es0.len() {
                                    assert(es1[j] == es0[j]);
                                } else {
                                    assert(es1[j].0.key_view() == kv);
                                }
                            }
                            lemma_key_index_none(es1, k);
                        },
                    }
                }
            }
            assert(self.view_map() =~= old(self).view_map().insert(kv, bv));
        }
    }

    /// Insert each dependency in order.
    pub fn add_dependencies(&mut self, deps: Vec<(ModuleKey, Vec<u8>)>)
        requires
            old(self).wf(),
        ensures
            final(self).wf(),
            final(self).view_map() =~= insert_all(old(self).view_map(), deps@),
    {
        let ghost deps0 = deps@;
        let mut rest = deps;
        while rest.len() > 0
            invariant
                self.wf(),
                insert_all(old(self).view_map(), deps0) =~= insert_all(self.view_map(), rest@),
            decreases rest@.len(),
        {
            let ghost restg = rest@;
            let ghost before = self.view_map();
            let (k, b) = rest.remove(0);
            let ghost kv = k.key_view();
            let ghost bv = b@;
            self.insert(k, b);
            proof {
                assert(restg[0].0.key_view() == kv && restg[0].1@ == bv);
                assert(rest@ =~= restg.subrange(1, restg.len() as int));
                assert(insert_all(before, restg) == insert_all(
                    before.insert(kv, bv),
                    restg.subrange(1, restg.len() as int),
                ));
                assert(self.view_map() == before.insert(kv, bv));
            }
        }
    }

    /// The bytes stored under an id, if any: module resolution.
    pub fn get_module(&self, key: &ModuleKey) -> (r: Option<&Vec<u8>>)
        ensures
            r is Some <==> self.view_map().contains_key(key.key_view()),
            (r matches Some(b) ==> b@ == self.view_map()[key.key_view()]),
    {
        let ghost kv = key.key_view();
        let mut i: usize = 0;
        while i < self.entries.len()
            invariant
                kv == key.key_view(),
                i <= self.entries@.len(),
                forall|j: int| 0 <= j < i ==> (#[trigger] self.entries@[j].0.key_view()) != kv,
            decreases self.entries@.len() - i,
        {
            let hit = self.entries[i].0.key_eq(key);
            if hit {
                proof {
                    lemma_key_index_found(self.entries@, kv, i as int);
                }
                return Some(&self.entries[i].1);
            }
            i = i + 1;
        }
        proof {
            lemma_key_index_none(self.entries@, kv);
        }
        None
    }

    /// Resource resolution: the harness holds no on-chain resources, so
    /// every resource lookup is absent.
    pub fn get_resource(&self, _address: &Vec<u8>, _tag: &String) -> (r: Option<Vec<u8>>)
        ensures
            r is None,
    {
        None
    }
}

/// The mapping after inserting each entry of a list, in order.
pub open spec fn insert_all(
    m: Map<(Seq<u8>, Seq<char>), Seq<u8>>,
    es: Seq<(ModuleKey, Vec<u8>)>,
) -> Map<(Seq<u8>, Seq<char>), Seq<u8>>
    decreases es.len(),
{
    if es.len() == 0 {
        m
    } else {
        insert_all(m.insert(es[0].0.key_view(), es[0].1@), es.subrange(1, es.len() as int))
    }
}

/// Inserting the same module twice yields the same store mapping as
/// inserting it once.
pub proof fn lemma_insert_idempotent(
    m: Map<(Seq<u8>, Seq<char>), Seq<u8>>,
    k: (Seq<u8>, Seq<char>),
    v: Seq<u8>,
)
    ensures
        m.insert(k, v).insert(k, v) =~= m.insert(k, v),
{
}

} // verus!
