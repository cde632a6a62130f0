//! The two table-backed lookups: a perfect-hash table built once per key set,
//! and a foldhash map built on first use.
use crate::keyset::{first_index, hash_distinct, lemma_first_index, texts, KeySet};
use std::sync::OnceLock;
use vstd::prelude::*;

verus! {

/// What a table answers for `q`: its value there, if it holds one.
pub open spec fn map_lookup(m: Map<Seq<char>, usize>, q: Seq<char>) -> Option<usize> {
    if m.contains_key(q) {
        Some(m[q])
    } else {
        None
    }
}

/// Each key mapped to its first position among `keys`.
pub open spec fn position_map(keys: Seq<Seq<char>>) -> Map<Seq<char>, usize> {
    Map::new(|k: Seq<char>| keys.contains(k), |k: Seq<char>| first_index(keys, k).unwrap())
}

/// Adding a new key at the end adds it, at the last position, to the table.
proof fn lemma_position_map_push(keys: Seq<Seq<char>>, k: Seq<char>)
    requires
        !keys.contains(k),
        keys.len() < usize::MAX,
    ensures
        position_map(keys.push(k)) == position_map(keys).insert(k, keys.len() as usize),
{
    let ext = keys.push(k);
    assert forall|q: Seq<char>| #[trigger] ext.contains(q) && q != k implies first_index(ext, q)
        == first_index(keys, q) by {
        lemma_first_index(ext, q);
        let j = choose|j: int| 0 <= j < ext.len() && ext[j] == q;
        assert(keys[j] == q);
        lemma_first_index(keys, q);
        let i = first_index(keys, q).unwrap();
        assert(ext[i as int] == q);
        crate::keyset::lemma_first_index_at(ext, q, i);
    }
    assert(ext[keys.len() as int] == k);
    crate::keyset::lemma_first_index_at(ext, k, keys.len() as usize);
    assert forall|q: Seq<char>| ext.contains(q) <==> keys.contains(q) || q == k by {
        if keys.contains(q) {
            let j = choose|j: int| 0 <= j < keys.len() && keys[j] == q;
            assert(ext[j] == q);
        }
        if q == k {
            assert(ext[keys.len() as int] == k);
        }
    }
    assert(position_map(ext) =~= position_map(keys).insert(k, keys.len() as usize));
}

/// Keys with pairwise distinct hashes are themselves distinct.
pub proof fn lemma_hash_distinct_keys(keys: Seq<Seq<char>>)
    requires
        hash_distinct(keys),
    ensures
        keys.no_duplicates(),
{
}

#[verifier::external_type_specification]
#[verifier::external_body]
#[verifier::reject_recursive_types(K)]
#[verifier::reject_recursive_types(V)]
pub struct ExPhfMap<K: 'static, V: 'static>(phf::Map<K, V>);

/// The key-to-value table that a phf map answers lookups from.
pub uninterp spec fn phf_entries(m: phf::Map<&'static str, usize>) -> Map<Seq<char>, usize>;

/// Relies on phf_generator's `generate_hash`, which gives each of a list of
/// distinct keys a slot of its own (the layout that phf's `phf_map!` emits),
/// and on phf's `Map::get`, which finds a key in its slot. The keys, slots
/// and displacements are leaked to give them the `'static` lifetime that
/// `phf::Map` holds its tables with; a table is built once per key set.
#[verifier::external_body]
fn phf_build(keys: &Vec<String>) -> (m: phf::Map<&'static str, usize>)
    requires
        texts(keys@).no_duplicates(),
    ensures
        phf_entries(m) == position_map(texts(keys@)),
{
    let names: Vec<&'static str> = keys.iter().map(|k| &*Box::leak(k.clone().into_boxed_str())).collect();
    let state = phf_generator::generate_hash(&names);
    let entries: Vec<(&'static str, usize)> = state.map.iter().map(|&i| (names[i], i)).collect();
    phf::Map {
        key: state.key,
        disps: Box::leak(state.disps.into_boxed_slice()),
        entries: Box::leak(entries.into_boxed_slice()),
    }
}

/// Relies on phf's `Map::get`: the value stored for the key, if the table holds it.
#[verifier::external_body]
fn phf_get(m: &phf::Map<&'static str, usize>, s: &str) -> (r: Option<usize>)
    ensures
        r == map_lookup(phf_entries(*m), s@),
{
    m.get(s).copied()
}

/// Perfect-hash lookup: a table built once from a key set, answering each
/// query with one hash and one comparison.
pub struct PhfLookup {
    map: phf::Map<&'static str, usize>,
    keys: Ghost<Seq<Seq<char>>>,
}

impl View for PhfLookup {
    type V = Seq<Seq<char>>;

    closed spec fn view(&self) -> Seq<Seq<char>> {
        self.keys@
    }
}

impl PhfLookup {
    /// The table holds the position of each key.
    pub closed spec fn wf(&self) -> bool {
        phf_entries(self.map) == position_map(self.keys@)
    }

    /// Builds the table for the keys of `ks`.
    pub fn new(ks: &KeySet) -> (r: PhfLookup)
        requires
            ks.wf(),
        ensures
            r.wf(),
            r@ == ks@,
    {
        proof {
            lemma_hash_distinct_keys(ks@);
        }
        PhfLookup { map: phf_build(ks.keys()), keys: Ghost(ks@) }
    }

    /// The position of `s` among the keys, if it is one.
    pub fn lookup_phf(&self, s: &str) -> (r: Option<usize>)
        requires
            self.wf(),
        ensures
            r == first_index(self@, s@),
    {
        phf_get(&self.map, s)
    }
}

/// A foldhash map from key to position.
#[verifier::external_body]
pub struct FoldIndex {
    map: foldhash::HashMap<String, usize>,
}

/// The key-to-value table that a `FoldIndex` holds.
pub uninterp spec fn fold_entries(m: FoldIndex) -> Map<Seq<char>, usize>;

impl FoldIndex {
    /// Relies on foldhash's `HashMapExt::with_capacity`: a new map is empty.
    #[verifier::external_body]
    fn with_capacity(n: usize) -> (r: FoldIndex)
        ensures
            fold_entries(r).dom().is_empty(),
    {
        FoldIndex { map: <foldhash::HashMap<String, usize> as foldhash::HashMapExt>::with_capacity(n) }
    }

    /// Relies on `HashMap::get`: the value stored for the key, if the map holds it.
    #[verifier::external_body]
    fn get(&self, s: &str) -> (r: Option<usize>)
        ensures
            r == map_lookup(fold_entries(*self), s@),
    {
        self.map.get(s).copied()
    }
}

/// Relies on `HashMap::insert`: the key now maps to the value, the others are kept.
#[verifier::external_body]
fn fold_insert(m: &mut FoldIndex, k: String, v: usize)
    ensures
        fold_entries(*final(m)) == fold_entries(*old(m)).insert(k@, v),
{
    m.map.insert(k, v);
}

/// Fills a foldhash map with the position of each key.
pub fn build_fold_index(keys: &Vec<String>) -> (r: FoldIndex)
    requires
        texts(keys@).no_duplicates(),
    ensures
        fold_entries(r) == position_map(texts(keys@)),
{
    let ghost all = texts(keys@);
    let mut m = FoldIndex::with_capacity(keys.len());
    assert(fold_entries(m) =~= position_map(all.subrange(0, 0)));
    let mut i: usize = 0;
    while i < keys.len()
        invariant
            0 <= i <= keys.len(),
            all == texts(keys@),
            all.no_duplicates(),
            fold_entries(m) == position_map(all.subrange(0, i as int)),
        decreases keys.len() - i,
    {
        let ghost pre = all.subrange(0, i as int);
        proof {
            assert(all[i as int] == keys@[i as int]@);
            assert forall|j: int| 0 <= j < pre.len() implies pre[j] != all[i as int] by {
                assert(pre[j] == all[j]);
            }
            lemma_position_map_push(pre, all[i as int]);
            assert(all.subrange(0, i + 1) =~= pre.push(all[i as int]));
        }
        fold_insert(&mut m, keys[i].clone(), i);
        i = i + 1;
    }
    assert(all.subrange(0, i as int) =~= all);
    m
}

/// A foldhash map from key to position, built from the keys on the first
/// lookup and kept from then on.
#[verifier::external_body]
pub struct LazyIndex {
    keys: Vec<String>,
    cell: OnceLock<FoldIndex>,
}

/// The key-to-value table that a `LazyIndex` answers lookups from.
pub uninterp spec fn lazy_entries(t: LazyIndex) -> Map<Seq<char>, usize>;

impl LazyIndex {
    /// Relies on `OnceLock::new`: the cell starts empty, so the map that the
    /// lookups read is the one `build_fold_index` makes from `keys`.
    #[verifier::external_body]
    fn with_keys(keys: Vec<String>) -> (r: LazyIndex)
        requires
            texts(keys@).no_duplicates(),
        ensures
            lazy_entries(r) == position_map(texts(keys@)),
    {
        LazyIndex { keys, cell: OnceLock::new() }
    }

    /// Relies on `OnceLock::get_or_init`: the builder runs at most once, also
    /// under concurrent first calls, and every caller reads the finished map.
    #[verifier::external_body]
    fn get(&self, s: &str) -> (r: Option<usize>)
        ensures
            r == map_lookup(lazy_entries(*self), s@),
    {
        self.cell.get_or_init(|| build_fold_index(&self.keys)).get(s)
    }
}

/// Lazy lookup: a heap map of key to position, built on first use.
pub struct LazyLookup {
    index: LazyIndex,
    keys: Ghost<Seq<Seq<char>>>,
}

impl View for LazyLookup {
    type V = Seq<Seq<char>>;

    closed spec fn view(&self) -> Seq<Seq<char>> {
        self.keys@
    }
}

impl LazyLookup {
    /// The map, once built, holds the position of each key.
    pub closed spec fn wf(&self) -> bool {
        lazy_entries(self.index) == position_map(self.keys@)
    }

    /// Prepares the lookup for the keys of `ks`; nothing is built yet.
    pub fn new(ks: &KeySet) -> (r: LazyLookup)
        requires
            ks.wf(),
        ensures
            r.wf(),
            r@ == ks@,
    {
        proof {
            lemma_hash_distinct_keys(ks@);
        }
        LazyLookup { index: LazyIndex::with_keys(ks.keys().clone()), keys: Ghost(ks@) }
    }

    /// The position of `s` among the keys, if it is one.
    pub fn lookup_lazy(&self, s: &str) -> (r: Option<usize>)
        requires
            self.wf(),
        ensures
            r == first_index(self@, s@),
    {
        self.index.get(s)
    }
}

} // verus!
