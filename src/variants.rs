//! The four lookups built together from one key set, the law that they agree,
//! and the differential check that runs them side by side.
use crate::hash::str_hash;
use crate::keyset::{
    first_index, hash_distinct, hashes_of, lemma_first_index, lemma_first_index_at, KeySet,
};
use crate::table::{LazyLookup, PhfLookup};
use vstd::prelude::*;

verus! {

/// Hash dispatch gives the same answer for `q` as the lookups that compare
/// strings (linear, perfect-hash and lazy all answer `first_index(keys, q)`).
pub open spec fn lookups_agree(keys: Seq<Seq<char>>, q: Seq<char>) -> bool {
    first_index(hashes_of(keys), str_hash(q)) == first_index(keys, q)
}

/// On a key set with distinct hashes, the i-th key is answered with `i` by
/// every lookup, and a string outside the set with `None`; by hash dispatch
/// only when its hash is not also a member's, since dispatch sees hashes alone.
pub proof fn lemma_lookups_correct(keys: Seq<Seq<char>>, q: Seq<char>)
    requires
        hash_distinct(keys),
        keys.len() <= usize::MAX,
    ensures
        forall|i: int|
            0 <= i < keys.len() && keys[i] == q ==> first_index(keys, q) == Some(i as usize)
                && first_index(hashes_of(keys), str_hash(q)) == Some(i as usize),
        !keys.contains(q) ==> first_index(keys, q) is None,
        !keys.contains(q) && !hashes_of(keys).contains(str_hash(q)) ==> first_index(
            hashes_of(keys),
            str_hash(q),
        ) is None,
        keys.contains(q) || !hashes_of(keys).contains(str_hash(q)) ==> lookups_agree(keys, q),
{
    let hs = hashes_of(keys);
    assert forall|i: int| 0 <= i < keys.len() && keys[i] == q implies first_index(keys, q) == Some(
        i as usize,
    ) && first_index(hs, str_hash(q)) == Some(i as usize) by {
        assert forall|j: int| 0 <= j < i implies keys[j] != q by {
            assert(str_hash(keys[j]) != str_hash(keys[i]));
        }
        lemma_first_index_at(keys, q, i as usize);
        assert forall|j: int| 0 <= j < i implies hs[j] != str_hash(q) by {
            assert(str_hash(keys[j]) != str_hash(keys[i]));
        }
        lemma_first_index_at(hs, str_hash(q), i as usize);
    }
    lemma_first_index(keys, q);
    lemma_first_index(hs, str_hash(q));
}

/// A query on which the lookups gave different answers.
#[derive(Debug, PartialEq, Eq)]
pub struct DifferentialMismatch {
    pub query: String,
}

/// The four lookups of one key set: linear comparison, hash dispatch, a
/// perfect-hash table, and a lazily built map.
pub struct Lookups {
    keys: KeySet,
    phf: PhfLookup,
    lazy: LazyLookup,
}

impl View for Lookups {
    type V = Seq<Seq<char>>;

    closed spec fn view(&self) -> Seq<Seq<char>> {
        self.keys@
    }
}

impl Lookups {
    /// All four are built from the same well-formed key set.
    pub closed spec fn wf(&self) -> bool {
        &&& self.keys.wf()
        &&& self.phf.wf()
        &&& self.lazy.wf()
        &&& self.phf@ == self.keys@
        &&& self.lazy@ == self.keys@
    }

    /// Builds the four lookups for `ks`.
    pub fn new(ks: KeySet) -> (r: Lookups)
        requires
            ks.wf(),
        ensures
            r.wf(),
            r@ == ks@,
            hash_distinct(r@),
    {
        let phf = PhfLookup::new(&ks);
        let lazy = LazyLookup::new(&ks);
        Lookups { keys: ks, phf, lazy }
    }

    /// The key set the lookups were built from.
    pub fn key_set(&self) -> (r: &KeySet)
        requires
            self.wf(),
        ensures
            r.wf(),
            r@ == self@,
    {
        &self.keys
    }

    /// Linear lookup.
    pub fn match_str(&self, s: &str) -> (r: Option<usize>)
        requires
            self.wf(),
        ensures
            r == first_index(self@, s@),
    {
        self.keys.match_str(s)
    }

    /// Hash-dispatch lookup.
    pub fn match_hash(&self, s: &str) -> (r: Option<usize>)
        requires
            self.wf(),
        ensures
            r == first_index(hashes_of(self@), str_hash(s@)),
    {
        self.keys.match_hash(s)
    }

    /// Perfect-hash lookup.
    pub fn lookup_phf(&self, s: &str) -> (r: Option<usize>)
        requires
            self.wf(),
        ensures
            r == first_index(self@, s@),
    {
        self.phf.lookup_phf(s)
    }

    /// Lazy-map lookup.
    pub fn lookup_lazy(&self, s: &str) -> (r: Option<usize>)
        requires
            self.wf(),
        ensures
            r == first_index(self@, s@),
    {
        self.lazy.lookup_lazy(s)
    }

    /// Runs all four lookups on `s` and tells whether they gave one answer.
    pub fn agree_on(&self, s: &str) -> (r: bool)
        requires
            self.wf(),
        ensures
            r == lookups_agree(self@, s@),
    {
        let a = self.match_str(s);
        let b = self.match_hash(s);
        let c = self.lookup_phf(s);
        let d = self.lookup_lazy(s);
        a == b && a == c && a == d
    }

    /// Differential check: every key and every probe gets one answer from all
    /// four lookups; otherwise the first query that did not is reported.
    pub fn check_agreement(&self, probes: &Vec<String>) -> (r: Result<(), DifferentialMismatch>)
        requires
            self.wf(),
        ensures
            r is Ok <==> (forall|i: int| 0 <= i < probes@.len() ==> lookups_agree(self@, probes@[i]@)),
            r matches Err(m) ==> !lookups_agree(self@, m.query@) && exists|i: int|
                0 <= i < probes@.len() && probes@[i]@ == m.query@,
    {
        let ks = self.key_set();
        let mut i: usize = 0;
        while i < ks.len()
            invariant
                self.wf(),
                ks@ == self@,
                ks.wf(),
                0 <= i <= ks@.len(),
            decreases ks@.len() - i,
        {
            let k = ks.key(i);
            proof {
                lemma_lookups_correct(self@, k@);
            }
            let ok = self.agree_on(k);
            assert(ok);
            i = i + 1;
        }
        let mut j: usize = 0;
        while j < probes.len()
            invariant
                self.wf(),
                0 <= j <= probes@.len(),
                forall|t: int| 0 <= t < j ==> lookups_agree(self@, probes@[t]@),
            decreases probes@.len() - j,
        {
            if !self.agree_on(probes[j].as_str()) {
                return Err(DifferentialMismatch { query: probes[j].clone() });
            }
            j = j + 1;
        }
        Ok(())
    }
}

} // verus!
