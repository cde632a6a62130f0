//! Key sets: ordered, duplicate-free strings whose fixed-seed hashes are
//! pairwise distinct, with the two lookups that work on the set directly.
use crate::hash::{hash_str, str_hash};
use vstd::prelude::*;

verus! {

/// Relies on `str`'s `==`: true exactly when both hold the same characters.
#[verifier::external_body]
fn same_text(a: &str, b: &str) -> (r: bool)
    ensures
        r == (a@ == b@),
{
    a == b
}

/// The least position at which `x` occurs in `s`, or `None` when it does not occur.
pub open spec fn first_index<A>(s: Seq<A>, x: A) -> Option<usize> {
    if s.contains(x) {
        Some(
            choose|i: usize|
                i < s.len() && s[i as int] == x && forall|j: int| 0 <= j < i ==> s[j] != x,
        )
    } else {
        None
    }
}

/// A least position of `x` is the one `first_index` names.
pub proof fn lemma_first_index_at<A>(s: Seq<A>, x: A, i: usize)
    requires
        i < s.len(),
        s[i as int] == x,
        forall|j: int| 0 <= j < i ==> s[j] != x,
    ensures
        first_index(s, x) == Some(i),
{
    assert(s.contains(x));
    let k = choose|k: usize|
        k < s.len() && s[k as int] == x && forall|j: int| 0 <= j < k ==> s[j] != x;
    if k < i {
        assert(s[k as int] != x);
    } else if k > i {
        assert(s[i as int] != x);
    }
}

/// What `first_index` answers: a least position of `x`, or `None` exactly when
/// `x` does not occur.
pub proof fn lemma_first_index<A>(s: Seq<A>, x: A)
    requires
        s.len() <= usize::MAX,
    ensures
        match first_index(s, x) {
            Some(i) => i < s.len() && s[i as int] == x && forall|j: int|
                0 <= j < i ==> s[j] != x,
            None => !s.contains(x),
        },
{
    if s.contains(x) {
        let k = choose|k: int| 0 <= k < s.len() && s[k] == x;
        lemma_least_position(s, x, k);
    }
}

proof fn lemma_least_position<A>(s: Seq<A>, x: A, k: int)
    requires
        0 <= k < s.len(),
        s.len() <= usize::MAX,
        s[k] == x,
    ensures
        exists|i: usize| i < s.len() && s[i as int] == x && forall|j: int| 0 <= j < i ==> s[j] != x,
    decreases k,
{
    if exists|j: int| 0 <= j < k && s[j] == x {
        let j = choose|j: int| 0 <= j < k && s[j] == x;
        lemma_least_position(s, x, j);
    } else {
        assert(k as usize as int == k);
        let i = k as usize;
        assert(i < s.len() && s[i as int] == x && forall|j: int| 0 <= j < i ==> s[j] != x);
    }
}

/// The text of each string, in order.
pub open spec fn texts(v: Seq<String>) -> Seq<Seq<char>> {
    v.map_values(|k: String| k@)
}

/// The hash of each key, in key order.
pub open spec fn hashes_of(keys: Seq<Seq<char>>) -> Seq<u64> {
    keys.map_values(|k: Seq<char>| str_hash(k))
}

/// Keys are well formed together when their hashes are pairwise distinct, which
/// also makes the keys themselves distinct.
pub open spec fn hash_distinct(keys: Seq<Seq<char>>) -> bool {
    forall|i: int, j: int|
        0 <= i < keys.len() && 0 <= j < keys.len() && i != j ==> str_hash(keys[i]) != str_hash(
            keys[j],
        )
}

/// Position `i` is where the keys stop being hash-distinct: the keys before it
/// are, and key `i` hashes like one of them.
pub open spec fn clash_at(keys: Seq<Seq<char>>, i: int) -> bool {
    &&& 0 <= i < keys.len()
    &&& hash_distinct(keys.subrange(0, i))
    &&& hashes_of(keys.subrange(0, i)).contains(str_hash(keys[i]))
}

/// The error for a clash at `i`: a repeat of an earlier key, or a new key with
/// an earlier key's hash.
pub open spec fn clash_kind(keys: Seq<Seq<char>>, i: int) -> KeyError {
    if keys.subrange(0, i).contains(keys[i]) {
        KeyError::Duplicate
    } else {
        KeyError::HashCollision
    }
}

/// Why a key was not added to a key set.
#[derive(Clone, Copy, Debug, PartialEq, Eq)]
pub enum KeyError {
    /// The key is already a member.
    Duplicate,
    /// The key is new, but hashes to the same value as a member.
    HashCollision,
}

/// An ordered set of distinct keys with pairwise distinct hashes; a key's
/// position is its index.
pub struct KeySet {
    keys: Vec<String>,
    hashes: Vec<u64>,
}

impl View for KeySet {
    type V = Seq<Seq<char>>;

    closed spec fn view(&self) -> Seq<Seq<char>> {
        texts(self.keys@)
    }
}

impl KeySet {
    /// The stored hashes are those of the keys, and they are pairwise distinct.
    pub open spec fn wf(&self) -> bool {
        &&& self.hashes_stored()
        &&& hash_distinct(self@)
    }

    /// The stored hashes are those of the keys, in key order.
    pub closed spec fn hashes_stored(&self) -> bool {
        self.hashes@ == hashes_of(self@)
    }

    /// The empty key set.
    pub fn new() -> (r: KeySet)
        ensures
            r.wf(),
            r@ == Seq::<Seq<char>>::empty(),
    {
        let r = KeySet { keys: Vec::new(), hashes: Vec::new() };
        assert(r@ =~= Seq::<Seq<char>>::empty());
        assert(r.hashes@ =~= hashes_of(r@));
        r
    }

    /// Number of keys.
    pub fn len(&self) -> (r: usize)
        ensures
            r == self@.len(),
    {
        self.keys.len()
    }

    /// The key at position `i`.
    pub fn key(&self, i: usize) -> (r: &str)
        requires
            i < self@.len(),
        ensures
            r@ == self@[i as int],
    {
        self.keys[i].as_str()
    }

    /// The keys, in order.
    pub fn keys(&self) -> (r: &Vec<String>)
        ensures
            texts(r@) == self@,
    {
        &self.keys
    }

    /// The hash of each key, in key order.
    pub fn hashes(&self) -> (r: &Vec<u64>)
        requires
            self.wf(),
        ensures
            r@ == hashes_of(self@),
    {
        &self.hashes
    }

    /// Appends `key` at the next position, unless it is already a member or
    /// its hash equals a member's hash; the set is then left unchanged.
    pub fn try_push(&mut self, key: String) -> (r: Result<(), KeyError>)
        requires
            old(self).wf(),
        ensures
            final(self).wf(),
            old(self)@.contains(key@) ==> r == Err::<(), KeyError>(KeyError::Duplicate),
            !old(self)@.contains(key@) && hashes_of(old(self)@).contains(str_hash(key@)) ==> r
                == Err::<(), KeyError>(KeyError::HashCollision),
            !hashes_of(old(self)@).contains(str_hash(key@)) ==> r is Ok,
            r is Ok ==> final(self)@ == old(self)@.push(key@),
            r is Err ==> final(self)@ == old(self)@,
    {
        let h = hash_str(key.as_str());
        match self.match_hash_value(h) {
            None => {
                proof {
                    assert(!old(self)@.contains(key@)) by {
                        if old(self)@.contains(key@) {
                            let i = choose|i: int|
                                0 <= i < old(self)@.len() && old(self)@[i] == key@;
                            assert(hashes_of(old(self)@)[i] == h);
                        }
                    }
                }
                let ghost keys0 = self@;
                self.keys.push(key);
                self.hashes.push(h);
                assert(self@ =~= keys0.push(key@));
                assert(self.hashes@ =~= hashes_of(self@));
                assert(self.hashes_stored());
                assert(hash_distinct(self@));
                Ok(())
            },
            Some(i) => {
                assert(hashes_of(self@)[i as int] == h);
                assert(hashes_of(self@).contains(h));
                if same_text(self.keys[i].as_str(), key.as_str()) {
                    assert(self@[i as int] == key@);
                    Err(KeyError::Duplicate)
                } else {
                    proof {
                        if self@.contains(key@) {
                            let j = choose|j: int| 0 <= j < self@.len() && self@[j] == key@;
                            assert(hashes_of(self@)[j] == h);
                            assert(hashes_of(self@)[i as int] == h);
                            assert(j == i as int);
                        }
                    }
                    Err(KeyError::HashCollision)
                }
            },
        }
    }

    /// Builds a key set from keys in order; fails on the first key that
    /// repeats, or hash-collides with, an earlier one.
    pub fn from_keys(keys: Vec<String>) -> (r: Result<KeySet, KeyError>)
        ensures
            r is Ok <==> hash_distinct(texts(keys@)),
            match r {
                Ok(ks) => ks.wf() && ks@ == texts(keys@),
                Err(e) => exists|i: int|
                    #![trigger clash_at(texts(keys@), i)]
                    clash_at(texts(keys@), i) && e == clash_kind(
                        texts(keys@),
                        i,
                    ),
            },
    {
        let ghost all = texts(keys@);
        let mut ks = KeySet::new();
        let mut i: usize = 0;
        while i < keys.len()
            invariant
                0 <= i <= keys.len(),
                all == texts(keys@),
                ks.wf(),
                ks@ == all.subrange(0, i as int),
                hash_distinct(all.subrange(0, i as int)),
            decreases keys.len() - i,
        {
            let k = keys[i].clone();
            let ghost before = ks@;
            match ks.try_push(k) {
                Ok(()) => {},
                Err(e) => {
                    proof {
                        let h = str_hash(all[i as int]);
                        assert(hashes_of(before).contains(h));
                        let j = choose|j: int| 0 <= j < before.len() && hashes_of(before)[j] == h;
                        assert(all[j] == before[j]);
                        assert(!hash_distinct(all));
                        assert(all.subrange(0, i as int) == before);
                        assert(clash_at(all, i as int));
                        if before.contains(all[i as int]) {
                            assert(e == KeyError::Duplicate);
                        } else {
                            assert(e == KeyError::HashCollision);
                        }
                    }
                    return Err(e);
                },
            }
            i = i + 1;
            proof {
                assert(all.subrange(0, i as int) =~= before.push(all[i - 1]));
            }
        }
        assert(all.subrange(0, i as int) =~= all);
        Ok(ks)
    }

    /// Position of the first stored hash equal to `h`.
    fn match_hash_value(&self, h: u64) -> (r: Option<usize>)
        requires
            self.wf(),
        ensures
            r == first_index(hashes_of(self@), h),
            r matches Some(i) ==> i < self@.len() && str_hash(self@[i as int]) == h,
            r is None ==> forall|j: int| 0 <= j < self@.len() ==> str_hash(self@[j]) != h,
    {
        let mut i: usize = 0;
        while i < self.hashes.len()
            invariant
                self.wf(),
                0 <= i <= self.hashes@.len(),
                forall|j: int| 0 <= j < i ==> self.hashes@[j] != h,
                self@.len() == self.hashes@.len(),
            decreases self.hashes.len() - i,
        {
            if self.hashes[i] == h {
                proof {
                    lemma_first_index_at(hashes_of(self@), h, i);
                }
                return Some(i);
            }
            i = i + 1;
        }
        assert(!hashes_of(self@).contains(h));
        assert forall|j: int| 0 <= j < self@.len() implies str_hash(self@[j]) != h by {
            assert(self.hashes@[j] == hashes_of(self@)[j]);
        }
        None
    }

    /// Linear lookup: compares `s` with each key in order and answers the
    /// position of the first equal one.
    pub fn match_str(&self, s: &str) -> (r: Option<usize>)
        ensures
            r == first_index(self@, s@),
    {
        let mut i: usize = 0;
        while i < self.keys.len()
            invariant
                0 <= i <= self.keys@.len(),
                forall|j: int| 0 <= j < i ==> self@[j] != s@,
            decreases self.keys.len() - i,
        {
            if same_text(self.keys[i].as_str(), s) {
                proof {
                    lemma_first_index_at(self@, s@, i);
                }
                return Some(i);
            }
            i = i + 1;
        }
        assert(!self@.contains(s@));
        None
    }

    /// Hash dispatch: hashes `s` once and answers the position of the first
    /// key whose hash is equal. Only as sound as the set's hash distinctness:
    /// a string outside the set whose hash equals a member's gets that
    /// member's position.
    pub fn match_hash(&self, s: &str) -> (r: Option<usize>)
        requires
            self.wf(),
        ensures
            r == first_index(hashes_of(self@), str_hash(s@)),
    {
        self.match_hash_value(hash_str(s))
    }
}

} // verus!
