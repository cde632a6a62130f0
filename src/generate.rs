//! Random key sets: short lowercase words, distinct and with distinct hashes.
use crate::keyset::{hash_distinct, KeySet};
use rand::Rng;
use vstd::prelude::*;

verus! {

/// Fewest letters in a generated key.
pub const MIN_KEY_LEN: usize = 6;

/// Most letters in a generated key.
pub const MAX_KEY_LEN: usize = 10;

/// A generated key: `MIN_KEY_LEN` to `MAX_KEY_LEN` lowercase ASCII letters.
pub open spec fn valid_key(s: Seq<char>) -> bool {
    &&& MIN_KEY_LEN <= s.len() <= MAX_KEY_LEN
    &&& forall|i: int| 0 <= i < s.len() ==> 'a' <= #[trigger] s[i] <= 'z'
}

/// An ASCII letter or digit (`0`-`9` are 48-57, `A`-`Z` 65-90, `a`-`z` 97-122).
pub open spec fn is_alphanumeric(b: u8) -> bool {
    (48 <= b <= 57) || (65 <= b <= 90) || (97 <= b <= 122)
}

/// Relies on rand's `Rng::gen_range` on an inclusive range: a value inside it
/// (the range is not empty, on which it would panic).
#[verifier::external_body]
fn draw_between(lo: usize, hi: usize) -> (r: usize)
    requires
        lo <= hi,
    ensures
        lo <= r <= hi,
{
    rand::thread_rng().gen_range(lo..=hi)
}

/// Relies on rand's `Alphanumeric` distribution: an ASCII letter or digit.
#[verifier::external_body]
fn draw_alphanumeric() -> (r: u8)
    ensures
        is_alphanumeric(r),
{
    rand::thread_rng().sample(rand::distributions::Alphanumeric)
}

/// Relies on `String::push`: the character is appended.
#[verifier::external_body]
fn push_char(s: &mut String, c: char)
    ensures
        final(s)@ == old(s)@.push(c),
{
    s.push(c);
}

/// The lowercase letter for an ASCII letter, or `None` for any other byte.
pub fn lowercase_letter(b: u8) -> (r: Option<char>)
    ensures
        (97 <= b <= 122) ==> r == Some(b as char),
        (65 <= b <= 90) ==> r == Some((b + 32) as char),
        !((97 <= b <= 122) || (65 <= b <= 90)) ==> r is None,
        r matches Some(c) ==> 'a' <= c <= 'z',
{
    if 97 <= b && b <= 122 {
        Some(b as char)
    } else if 65 <= b && b <= 90 {
        Some((b + 32) as char)
    } else {
        None
    }
}

/// Strings that no generated key equals: too short, too long, or holding a
/// character other than a lowercase letter. The differential check probes
/// lookups with them.
pub fn non_key_probes() -> (r: Vec<String>)
    ensures
        r@.len() == 5,
        forall|i: int| 0 <= i < r@.len() ==> !valid_key(#[trigger] r@[i]@),
{
    let a = String::from_str("");
    let b = String::from_str("abcde");
    let c = String::from_str("abcdefghijk");
    let d = String::from_str("Abcdefg");
    let e = String::from_str("abc123xyz");
    proof {
        reveal_strlit("");
        reveal_strlit("abcde");
        reveal_strlit("abcdefghijk");
        reveal_strlit("Abcdefg");
        reveal_strlit("abc123xyz");
        assert(d@[0] == 'A');
        assert(e@[3] == '1');
    }
    let r = vec![a, b, c, d, e];
    assert(!valid_key(r@[3]@));
    assert(!valid_key(r@[4]@));
    r
}

/// Draws random keys until the set holds `n`, discarding each draw that is
/// already a member or collides in hash with one. At most `max_draws` random
/// values are taken; `None` when they ran out first.
pub fn generate(n: usize, max_draws: usize) -> (r: Option<KeySet>)
    ensures
        r matches Some(ks) ==> ks.wf() && hash_distinct(ks@) && ks@.len() == n && forall|i: int|
            0 <= i < n ==> valid_key(#[trigger] ks@[i]),
        n == 0 ==> r is Some,
{
    let mut ks = KeySet::new();
    let mut budget = max_draws;
    while ks.len() < n && budget > 0
        invariant
            ks.wf(),
            ks@.len() <= n,
            forall|i: int| 0 <= i < ks@.len() ==> valid_key(#[trigger] ks@[i]),
        decreases budget,
    {
        budget = budget - 1;
        let ghost left = budget;
        let len = draw_between(MIN_KEY_LEN, MAX_KEY_LEN);
        let mut key = String::new();
        let mut got: usize = 0;
        while got < len && budget > 0
            invariant
                key@.len() == got,
                got <= len,
                budget <= left,
                forall|i: int| 0 <= i < got ==> 'a' <= #[trigger] key@[i] <= 'z',
            decreases budget,
        {
            budget = budget - 1;
            if let Some(c) = lowercase_letter(draw_alphanumeric()) {
                push_char(&mut key, c);
                got = got + 1;
            }
        }
        if got == len {
            let ghost k = key@;
            let _ = ks.try_push(key);
            assert(valid_key(k));
        }
    }
    if ks.len() == n {
        Some(ks)
    } else {
        None
    }
}

} // verus!
