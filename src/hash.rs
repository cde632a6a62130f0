//! The fixed-seed string hash that dispatch constants are computed with.
use std::hash::{BuildHasher, Hash, Hasher};
use vstd::prelude::*;

verus! {

/// Seed of the fixed hasher; dispatch constants stay valid only while it is unchanged.
pub const HASH_SEED: u64 = 41;

/// The 64-bit foldhash value (fixed seed `HASH_SEED`) of a string's bytes.
pub uninterp spec fn str_hash(s: Seq<char>) -> u64;

/// Relies on foldhash's `FixedState::with_seed`: a hasher built from a fixed seed
/// hashes a `str` to a value that depends on its contents alone.
#[verifier::external_body]
fn fold_hash(seed: u64, t: &str) -> (r: u64)
    requires
        seed == HASH_SEED,
    ensures
        r == str_hash(t@),
{
    let mut hasher = foldhash::fast::FixedState::with_seed(seed).build_hasher();
    t.hash(&mut hasher);
    hasher.finish()
}

/// Hashes a string with the fixed seed: equal strings always give equal values.
pub fn hash_str(t: &str) -> (r: u64)
    ensures
        r == str_hash(t@),
{
    fold_hash(HASH_SEED, t)
}

/// Hashing is a function of the string alone: two equal strings hash alike.
pub proof fn lemma_hash_deterministic(a: Seq<char>, b: Seq<char>)
    requires
        a == b,
    ensures
        str_hash(a) == str_hash(b),
{
}

/// The text that a Rust string literal (quotes and escapes included) denotes,
/// or `None` when the input is not such a literal.
pub uninterp spec fn literal_value(src: Seq<char>) -> Option<Seq<char>>;

/// Relies on syn's `parse_str::<LitStr>` and `LitStr::value`: the literal is
/// accepted or refused, and its value read, from the source text alone.
#[verifier::external_body]
fn parse_literal(src: &str) -> (r: Option<String>)
    ensures
        match literal_value(src@) {
            Some(v) => r matches Some(s) && s@ == v,
            None => r is None,
        },
{
    syn::parse_str::<syn::LitStr>(src).ok().map(|lit| lit.value())
}

/// The source text given where a string literal was required is not one.
#[derive(Clone, Copy, Debug, PartialEq, Eq)]
pub struct MalformedLiteral;

/// The value of a string literal, read from its source text (`"\"ab\""` gives `ab`).
pub fn literal_text(src: &str) -> (r: Result<String, MalformedLiteral>)
    ensures
        match literal_value(src@) {
            Some(v) => r matches Ok(s) && s@ == v,
            None => r == Err::<String, MalformedLiteral>(MalformedLiteral),
        },
{
    match parse_literal(src) {
        Some(s) => Ok(s),
        None => Err(MalformedLiteral),
    }
}

/// The dispatch constant of a string literal: the hash of the text it denotes.
/// A match on `hash_str(x)` with these constants as arms selects the arm of `x`.
pub fn hash_arm(src: &str) -> (r: Result<u64, MalformedLiteral>)
    ensures
        match literal_value(src@) {
            Some(v) => r == Ok::<u64, MalformedLiteral>(str_hash(v)),
            None => r == Err::<u64, MalformedLiteral>(MalformedLiteral),
        },
{
    match literal_text(src) {
        Ok(s) => Ok(hash_str(s.as_str())),
        Err(e) => Err(e),
    }
}

} // verus!
