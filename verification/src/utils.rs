//! Author identity derivation.
//!
//! An author id is a deterministic hash over the ordered pair of author
//! name and author email, rendered as a lower-case hexadecimal string.
//! Repeated calls with identical inputs always produce the same id, in
//! and across sessions.  A separate gravatar-style hash is derived from
//! the trimmed, lower-cased email for display purposes only.

use vstd::prelude::*;

use crate::strutil::{spec_hex, u64_to_hex};

verus! {

/// One mixing step of the identity hash: fold one character code into
/// the running state.
pub open spec fn spec_mix(h: u64, c: u32) -> u64 {
    vstd::wrapping::u64_specs::wrapping_mul(h ^ (c as u64), 0x100000001b3)
}

/// The identity hash state after folding every character of `s` into `h`.
pub open spec fn spec_fold_chars(h: u64, s: Seq<char>) -> u64
    decreases s.len(),
{
    if s.len() == 0 {
        h
    } else {
        spec_fold_chars(spec_mix(h, s[0] as u32), s.drop_first())
    }
}

/// The identity hash over the ordered pair (name, email).  The marker
/// folded between the two lies above every character code, so the pair
/// boundary is unambiguous.
pub open spec fn spec_author_hash(name: Seq<char>, email: Seq<char>) -> u64 {
    spec_fold_chars(spec_mix(spec_fold_chars(0xcbf29ce484222325, name), 0x110000), email)
}

/// The author id for the pair (name, email): the identity hash written
/// in lower-case hexadecimal.
pub open spec fn spec_author_id(name: Seq<char>, email: Seq<char>) -> Seq<char> {
    spec_hex(spec_author_hash(name, email) as int)
}

fn mix(h: u64, c: u32) -> (r: u64)
    ensures
        r == spec_mix(h, c),
{
    (h ^ (c as u64)).wrapping_mul(0x100000001b3)
}

fn fold_chars(h: u64, s: &str) -> (r: u64)
    ensures
        r == spec_fold_chars(h, s@),
{
    let n = s.unicode_len();
    let mut acc = h;
    let mut i: usize = 0;
    proof {
        assert(s@.skip(0) =~= s@);
    }
    while i < n
        invariant
            n == s@.len(),
            i <= n,
            spec_fold_chars(h, s@) == spec_fold_chars(acc, s@.skip(i as int)),
        decreases n - i,
    {
        let c = s.get_char(i);
        proof {
            assert(s@.skip(i as int).drop_first() =~= s@.skip(i + 1 as int));
            assert(s@.skip(i as int)[0] == s@[i as int]);
        }
        acc = mix(acc, c as u32);
        i = i + 1;
    }
    proof {
        assert(s@.skip(n as int) =~= Seq::<char>::empty());
    }
    acc
}

/// The author id for the pair (name, email).  The result depends on the
/// two strings alone, so identical inputs always give identical ids.
pub fn get_author_id(author_name: &String, author_email: &String) -> (r: String)
    ensures
        r@ == spec_author_id(author_name@, author_email@),
{
    let h = fold_chars(0xcbf29ce484222325, author_name.as_str());
    let h = mix(h, 0x110000);
    let h = fold_chars(h, author_email.as_str());
    u64_to_hex(h)
}

/// Author identity is pure: two calls on pairwise identical inputs give
/// the same id, within and across sessions.
pub proof fn lemma_author_id_deterministic(
    name_a: Seq<char>,
    email_a: Seq<char>,
    name_b: Seq<char>,
    email_b: Seq<char>,
)
    requires
        name_a == name_b,
        email_a == email_b,
    ensures
        spec_author_id(name_a, email_a) == spec_author_id(name_b, email_b),
{
}

/// What Unicode lowercasing yields for a character sequence.  The
/// result is a function of the characters alone.
pub uninterp spec fn lower_of(s: Seq<char>) -> Seq<char>;

/// Relies on str::to_lowercase: Unicode lowercasing, a pure function of
/// the characters alone, on every machine alike.
#[verifier::external_body]
fn lowercase_text(s: &str) -> (r: String)
    ensures
        r@ == lower_of(s@),
{
    s.to_lowercase()
}

/// What trimming yields for a character sequence: the characters with
/// Unicode whitespace stripped from both ends.  The result is a
/// function of the characters alone.
pub uninterp spec fn trim_of(s: Seq<char>) -> Seq<char>;

/// Relies on str::trim: strips Unicode whitespace from both ends, a
/// pure function of the characters alone.
#[verifier::external_body]
fn trim_text(s: &str) -> (r: String)
    ensures
        r@ == trim_of(s@),
{
    s.trim().to_string()
}

/// What md5 computes over the bytes of a string, written as 32
/// lower-case hexadecimal digits.  The digest is a function of the
/// input alone.
pub uninterp spec fn md5_hex_of(s: Seq<char>) -> Seq<char>;

/// Relies on md5::compute: the digest is a pure function of the input
/// bytes; its `LowerHex` rendering writes each of the 16 digest bytes
/// as two lower-case hexadecimal digits.
#[verifier::external_body]
fn md5_hex(s: &str) -> (r: String)
    ensures
        r@ == md5_hex_of(s@),
        r@.len() == 32,
{
    let digest = md5::compute(s.as_bytes());
    format!("{:x}", digest)
}

/// The gravatar-style display hash for an email address: md5 over the
/// trimmed, lower-cased address.  Display only; never an identity key.
pub fn gravatar_hash(email: &str) -> (r: String)
    ensures
        r@ == md5_hex_of(lower_of(trim_of(email@))),
        r@.len() == 32,
{
    let trimmed = trim_text(email);
    let folded = lowercase_text(trimmed.as_str());
    md5_hex(folded.as_str())
}

} // verus!
