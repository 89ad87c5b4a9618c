//! Leaf classification for file-tree nodes.
//!
//! Each leaf name is matched against a fixed, ordered list of suffix
//! patterns; the first match determines the kind.  Where no pattern
//! matches, the kind is a sentinel value.  Classification is
//! informational only and never fails.

use vstd::prelude::*;

use crate::strutil::chars_of;

verus! {

/// The sentinel kind for a name that no pattern matches.
pub open spec fn spec_unknown_kind() -> int {
    0xffff_ffff
}

/// The ordered suffix patterns; a name's kind is the position of the
/// first pattern that ends it.
pub open spec fn spec_type_patterns() -> Seq<Seq<char>> {
    seq![
        seq!['.', 'r', 's'],
        seq!['.', 't', 's'],
        seq!['.', 'j', 's'],
        seq!['.', 'j', 's', 'o', 'n'],
        seq!['.', 'm', 'd'],
        seq!['.', 't', 'o', 'm', 'l'],
        seq!['.', 'y', 'm', 'l'],
        seq!['.', 'h', 't', 'm', 'l'],
        seq!['.', 'c', 's', 's'],
        seq!['.', 'p', 'n', 'g'],
        seq!['.', 'j', 'p', 'g'],
        seq!['.', 's', 'v', 'g'],
        seq!['.', 'l', 'o', 'c', 'k'],
        seq!['.', 's', 'h'],
        seq!['.', 'r', 'b'],
        seq!['.', 'p', 'y'],
    ]
}

/// Whether `p` ends `s`.
pub open spec fn spec_is_suffix(p: Seq<char>, s: Seq<char>) -> bool {
    p.len() <= s.len() && s.skip(s.len() - p.len()) == p
}

/// The position of the first pattern at or after `i` that ends `s`, or
/// the sentinel where none does.
pub open spec fn spec_first_match(s: Seq<char>, i: int) -> int
    decreases spec_type_patterns().len() - i when 0 <= i <= spec_type_patterns().len()
{
    if i >= spec_type_patterns().len() {
        spec_unknown_kind()
    } else if spec_is_suffix(spec_type_patterns()[i], s) {
        i
    } else {
        spec_first_match(s, i + 1)
    }
}

/// The kind of a leaf name: the position of the first suffix pattern
/// that matches it, or the sentinel.
pub open spec fn spec_file_type(s: Seq<char>) -> int {
    spec_first_match(s, 0)
}

fn has_suffix(p: &Vec<char>, s: &Vec<char>) -> (r: bool)
    ensures
        r == spec_is_suffix(p@, s@),
{
    if p.len() > s.len() {
        return false;
    }
    let off = s.len() - p.len();
    let mut i: usize = 0;
    while i < p.len()
        invariant
            p@.len() <= s@.len() <= usize::MAX,
            off == s@.len() - p@.len(),
            i <= p@.len(),
            forall|j: int| 0 <= j < i ==> s@[off + j] == p@[j],
        decreases p@.len() - i,
    {
        if s[off + i] != p[i] {
            assert(s@.skip(off as int)[i as int] != p@[i as int]);
            return false;
        }
        i = i + 1;
    }
    proof {
        assert(s@.skip(off as int) =~= p@);
    }
    true
}

/// The classification table, as runtime values.
fn type_patterns() -> (r: Vec<Vec<char>>)
    ensures
        r@.len() == spec_type_patterns().len(),
        forall|i: int| 0 <= i < r@.len() ==> (#[trigger] r@[i])@ == spec_type_patterns()[i],
{
    let mut r: Vec<Vec<char>> = Vec::new();
    r.push(vec!['.', 'r', 's']);
    r.push(vec!['.', 't', 's']);
    r.push(vec!['.', 'j', 's']);
    r.push(vec!['.', 'j', 's', 'o', 'n']);
    r.push(vec!['.', 'm', 'd']);
    r.push(vec!['.', 't', 'o', 'm', 'l']);
    r.push(vec!['.', 'y', 'm', 'l']);
    r.push(vec!['.', 'h', 't', 'm', 'l']);
    r.push(vec!['.', 'c', 's', 's']);
    r.push(vec!['.', 'p', 'n', 'g']);
    r.push(vec!['.', 'j', 'p', 'g']);
    r.push(vec!['.', 's', 'v', 'g']);
    r.push(vec!['.', 'l', 'o', 'c', 'k']);
    r.push(vec!['.', 's', 'h']);
    r.push(vec!['.', 'r', 'b']);
    r.push(vec!['.', 'p', 'y']);
    proof {
        assert forall|i: int| 0 <= i < r@.len() implies (#[trigger] r@[i])@
            == spec_type_patterns()[i] by {
            assert(r@[i]@ =~= spec_type_patterns()[i]);
        }
    }
    r
}

/// Classifies a leaf name: the position of the first matching suffix
/// pattern, or the sentinel where none matches.
pub fn get_file_type(filename: &str) -> (r: u32)
    ensures
        r as int == spec_file_type(filename@),
{
    let chars = chars_of(filename);
    let patterns = type_patterns();
    let mut i: usize = 0;
    while i < patterns.len()
        invariant
            patterns@.len() == spec_type_patterns().len(),
            forall|j: int|
                0 <= j < patterns@.len() ==> (#[trigger] patterns@[j])@ == spec_type_patterns()[j],
            chars@ == filename@,
            i <= patterns@.len(),
            spec_file_type(filename@) == spec_first_match(filename@, i as int),
        decreases patterns@.len() - i,
    {
        if has_suffix(&patterns[i], &chars) {
            assert(spec_first_match(filename@, i as int) == i);
            return i as u32;
        }
        i = i + 1;
    }
    0xffff_ffff
}

} // verus!
