//! Character-level string helpers shared by the query engine.
//!
//! Everything here is executable and carries an exact contract over the
//! character view of the strings involved.

use vstd::prelude::*;

verus! {

/// Relies on String::push: appends exactly one character at the end.
#[verifier::external_body]
pub fn push_char(s: &mut String, c: char)
    ensures
        final(s)@ == old(s)@.push(c),
{
    s.push(c);
}

/// The characters of `s`, collected into a vector.
pub fn chars_of(s: &str) -> (r: Vec<char>)
    ensures
        r@ == s@,
{
    let n = s.unicode_len();
    let mut r: Vec<char> = Vec::new();
    let mut i: usize = 0;
    while i < n
        invariant
            n == s@.len(),
            i <= n,
            r@ == s@.subrange(0, i as int),
        decreases n - i,
    {
        r.push(s.get_char(i));
        assert(s@.subrange(0, i as int).push(s@[i as int]) =~= s@.subrange(0, i + 1 as int));
        i = i + 1;
    }
    assert(s@.subrange(0, n as int) =~= s@);
    r
}

/// A string holding exactly the characters of `v`, in order.
pub fn string_of(v: &Vec<char>) -> (r: String)
    ensures
        r@ == v@,
{
    let mut r = String::new();
    let mut i: usize = 0;
    while i < v.len()
        invariant
            i <= v@.len(),
            r@ == v@.subrange(0, i as int),
        decreases v@.len() - i,
    {
        push_char(&mut r, v[i]);
        assert(v@.subrange(0, i as int).push(v@[i as int]) =~= v@.subrange(0, i + 1 as int));
        i = i + 1;
    }
    assert(v@.subrange(0, v@.len() as int) =~= v@);
    r
}

/// Whether two string slices hold the same characters.
pub fn str_eq(a: &str, b: &str) -> (r: bool)
    ensures
        r == (a@ == b@),
{
    let na = a.unicode_len();
    let nb = b.unicode_len();
    if na != nb {
        return false;
    }
    let mut i: usize = 0;
    while i < na
        invariant
            na == a@.len(),
            na == b@.len(),
            i <= na,
            forall|j: int| 0 <= j < i ==> a@[j] == b@[j],
        decreases na - i,
    {
        if a.get_char(i) != b.get_char(i) {
            return false;
        }
        i = i + 1;
    }
    proof {
        assert(a@ =~= b@);
    }
    true
}

/// Whether some string of `v` holds exactly the characters `s`.
pub open spec fn seq_has_str(v: Seq<String>, s: Seq<char>) -> bool {
    exists|i: int| 0 <= i < v.len() && v[i]@ == s
}

/// Whether `v` holds a string with exactly the characters of `s`.
pub fn contains_str(v: &Vec<String>, s: &str) -> (r: bool)
    ensures
        r == seq_has_str(v@, s@),
{
    let mut i: usize = 0;
    while i < v.len()
        invariant
            i <= v@.len(),
            forall|j: int| 0 <= j < i ==> v@[j]@ != s@,
        decreases v@.len() - i,
    {
        if str_eq(v[i].as_str(), s) {
            return true;
        }
        i = i + 1;
    }
    false
}

/// A mutable borrow of one vector element.
pub fn vec_elem_mut<T>(v: &mut Vec<T>, i: usize) -> (element: &mut T)
    requires
        i < old(v)@.len(),
    ensures
        *element == old(v)@[i as int],
        final(v)@ == old(v)@.update(i as int, *final(element)),
{
    &mut v[i]
}

/// A copy of a vector of strings, element for element.
pub fn clone_strings(v: &Vec<String>) -> (r: Vec<String>)
    ensures
        r@ == v@,
{
    let mut r: Vec<String> = Vec::new();
    let mut i: usize = 0;
    while i < v.len()
        invariant
            i <= v@.len(),
            r@ == v@.subrange(0, i as int),
        decreases v@.len() - i,
    {
        r.push(v[i].clone());
        assert(v@.subrange(0, i as int).push(v@[i as int]) =~= v@.subrange(0, i + 1 as int));
        i = i + 1;
    }
    assert(v@.subrange(0, v@.len() as int) =~= v@);
    r
}

/// The number of characters before the first line break in `s`.
pub open spec fn spec_line_len(s: Seq<char>) -> int
    decreases s.len(),
{
    if s.len() == 0 {
        0
    } else if s[0] == '\n' {
        0
    } else {
        1 + spec_line_len(s.drop_first())
    }
}

pub proof fn lemma_line_len(s: Seq<char>)
    ensures
        0 <= spec_line_len(s) <= s.len(),
        forall|j: int| 0 <= j < spec_line_len(s) ==> s[j] != '\n',
        spec_line_len(s) < s.len() ==> s[spec_line_len(s)] == '\n',
    decreases s.len(),
{
    if s.len() == 0 {
    } else if s[0] == '\n' {
    } else {
        lemma_line_len(s.drop_first());
        assert forall|j: int| 0 <= j < spec_line_len(s) implies s[j] != '\n' by {
            if j > 0 {
                assert(s.drop_first()[j - 1] == s[j]);
            }
        }
    }
}

/// Where the first `i` characters hold no line break, the first line is
/// `i` characters of prefix plus the first line of the rest.
proof fn lemma_line_len_skip(s: Seq<char>, i: int)
    requires
        0 <= i <= s.len(),
        forall|j: int| 0 <= j < i ==> s[j] != '\n',
    ensures
        spec_line_len(s) == i + spec_line_len(s.skip(i)),
    decreases i,
{
    if i == 0 {
        assert(s.skip(0) =~= s);
    } else {
        lemma_line_len_skip(s.drop_first(), i - 1);
        assert(s.drop_first().skip(i - 1) =~= s.skip(i));
    }
}

/// A commit message reduced to its head line: at most `max` characters
/// are kept, and the line ends at the first line break among them.
pub open spec fn spec_clipped_line(s: Seq<char>, max: int) -> Seq<char> {
    let t = if s.len() > max {
        s.take(max)
    } else {
        s
    };
    t.take(spec_line_len(t))
}

/// The head line of `s`, clipped to at most `max` characters.
pub fn clipped_line(s: &str, max: usize) -> (r: String)
    ensures
        r@ == spec_clipped_line(s@, max as int),
{
    let n = s.unicode_len();
    let bound: usize = if n > max {
        max
    } else {
        n
    };
    let ghost t: Seq<char> = if s@.len() > max {
        s@.take(max as int)
    } else {
        s@
    };
    assert(t =~= s@.take(bound as int));
    let mut r = String::new();
    let mut i: usize = 0;
    while i < bound
        invariant
            bound <= n == s@.len(),
            t =~= s@.take(bound as int),
            spec_clipped_line(s@, max as int) == t.take(spec_line_len(t)),
            i <= bound,
            r@ == t.take(i as int),
            forall|j: int| 0 <= j < i ==> t[j] != '\n',
        decreases bound - i,
    {
        let c = s.get_char(i);
        if c == '\n' {
            proof {
                lemma_line_len_skip(t, i as int);
                assert(t.skip(i as int)[0] == t[i as int]);
                assert(spec_line_len(t.skip(i as int)) == 0);
                assert(spec_line_len(t) == i as int);
                assert(r@ =~= t.take(spec_line_len(t)));
            }
            return r;
        }
        push_char(&mut r, c);
        assert(t.take(i as int).push(t[i as int]) =~= t.take(i + 1 as int));
        i = i + 1;
    }
    proof {
        lemma_line_len_skip(t, bound as int);
        assert(t.skip(bound as int).len() == 0);
        assert(spec_line_len(t) == bound as int);
        assert(r@ =~= t.take(spec_line_len(t)));
    }
    r
}

/// The lower-case hexadecimal digit for a value below sixteen.
pub open spec fn spec_hex_digit(n: int) -> char {
    if n == 0 { '0' } else if n == 1 { '1' } else if n == 2 { '2' }
    else if n == 3 { '3' } else if n == 4 { '4' } else if n == 5 { '5' }
    else if n == 6 { '6' } else if n == 7 { '7' } else if n == 8 { '8' }
    else if n == 9 { '9' } else if n == 10 { 'a' } else if n == 11 { 'b' }
    else if n == 12 { 'c' } else if n == 13 { 'd' } else if n == 14 { 'e' }
    else { 'f' }
}

/// The lower-case hexadecimal rendering of `n`, without leading zeros.
pub open spec fn spec_hex(n: int) -> Seq<char>
    decreases n,
{
    if n < 16 {
        seq![spec_hex_digit(n)]
    } else {
        spec_hex(n / 16).push(spec_hex_digit(n % 16))
    }
}

fn hex_digit(n: u64) -> (c: char)
    requires
        n < 16,
    ensures
        c == spec_hex_digit(n as int),
{
    if n == 0 { '0' } else if n == 1 { '1' } else if n == 2 { '2' }
    else if n == 3 { '3' } else if n == 4 { '4' } else if n == 5 { '5' }
    else if n == 6 { '6' } else if n == 7 { '7' } else if n == 8 { '8' }
    else if n == 9 { '9' } else if n == 10 { 'a' } else if n == 11 { 'b' }
    else if n == 12 { 'c' } else if n == 13 { 'd' } else if n == 14 { 'e' }
    else { 'f' }
}

/// `n` written in lower-case hexadecimal, without leading zeros.
pub fn u64_to_hex(n: u64) -> (r: String)
    ensures
        r@ == spec_hex(n as int),
    decreases n,
{
    if n < 16 {
        let mut r = String::new();
        push_char(&mut r, hex_digit(n));
        assert(r@ =~= seq![spec_hex_digit(n as int)]);
        r
    } else {
        let mut r = u64_to_hex(n / 16);
        push_char(&mut r, hex_digit(n % 16));
        r
    }
}

/// The decimal digit for a value below ten.
pub open spec fn spec_dec_digit(n: int) -> char {
    if n == 0 { '0' } else if n == 1 { '1' } else if n == 2 { '2' }
    else if n == 3 { '3' } else if n == 4 { '4' } else if n == 5 { '5' }
    else if n == 6 { '6' } else if n == 7 { '7' } else if n == 8 { '8' }
    else { '9' }
}

/// The decimal rendering of a value at or above zero, without leading
/// zeros.
pub open spec fn spec_udec(n: int) -> Seq<char>
    decreases n,
{
    if n < 10 {
        seq![spec_dec_digit(n)]
    } else {
        spec_udec(n / 10).push(spec_dec_digit(n % 10))
    }
}

/// The decimal rendering of a signed value: a minus sign ahead of the
/// digits where it lies below zero.
pub open spec fn spec_idec(n: int) -> Seq<char> {
    if n < 0 {
        seq!['-'] + spec_udec(-n)
    } else {
        spec_udec(n)
    }
}

fn dec_digit(n: u64) -> (c: char)
    requires
        n < 10,
    ensures
        c == spec_dec_digit(n as int),
{
    if n == 0 { '0' } else if n == 1 { '1' } else if n == 2 { '2' }
    else if n == 3 { '3' } else if n == 4 { '4' } else if n == 5 { '5' }
    else if n == 6 { '6' } else if n == 7 { '7' } else if n == 8 { '8' }
    else { '9' }
}

/// `n` written in decimal.
pub fn u64_to_dec(n: u64) -> (r: String)
    ensures
        r@ == spec_udec(n as int),
    decreases n,
{
    if n < 10 {
        let mut r = String::new();
        push_char(&mut r, dec_digit(n));
        assert(r@ =~= seq![spec_dec_digit(n as int)]);
        r
    } else {
        let mut r = u64_to_dec(n / 10);
        push_char(&mut r, dec_digit(n % 10));
        r
    }
}

/// `n` written in decimal, with a minus sign where it lies below zero.
pub fn i64_to_dec(n: i64) -> (r: String)
    ensures
        r@ == spec_idec(n as int),
{
    if n >= 0 {
        u64_to_dec(n as u64)
    } else {
        let m: u64 = ((-(n + 1)) as u64) + 1;
        assert(m == -(n as int));
        let mut r = String::new();
        push_char(&mut r, '-');
        let digits = u64_to_dec(m);
        let r = r.concat(digits.as_str());
        assert(r@ =~= seq!['-'] + spec_udec(-(n as int)));
        r
    }
}

/// What lossy UTF-8 decoding yields for a byte sequence.  The result is
/// a function of the bytes alone.
pub uninterp spec fn lossy_of(bytes: Seq<u8>) -> Seq<char>;

/// Relies on String::from_utf8_lossy: the characters depend on the
/// bytes alone; ill-formed sequences come back as replacement
/// characters.
#[verifier::external_body]
pub fn utf8_lossy(bytes: &Vec<u8>) -> (r: String)
    ensures
        r@ == lossy_of(bytes@),
{
    String::from_utf8_lossy(bytes.as_slice()).to_string()
}

} // verus!
