//! Tile labels: a base label carries any number of `_` markers around it
//! (a trailing `_` marks a face-up tile); labels compare ASCII-case-insensitively.

use vstd::prelude::*;
use vstd::string::*;

verus! {

/// `s` with every trailing `_` removed.
pub open spec fn trim_end(s: Seq<char>) -> Seq<char>
    decreases s.len(),
{
    if s.len() > 0 && s.last() == '_' {
        trim_end(s.drop_last())
    } else {
        s
    }
}

/// `s` with every leading `_` removed.
pub open spec fn trim_start(s: Seq<char>) -> Seq<char>
    decreases s.len(),
{
    if s.len() > 0 && s[0] == '_' {
        trim_start(s.drop_first())
    } else {
        s
    }
}

/// The base label of a tile: the text with its `_` markers trimmed from both ends.
pub open spec fn base_label(s: Seq<char>) -> Seq<char> {
    trim_start(trim_end(s))
}

/// A character's ASCII-lower-case code point.
pub open spec fn fold_char(c: char) -> int {
    if 'A' <= c && c <= 'Z' {
        c as int + 32
    } else {
        c as int
    }
}

/// Two texts that are equal up to ASCII case.
pub open spec fn same_label(a: Seq<char>, b: Seq<char>) -> bool {
    &&& a.len() == b.len()
    &&& forall|i: int| 0 <= i < a.len() ==> fold_char(#[trigger] a[i]) == fold_char(b[i])
}

/// The wildcard label, `x`.
pub open spec fn wildcard() -> Seq<char> {
    seq!['x']
}

/// A tile whose base label is the wildcard.
pub open spec fn is_wildcard(s: Seq<char>) -> bool {
    same_label(base_label(s), wildcard())
}

/// A character in ASCII lower case.
pub open spec fn lower_char(c: char) -> char {
    if 'A' <= c && c <= 'Z' {
        ((c as u32) + 32) as char
    } else {
        c
    }
}

/// A text in ASCII lower case.
pub open spec fn ascii_lower(s: Seq<char>) -> Seq<char> {
    s.map_values(|c: char| lower_char(c))
}

/// Relies on `str::to_ascii_lowercase`: each ASCII letter `A`-`Z` becomes
/// `a`-`z`, every other character stays.
#[verifier::external_body]
pub(crate) fn lowercase_ascii(s: &str) -> (r: String)
    ensures
        r@ == ascii_lower(s@),
{
    s.to_ascii_lowercase()
}

/// `s` without its last character (unchanged when empty).
pub open spec fn drop_last_char(s: Seq<char>) -> Seq<char> {
    if s.len() > 0 {
        s.drop_last()
    } else {
        s
    }
}

/// A trailing marker does not change the base label.
pub proof fn lemma_trim_end_marker(s: Seq<char>)
    ensures
        trim_end(s.push('_')) == trim_end(s),
        base_label(s.push('_')) == base_label(s),
{
    assert(s.push('_').drop_last() =~= s);
}

/// The base label of a tile.
pub fn base_of(s: &String) -> (r: String)
    ensures
        r@ == base_label(s@),
{
    let t = s.as_str();
    let n = t.unicode_len();
    let mut e: usize = n;
    assert(s@.subrange(0, n as int) =~= s@);
    while e > 0 && t.get_char(e - 1) == '_'
        invariant
            e <= n,
            n == t@.len(),
            t@ == s@,
            trim_end(s@) == trim_end(s@.subrange(0, e as int)),
        decreases e,
    {
        assert(s@.subrange(0, e as int).drop_last() =~= s@.subrange(0, e - 1));
        e = e - 1;
    }
    assert(s@.subrange(0, e as int).subrange(0, e as int) =~= s@.subrange(0, e as int));
    let mut b: usize = 0;
    while b < e && t.get_char(b) == '_'
        invariant
            b <= e <= n,
            n == t@.len(),
            t@ == s@,
            base_label(s@) == trim_start(s@.subrange(b as int, e as int)),
        decreases e - b,
    {
        assert(s@.subrange(b as int, e as int).drop_first() =~= s@.subrange(b + 1, e as int));
        b = b + 1;
    }
    let r = t.substring_char(b, e);
    String::from_str(r)
}

/// The text without its last character (unchanged when empty).
pub fn without_last(s: &String) -> (r: String)
    ensures
        r@ == drop_last_char(s@),
{
    let t = s.as_str();
    let n = t.unicode_len();
    if n == 0 {
        s.clone()
    } else {
        let r = t.substring_char(0, n - 1);
        assert(r@ =~= s@.drop_last());
        String::from_str(r)
    }
}

/// One character of a label up to ASCII case.
pub fn same_char(a: char, b: char) -> (r: bool)
    ensures
        r == (fold_char(a) == fold_char(b)),
{
    let x: u32 = if 'A' <= a && a <= 'Z' { a as u32 + 32 } else { a as u32 };
    let y: u32 = if 'A' <= b && b <= 'Z' { b as u32 + 32 } else { b as u32 };
    x == y
}

/// Whether two labels are equal up to ASCII case.
pub fn labels_match(a: &str, b: &str) -> (r: bool)
    ensures
        r == same_label(a@, b@),
{
    let n = a.unicode_len();
    let m = b.unicode_len();
    if n != m {
        return false;
    }
    let mut i: usize = 0;
    while i < n
        invariant
            i <= n,
            n == a@.len(),
            m == b@.len(),
            n == m,
            forall|k: int| 0 <= k < i ==> fold_char(#[trigger] a@[k]) == fold_char(b@[k]),
        decreases n - i,
    {
        if !same_char(a.get_char(i), b.get_char(i)) {
            return false;
        }
        i = i + 1;
    }
    true
}

} // verus!
