//! Character-level helpers shared by the renderers and parsers.

use vstd::prelude::*;

verus! {

/// The characters of `s`, in order (std `str::chars`, collected).
#[verifier::external_body]
pub(crate) fn chars_of(s: &str) -> (r: Vec<char>)
    ensures
        r@ == s@,
{
    s.chars().collect()
}

/// Appends one character to a string (std `String::push`).
#[verifier::external_body]
pub(crate) fn push_char(s: &mut String, c: char)
    ensures
        final(s)@ == old(s)@.push(c),
{
    s.push(c)
}

/// Equality of two string slices (std `<str as PartialEq>::eq`).
#[verifier::external_body]
pub(crate) fn str_eq(a: &str, b: &str) -> (r: bool)
    ensures
        r == (a@ == b@),
{
    a == b
}

/// A fresh string holding the characters `cs[lo..hi]`.
pub(crate) fn string_from_range(cs: &Vec<char>, lo: usize, hi: usize) -> (r: String)
    requires
        lo <= hi <= cs@.len(),
    ensures
        r@ == cs@.subrange(lo as int, hi as int),
{
    let mut s = String::new();
    let mut i = lo;
    while i < hi
        invariant
            lo <= i <= hi <= cs@.len(),
            s@ == cs@.subrange(lo as int, i as int),
        decreases hi - i,
    {
        push_char(&mut s, cs[i]);
        assert(s@ =~= cs@.subrange(lo as int, i + 1));
        i += 1;
    }
    s
}

/// A fresh string holding `s` (std `str::to_owned`).
pub(crate) fn owned(s: &str) -> (r: String)
    ensures
        r@ == s@,
{
    s.to_owned()
}

} // verus!

verus! {

/// `needle` occurs in `hay` as a contiguous run.
pub open spec fn contains_seq(hay: Seq<char>, needle: Seq<char>) -> bool {
    exists|i: int| 0 <= i && i + needle.len() <= hay.len() && #[trigger] hay.subrange(i, i + needle.len()) == needle
}

/// Whether `needle` occurs in `hay`.
pub(crate) fn contains_str(hay: &Vec<char>, needle: &str) -> (r: bool)
    ensures
        r == contains_seq(hay@, needle@),
{
    let nd = chars_of(needle);
    let n = nd.len();
    let m = hay.len();
    if n > m {
        return false;
    }
    let mut i: usize = 0;
    while i <= m - n
        invariant
            nd@ == needle@,
            n == nd@.len(),
            m == hay@.len(),
            n <= m,
            i <= m - n + 1,
            forall|k: int| 0 <= k < i ==> #[trigger] hay@.subrange(k, k + n) != needle@,
        decreases m - n + 1 - i,
    {
        let mut j: usize = 0;
        let mut same = true;
        while j < n
            invariant
                nd@ == needle@,
                n == nd@.len(),
                m == hay@.len(),
                i + n <= m,
                j <= n,
                same ==> forall|t: int| 0 <= t < j ==> hay@[i + t] == nd@[t],
                !same ==> exists|t: int| 0 <= t < n && hay@[i + t] != nd@[t],
            decreases n - j,
        {
            if hay[i + j] != nd[j] {
                same = false;
            }
            j = j + 1;
        }
        if same {
            assert(hay@.subrange(i as int, i + n) =~= needle@);
            return true;
        }
        proof {
            let t = choose|t: int| 0 <= t < n && hay@[i + t] != nd@[t];
            assert(hay@.subrange(i as int, i + n)[t] != needle@[t]);
        }
        i = i + 1;
    }
    proof {
        assert forall|k: int| 0 <= k && k + n <= m implies #[trigger] hay@.subrange(k, k + n) != needle@ by {
            assert(k < i);
        }
    }
    false
}

/// ASCII lower-casing of one character; every other character is kept.
pub open spec fn ascii_lower_char(c: char) -> char {
    if 'A' <= c && c <= 'Z' {
        ((c as u32) + 32) as char
    } else {
        c
    }
}

/// ASCII lower-casing of a sequence of characters.
pub open spec fn ascii_lower(s: Seq<char>) -> Seq<char> {
    s.map_values(|c: char| ascii_lower_char(c))
}

/// std `char::to_ascii_lowercase`.
pub(crate) fn to_ascii_lower(c: char) -> (r: char)
    ensures
        r == ascii_lower_char(c),
{
    if 'A' <= c && c <= 'Z' {
        ((c as u8) + 32) as char
    } else {
        c
    }
}

/// The ASCII lower-casing of a sequence of characters (std
/// `str::to_ascii_lowercase`, on characters).
pub(crate) fn ascii_lowercase(cs: &Vec<char>) -> (r: Vec<char>)
    ensures
        r@ == ascii_lower(cs@),
{
    let mut out: Vec<char> = Vec::new();
    let mut i: usize = 0;
    while i < cs.len()
        invariant
            i <= cs@.len(),
            out@ == ascii_lower(cs@.take(i as int)),
        decreases cs@.len() - i,
    {
        out.push(to_ascii_lower(cs[i]));
        assert(ascii_lower(cs@.take(i + 1)) =~= ascii_lower(cs@.take(i as int)).push(ascii_lower_char(cs@[i as int])));
        i = i + 1;
    }
    assert(cs@.take(i as int) =~= cs@);
    out
}

/// The decimal digit character of `d < 10`.
pub open spec fn digit_char(d: nat) -> char {
    if d == 0 { '0' } else if d == 1 { '1' } else if d == 2 { '2' } else if d == 3 { '3' }
    else if d == 4 { '4' } else if d == 5 { '5' } else if d == 6 { '6' } else if d == 7 { '7' }
    else if d == 8 { '8' } else { '9' }
}

/// The decimal representation of `n`, as std's `Display` writes it.
pub open spec fn decimal(n: nat) -> Seq<char>
    decreases n,
{
    if n < 10 {
        seq![digit_char(n)]
    } else {
        decimal(n / 10).push(digit_char(n % 10))
    }
}

fn digit(d: u64) -> (c: char)
    requires
        d < 10,
    ensures
        c == digit_char(d as nat),
{
    if d == 0 { '0' } else if d == 1 { '1' } else if d == 2 { '2' } else if d == 3 { '3' }
    else if d == 4 { '4' } else if d == 5 { '5' } else if d == 6 { '6' } else if d == 7 { '7' }
    else if d == 8 { '8' } else { '9' }
}

/// The decimal text of an unsigned integer.
pub(crate) fn decimal_string(n: u64) -> (s: String)
    ensures
        s@ == decimal(n as nat),
    decreases n,
{
    if n < 10 {
        let mut s = String::new();
        push_char(&mut s, digit(n));
        assert(s@ =~= decimal(n as nat));
        s
    } else {
        let mut s = decimal_string(n / 10);
        push_char(&mut s, digit(n % 10));
        s
    }
}

} // verus!
