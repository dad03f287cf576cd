//! Character-level text utilities with exact specifications.
//!
//! Strings are handled as sequences of Unicode scalar values (`Seq<char>`),
//! which is also how vstd views `str` and `String`. The executable functions
//! work on a `Vec<char>` and a half-open index range `lo..hi` into it.
use vstd::prelude::*;

verus! {

// ---------------------------------------------------------------------------
// Character classes
// ---------------------------------------------------------------------------

/// Unicode `White_Space` property, the set that `char::is_whitespace` uses.
pub open spec fn is_ws(c: char) -> bool {
    let u = c as u32;
    ||| (0x09 <= u && u <= 0x0d)
    ||| u == 0x20
    ||| u == 0x85
    ||| u == 0xa0
    ||| u == 0x1680
    ||| (0x2000 <= u && u <= 0x200a)
    ||| u == 0x2028
    ||| u == 0x2029
    ||| u == 0x202f
    ||| u == 0x205f
    ||| u == 0x3000
}

/// Decides the `White_Space` property of a character.
pub fn is_whitespace(c: char) -> (r: bool)
    ensures
        r == is_ws(c),
{
    let u = c as u32;
    (0x09 <= u && u <= 0x0d) || u == 0x20 || u == 0x85 || u == 0xa0 || u == 0x1680 || (0x2000
        <= u && u <= 0x200a) || u == 0x2028 || u == 0x2029 || u == 0x202f || u == 0x205f || u
        == 0x3000
}

/// An ASCII decimal digit.
pub open spec fn is_digit(c: char) -> bool {
    0x30 <= (c as u32) && (c as u32) <= 0x39
}

/// An ASCII letter or digit: the alphabet of random strings.
pub open spec fn is_alnum(c: char) -> bool {
    let u = c as u32;
    ||| is_digit(c)
    ||| (0x41 <= u && u <= 0x5a)
    ||| (0x61 <= u && u <= 0x7a)
}

/// The set of characters that a strip operation removes.
pub enum CharSet {
    /// Characters with the Unicode `White_Space` property.
    Whitespace,
    /// Exactly one character.
    Only(char),
}

impl CharSet {
    pub open spec fn has(self, c: char) -> bool {
        match self {
            CharSet::Whitespace => is_ws(c),
            CharSet::Only(d) => c == d,
        }
    }

    pub fn contains(&self, c: char) -> (r: bool)
        ensures
            r == self.has(c),
    {
        match self {
            CharSet::Whitespace => is_whitespace(c),
            CharSet::Only(d) => c == *d,
        }
    }
}

// ---------------------------------------------------------------------------
// Stripping
// ---------------------------------------------------------------------------

/// `s` without its longest prefix of characters in `p`.
pub open spec fn strip_start(s: Seq<char>, p: CharSet) -> Seq<char>
    decreases s.len(),
{
    if s.len() > 0 && p.has(s[0]) {
        strip_start(s.drop_first(), p)
    } else {
        s
    }
}

/// `s` without its longest suffix of characters in `p`.
pub open spec fn strip_end(s: Seq<char>, p: CharSet) -> Seq<char>
    decreases s.len(),
{
    if s.len() > 0 && p.has(s.last()) {
        strip_end(s.drop_last(), p)
    } else {
        s
    }
}

/// `str::trim`: leading and trailing white space removed.
pub open spec fn trim(s: Seq<char>) -> Seq<char> {
    strip_end(strip_start(s, CharSet::Whitespace), CharSet::Whitespace)
}

/// Start of what remains of `v[lo..hi]` once its leading characters in `p` are stripped.
pub fn skip_start(v: &Vec<char>, lo: usize, hi: usize, p: &CharSet) -> (r: usize)
    requires
        lo <= hi <= v.len(),
    ensures
        lo <= r <= hi,
        v@.subrange(r as int, hi as int) == strip_start(v@.subrange(lo as int, hi as int), *p),
{
    let mut i: usize = lo;
    while i < hi && p.contains(v[i])
        invariant
            lo <= i <= hi <= v.len(),
            strip_start(v@.subrange(lo as int, hi as int), *p) == strip_start(
                v@.subrange(i as int, hi as int),
                *p,
            ),
        decreases hi - i,
    {
        assert(v@.subrange(i as int, hi as int).drop_first() =~= v@.subrange(
            i + 1,
            hi as int,
        ));
        i = i + 1;
    }
    i
}

/// End of what remains of `v[lo..hi]` once its trailing characters in `p` are stripped.
pub fn skip_end(v: &Vec<char>, lo: usize, hi: usize, p: &CharSet) -> (r: usize)
    requires
        lo <= hi <= v.len(),
    ensures
        lo <= r <= hi,
        v@.subrange(lo as int, r as int) == strip_end(v@.subrange(lo as int, hi as int), *p),
{
    let mut j: usize = hi;
    while j > lo && p.contains(v[j - 1])
        invariant
            lo <= j <= hi <= v.len(),
            strip_end(v@.subrange(lo as int, hi as int), *p) == strip_end(
                v@.subrange(lo as int, j as int),
                *p,
            ),
        decreases j - lo,
    {
        assert(v@.subrange(lo as int, j as int).drop_last() =~= v@.subrange(
            lo as int,
            j - 1,
        ));
        j = j - 1;
    }
    j
}

/// Bounds of `trim(v[lo..hi])` inside `v`.
pub fn trim_range(v: &Vec<char>, lo: usize, hi: usize) -> (r: (usize, usize))
    requires
        lo <= hi <= v.len(),
    ensures
        lo <= r.0 <= r.1 <= hi,
        v@.subrange(r.0 as int, r.1 as int) == trim(v@.subrange(lo as int, hi as int)),
{
    let a = skip_start(v, lo, hi, &CharSet::Whitespace);
    let b = skip_end(v, a, hi, &CharSet::Whitespace);
    (a, b)
}

// ---------------------------------------------------------------------------
// Searching
// ---------------------------------------------------------------------------

/// `i` is the first index of `c` in `s`.
pub open spec fn first_char_at(s: Seq<char>, c: char, i: int) -> bool {
    &&& 0 <= i < s.len()
    &&& s[i] == c
    &&& forall|j: int| 0 <= j < i ==> s[j] != c
}

/// `str::find` with a character pattern.
pub open spec fn find_char(s: Seq<char>, c: char) -> Option<int> {
    if exists|i: int| first_char_at(s, c, i) {
        Some(choose|i: int| first_char_at(s, c, i))
    } else {
        None
    }
}

/// `a` immediately followed by `b` at index `i` of `s`.
pub open spec fn pair_at(s: Seq<char>, a: char, b: char, i: int) -> bool {
    0 <= i && i + 1 < s.len() && s[i] == a && s[i + 1] == b
}

/// `i` is the first index of the two-character pattern `ab` in `s`.
pub open spec fn first_pair_at(s: Seq<char>, a: char, b: char, i: int) -> bool {
    &&& pair_at(s, a, b, i)
    &&& forall|j: int| 0 <= j < i ==> !pair_at(s, a, b, j)
}

/// `str::find` with a two-character pattern.
pub open spec fn find_pair(s: Seq<char>, a: char, b: char) -> Option<int> {
    if exists|i: int| first_pair_at(s, a, b, i) {
        Some(choose|i: int| first_pair_at(s, a, b, i))
    } else {
        None
    }
}

pub proof fn lemma_find_char_unique(s: Seq<char>, c: char, i: int)
    requires
        first_char_at(s, c, i),
    ensures
        find_char(s, c) == Some(i),
{
    let k = choose|k: int| first_char_at(s, c, k);
    assert(first_char_at(s, c, k));
    if k < i {
        assert(s[k] != c);
    } else if i < k {
        assert(s[i] != c);
    }
}

pub proof fn lemma_find_pair_unique(s: Seq<char>, a: char, b: char, i: int)
    requires
        first_pair_at(s, a, b, i),
    ensures
        find_pair(s, a, b) == Some(i),
{
    let k = choose|k: int| first_pair_at(s, a, b, k);
    assert(first_pair_at(s, a, b, k));
    if k < i {
        assert(!pair_at(s, a, b, k));
    } else if i < k {
        assert(!pair_at(s, a, b, i));
    }
}

/// First index of `c` in `v[lo..hi]`, as an index into `v`.
pub fn index_of_char(v: &Vec<char>, lo: usize, hi: usize, c: char) -> (r: Option<usize>)
    requires
        lo <= hi <= v.len(),
    ensures
        match r {
            Some(i) => lo <= i < hi && find_char(v@.subrange(lo as int, hi as int), c) == Some(
                i - lo,
            ),
            None => find_char(v@.subrange(lo as int, hi as int), c) is None,
        },
{
    let ghost s = v@.subrange(lo as int, hi as int);
    let mut i: usize = lo;
    while i < hi
        invariant
            lo <= i <= hi <= v.len(),
            s == v@.subrange(lo as int, hi as int),
            forall|j: int| 0 <= j < i - lo ==> s[j] != c,
        decreases hi - i,
    {
        if v[i] == c {
            proof {
                assert(first_char_at(s, c, i - lo));
                lemma_find_char_unique(s, c, i - lo);
            }
            return Some(i);
        }
        i = i + 1;
    }
    assert(!exists|k: int| first_char_at(s, c, k));
    None
}

/// First index of the pattern `ab` in `v[lo..hi]`, as an index into `v`.
pub fn index_of_pair(v: &Vec<char>, lo: usize, hi: usize, a: char, b: char) -> (r: Option<usize>)
    requires
        lo <= hi <= v.len(),
    ensures
        match r {
            Some(i) => lo <= i && i + 1 < hi && find_pair(
                v@.subrange(lo as int, hi as int),
                a,
                b,
            ) == Some(i - lo),
            None => find_pair(v@.subrange(lo as int, hi as int), a, b) is None,
        },
{
    let ghost s = v@.subrange(lo as int, hi as int);
    let mut i: usize = lo;
    while hi - i >= 2
        invariant
            lo <= i <= hi <= v.len(),
            s == v@.subrange(lo as int, hi as int),
            forall|j: int| 0 <= j < i - lo ==> !pair_at(s, a, b, j),
        decreases hi - i,
    {
        if v[i] == a && v[i + 1] == b {
            proof {
                assert(first_pair_at(s, a, b, i - lo));
                lemma_find_pair_unique(s, a, b, i - lo);
            }
            return Some(i);
        }
        i = i + 1;
    }
    assert(!exists|k: int| first_pair_at(s, a, b, k)) by {
        assert forall|k: int| !first_pair_at(s, a, b, k) by {
            if first_pair_at(s, a, b, k) {
                assert(pair_at(s, a, b, k));
            }
        }
    }
    None
}

/// Whether `v[lo..hi]` starts with `prefix`.
pub fn has_prefix(v: &Vec<char>, lo: usize, hi: usize, prefix: &Vec<char>) -> (r: bool)
    requires
        lo <= hi <= v.len(),
    ensures
        r == (prefix.len() <= hi - lo && v@.subrange(lo as int, lo + prefix.len()) == prefix@),
{
    if prefix.len() > hi - lo {
        return false;
    }
    let mut k: usize = 0;
    while k < prefix.len()
        invariant
            lo <= hi <= v.len(),
            prefix.len() <= hi - lo,
            0 <= k <= prefix.len(),
            forall|j: int| 0 <= j < k ==> v@[lo + j] == prefix@[j],
        decreases prefix.len() - k,
    {
        if v[lo + k] != prefix[k] {
            assert(v@.subrange(lo as int, lo + prefix.len())[k as int] != prefix@[k as int]);
            return false;
        }
        k = k + 1;
    }
    assert(v@.subrange(lo as int, lo + prefix.len()) =~= prefix@);
    true
}

/// Whether `v[lo..hi]` equals `w`.
pub fn range_equals(v: &Vec<char>, lo: usize, hi: usize, w: &Vec<char>) -> (r: bool)
    requires
        lo <= hi <= v.len(),
    ensures
        r == (v@.subrange(lo as int, hi as int) == w@),
{
    if w.len() != hi - lo {
        return false;
    }
    has_prefix(v, lo, hi, w)
}

// ---------------------------------------------------------------------------
// Conversions between `str`, `String` and `Vec<char>`
// ---------------------------------------------------------------------------

/// The characters of a string slice, in order.
pub fn chars_of(s: &str) -> (r: Vec<char>)
    ensures
        r@ == s@,
{
    let mut v: Vec<char> = Vec::new();
    for c in it: s.chars()
        invariant
            v@ == it.seq().take(it.index() as int),
    {
        v.push(c);
    }
    v
}

/// `String::push`: appends one character.
#[verifier::external_body]
pub(crate) fn push_char(s: &mut String, c: char)
    ensures
        final(s)@ == old(s)@.push(c),
{
    s.push(c);
}

/// Appends `v[lo..hi]` to `out`.
pub fn push_range(out: &mut String, v: &Vec<char>, lo: usize, hi: usize)
    requires
        lo <= hi <= v.len(),
    ensures
        final(out)@ == old(out)@ + v@.subrange(lo as int, hi as int),
{
    let ghost start = out@;
    let mut i: usize = lo;
    while i < hi
        invariant
            lo <= i <= hi <= v.len(),
            out@ == start + v@.subrange(lo as int, i as int),
        decreases hi - i,
    {
        push_char(out, v[i]);
        assert(v@.subrange(lo as int, i + 1) =~= v@.subrange(lo as int, i as int).push(v@[i as int]));
        i = i + 1;
    }
}

/// Appends all characters of `s` to `out`.
pub fn push_str(out: &mut String, s: &str)
    ensures
        final(out)@ == old(out)@ + s@,
{
    let v = chars_of(s);
    push_range(out, &v, 0, v.len());
    assert(v@.subrange(0, v.len() as int) =~= v@);
}

/// A new string holding `v[lo..hi]`.
pub fn string_of(v: &Vec<char>, lo: usize, hi: usize) -> (r: String)
    requires
        lo <= hi <= v.len(),
    ensures
        r@ == v@.subrange(lo as int, hi as int),
{
    let mut out = String::new();
    push_range(&mut out, v, lo, hi);
    assert(Seq::<char>::empty() + v@.subrange(lo as int, hi as int) =~= v@.subrange(lo as int, hi as int));
    out
}

} // verus!
