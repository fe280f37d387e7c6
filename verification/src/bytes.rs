//! Byte-level helpers shared by the parsing, candidate and response modules:
//! ASCII literals as byte vectors, byte-vector equality, locating a
//! separator, slicing, splitting into separator-delimited segments, and
//! counting occurrences of a byte.

use vstd::prelude::*;

verus! {

/// ASCII space.
pub const SP: u8 = 32;

/// ASCII slash.
pub const SLASH: u8 = 47;

/// ASCII dot.
pub const DOT: u8 = 46;

/// ASCII carriage return.
pub const CR: u8 = 13;

/// ASCII line feed.
pub const LF: u8 = 10;

/// ASCII equals sign.
pub const EQ: u8 = 61;

/// ASCII capital G.
pub const UPPER_G: u8 = 71;

/// ASCII capital E.
pub const UPPER_E: u8 = 69;

/// ASCII capital T.
pub const UPPER_T: u8 = 84;

/// The bytes of a sequence of ASCII characters, one byte per character.
pub open spec fn ascii_bytes(s: Seq<char>) -> Seq<u8> {
    s.map(|_i: int, c: char| c as u8)
}

/// Turns an ASCII string literal into its byte vector.
pub fn lit_bytes(s: &str) -> (r: Vec<u8>)
    requires
        vstd::string::is_ascii(s),
    ensures
        r@ == ascii_bytes(s@),
        r@.len() == s@.len(),
{
    proof {
        vstd::string::is_ascii_spec_bytes(s);
    }
    let b = s.as_bytes();
    let r = vstd::slice::slice_to_vec(b);
    proof {
        assert(r@ =~= ascii_bytes(s@));
    }
    r
}

/// Byte-vector equality, decided element by element.
pub fn eq_bytes(a: &Vec<u8>, b: &Vec<u8>) -> (r: bool)
    ensures
        r == (a@ == b@),
{
    if a.len() != b.len() {
        proof {
            assert(a@ != b@) by {
                if a@ == b@ {
                    assert(a@.len() == b@.len());
                }
            }
        }
        return false;
    }
    let n = a.len();
    let mut i: usize = 0;
    while i < n
        invariant
            n == a@.len() == b@.len(),
            i <= n,
            forall|j: int| 0 <= j < i ==> a@[j] == b@[j],
        decreases n - i,
    {
        if a[i] != b[i] {
            return false;
        }
        i += 1;
    }
    proof {
        assert(a@ =~= b@);
    }
    true
}

/// The index of the first occurrence of `sep` in `s` at or after `from`,
/// or `s.len()` if there is none.
pub open spec fn first_ix(s: Seq<u8>, sep: u8, from: int) -> int
    decreases s.len() - from,
    when 0 <= from <= s.len()
{
    if from >= s.len() {
        s.len() as int
    } else if s[from] == sep {
        from
    } else {
        first_ix(s, sep, from + 1)
    }
}

/// `first_ix` stays within bounds, nothing before it matches, and what
/// it points at — if anything — is the separator.
pub proof fn lemma_first_ix(s: Seq<u8>, sep: u8, from: int)
    requires
        0 <= from <= s.len(),
    ensures
        from <= first_ix(s, sep, from) <= s.len(),
        forall|j: int| from <= j < first_ix(s, sep, from) ==> s[j] != sep,
        first_ix(s, sep, from) < s.len() ==> s[first_ix(s, sep, from)] == sep,
    decreases s.len() - from,
{
    if from < s.len() && s[from] != sep {
        lemma_first_ix(s, sep, from + 1);
    }
}

/// Finds the first occurrence of `sep` at or after `from`.
pub fn find_byte(s: &Vec<u8>, sep: u8, from: usize) -> (r: usize)
    requires
        from <= s@.len(),
    ensures
        r == first_ix(s@, sep, from as int),
{
    let n = s.len();
    let mut i = from;
    while i < n
        invariant
            from <= i <= n,
            n == s@.len(),
            first_ix(s@, sep, from as int) == first_ix(s@, sep, i as int),
        decreases n - i,
    {
        if s[i] == sep {
            return i;
        }
        i += 1;
    }
    i
}

/// Copies the range `[a, b)` of `s` into a fresh vector.
pub fn subvec(s: &Vec<u8>, a: usize, b: usize) -> (r: Vec<u8>)
    requires
        a <= b <= s@.len(),
    ensures
        r@ == s@.subrange(a as int, b as int),
{
    let mut r: Vec<u8> = Vec::new();
    let mut i = a;
    while i < b
        invariant
            a <= i <= b <= s@.len(),
            r@ == s@.subrange(a as int, i as int),
        decreases b - i,
    {
        r.push(s[i]);
        proof {
            assert(r@ =~= s@.subrange(a as int, i + 1));
        }
        i += 1;
    }
    r
}

/// The non-empty segments of `s` delimited by `sep`, starting at `from`:
/// the path components of a slash-separated path, or the tokens of a
/// space-separated list.
pub open spec fn segments_from(s: Seq<u8>, sep: u8, from: int) -> Seq<Seq<u8>>
    decreases s.len() - from,
    when 0 <= from <= s.len()
{
    let i = first_ix(s, sep, from);
    if from >= s.len() {
        seq![]
    } else if i >= s.len() {
        seq![s.subrange(from, s.len() as int)]
    } else if i <= from {
        segments_from(s, sep, from + 1)
    } else {
        seq![s.subrange(from, i)] + segments_from(s, sep, i + 1)
    }
}

/// The non-empty `sep`-delimited segments of all of `s`.
pub open spec fn segments(s: Seq<u8>, sep: u8) -> Seq<Seq<u8>> {
    segments_from(s, sep, 0)
}

/// Splits `s` into its non-empty `sep`-delimited segments.
pub fn split_segments(s: &Vec<u8>, sep: u8) -> (r: Vec<Vec<u8>>)
    ensures
        r.deep_view() == segments(s@, sep),
{
    let mut r: Vec<Vec<u8>> = Vec::new();
    let mut from: usize = 0;
    while from < s.len()
        invariant
            from <= s@.len(),
            segments(s@, sep) == r.deep_view() + segments_from(s@, sep, from as int),
        decreases s@.len() - from,
    {
        let i = find_byte(s, sep, from);
        proof {
            lemma_first_ix(s@, sep, from as int);
        }
        if i > from {
            let seg = subvec(s, from, i);
            let ghost old_deep = r.deep_view();
            r.push(seg);
            proof {
                assert(r.deep_view() =~~= old_deep + seq![seg@]);
            }
        }
        if i < s.len() {
            from = i + 1;
        } else {
            from = i;
        }
    }
    proof {
        assert(segments(s@, sep) =~~= r.deep_view());
    }
    r
}

/// How many times `b` occurs in `s`.
pub open spec fn count_byte(s: Seq<u8>, b: u8) -> nat
    decreases s.len(),
{
    if s.len() == 0 {
        0
    } else {
        count_byte(s.drop_last(), b) + if s.last() == b {
            1nat
        } else {
            0nat
        }
    }
}

/// Counts the occurrences of `b` in `s`.
pub fn count_occurrences(s: &Vec<u8>, b: u8) -> (r: usize)
    ensures
        r == count_byte(s@, b),
{
    let mut r: usize = 0;
    let mut i: usize = 0;
    while i < s.len()
        invariant
            i <= s@.len(),
            r == count_byte(s@.take(i as int), b),
            r <= i,
        decreases s@.len() - i,
    {
        proof {
            assert(s@.take(i + 1).drop_last() =~= s@.take(i as int));
            assert(s@.take(i + 1).last() == s@[i as int]);
        }
        if s[i] == b {
            r += 1;
        }
        i += 1;
    }
    proof {
        assert(s@.take(s@.len() as int) =~= s@);
    }
    r
}

} // verus!
