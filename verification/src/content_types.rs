//! The content-type table: a mapping from file extension to MIME type
//! viewed as a `Map`, the extension of a resolved path, and the parsing
//! of a whitespace-separated `extension=mime` list.

use vstd::prelude::*;

use crate::bytes::{
    count_byte, count_occurrences, find_byte, first_ix, lemma_first_ix, segments, split_segments,
    subvec, CR, DOT, EQ, LF, SLASH, SP,
};

verus! {

/// The map an association list denotes; a repeated key keeps its last
/// value.
pub open spec fn assoc_map(entries: Seq<(Seq<u8>, Seq<u8>)>) -> Map<Seq<u8>, Seq<u8>>
    decreases entries.len(),
{
    if entries.len() == 0 {
        Map::empty()
    } else {
        assoc_map(entries.drop_last()).insert(entries.last().0, entries.last().1)
    }
}

/// A mapping from file extension (without its leading dot) to MIME type,
/// viewed as a `Map`; a key inserted again keeps its newest value.
pub struct ContentTypes {
    entries: Vec<(Vec<u8>, Vec<u8>)>,
}

impl View for ContentTypes {
    type V = Map<Seq<u8>, Seq<u8>>;

    closed spec fn view(&self) -> Map<Seq<u8>, Seq<u8>> {
        assoc_map(self.entries.deep_view())
    }
}

impl ContentTypes {
    /// An empty table.
    pub fn new() -> (r: ContentTypes)
        ensures
            r@ == Map::<Seq<u8>, Seq<u8>>::empty(),
    {
        ContentTypes { entries: Vec::new() }
    }

    /// Maps `ext` to `mime`, replacing what `ext` was mapped to before.
    pub fn insert(&mut self, ext: Vec<u8>, mime: Vec<u8>)
        ensures
            final(self)@ == old(self)@.insert(ext@, mime@),
    {
        let ghost prev = self.entries.deep_view();
        let ghost gext = ext@;
        let ghost gmime = mime@;
        self.entries.push((ext, mime));
        proof {
            assert(self.entries.deep_view() =~~= prev.push((gext, gmime)));
            assert(prev.push((gext, gmime)).drop_last() =~~= prev);
        }
    }

    /// What `ext` is mapped to, if anything: the newest insertion for it.
    pub fn get(&self, ext: &Vec<u8>) -> (r: Option<&Vec<u8>>)
        ensures
            match r {
                Some(m) => self@.contains_key(ext@) && m@ == self@[ext@],
                None => !self@.contains_key(ext@),
            },
    {
        let ghost dv = self.entries.deep_view();
        let mut i: usize = self.entries.len();
        while i > 0
            invariant
                i <= self.entries@.len(),
                dv == self.entries.deep_view(),
                forall|j: int| i <= j < dv.len() ==> dv[j].0 != ext@,
            decreases i,
        {
            i -= 1;
            proof {
                assert(dv[i as int] == (self.entries@[i as int].0@, self.entries@[i as int].1@));
            }
            if crate::bytes::eq_bytes(&self.entries[i].0, ext) {
                proof {
                    lemma_assoc_last_match(dv, i as int);
                }
                return Some(&self.entries[i].1);
            }
        }
        proof {
            lemma_assoc_absent(dv, ext@);
        }
        None
    }

    /// A copy of the table, denoting the same mapping.
    pub fn duplicate(&self) -> (r: ContentTypes)
        ensures
            r@ == self@,
    {
        let mut entries: Vec<(Vec<u8>, Vec<u8>)> = Vec::new();
        let n = self.entries.len();
        let mut i: usize = 0;
        while i < n
            invariant
                i <= n,
                n == self.entries@.len(),
                entries.deep_view() =~~= self.entries.deep_view().take(i as int),
            decreases n - i,
        {
            let ghost prev = entries.deep_view();
            let k = subvec(&self.entries[i].0, 0, self.entries[i].0.len());
            let v = subvec(&self.entries[i].1, 0, self.entries[i].1.len());
            proof {
                assert(k@ =~= self.entries@[i as int].0@);
                assert(v@ =~= self.entries@[i as int].1@);
            }
            let ghost gk = k@;
            let ghost gv = v@;
            entries.push((k, v));
            proof {
                assert(entries.deep_view() =~~= prev.push((gk, gv)));
                assert(entries.deep_view() =~~= self.entries.deep_view().take(i + 1));
            }
            i += 1;
        }
        proof {
            assert(entries.deep_view() =~~= self.entries.deep_view());
        }
        ContentTypes { entries }
    }
}

/// The newest entry for a key gives the denoted map's value at it.
proof fn lemma_assoc_last_match(entries: Seq<(Seq<u8>, Seq<u8>)>, i: int)
    requires
        0 <= i < entries.len(),
        forall|j: int| i < j < entries.len() ==> entries[j].0 != entries[i].0,
    ensures
        assoc_map(entries).contains_key(entries[i].0),
        assoc_map(entries)[entries[i].0] == entries[i].1,
    decreases entries.len(),
{
    if i < entries.len() - 1 {
        assert(entries.drop_last()[i] == entries[i]);
        lemma_assoc_last_match(entries.drop_last(), i);
    }
}

/// A key no entry has is absent from the denoted map.
proof fn lemma_assoc_absent(entries: Seq<(Seq<u8>, Seq<u8>)>, key: Seq<u8>)
    requires
        forall|j: int| 0 <= j < entries.len() ==> entries[j].0 != key,
    ensures
        !assoc_map(entries).contains_key(key),
    decreases entries.len(),
{
    if entries.len() > 0 {
        assert(forall|j: int|
            0 <= j < entries.drop_last().len() ==> entries.drop_last()[j].0 != key);
        lemma_assoc_absent(entries.drop_last(), key);
    }
}

/// The greatest index at which `b` occurs in `s`, or `-1` if it does not.
pub open spec fn last_ix(s: Seq<u8>, b: u8) -> int
    decreases s.len(),
{
    if s.len() == 0 {
        -1
    } else if s.last() == b {
        s.len() - 1
    } else {
        last_ix(s.drop_last(), b)
    }
}

pub proof fn lemma_last_ix(s: Seq<u8>, b: u8)
    ensures
        -1 <= last_ix(s, b) < s.len(),
        last_ix(s, b) >= 0 ==> s[last_ix(s, b)] == b,
        forall|j: int| last_ix(s, b) < j < s.len() ==> s[j] != b,
    decreases s.len(),
{
    if s.len() > 0 && s.last() != b {
        lemma_last_ix(s.drop_last(), b);
        assert forall|j: int| last_ix(s, b) < j < s.len() implies s[j] != b by {
            if j < s.len() - 1 {
                assert(s.drop_last()[j] == s[j]);
            }
        }
    }
}

/// The final path component of `p`: what follows its last separator.
pub open spec fn file_name_of(p: Seq<u8>) -> Seq<u8> {
    p.subrange(last_ix(p, SLASH) + 1, p.len() as int)
}

/// The extension of `p`'s file name, without its dot: what follows the
/// last dot, unless the only dot starts the name (a hidden file) or there
/// is none.
pub open spec fn extension_spec(p: Seq<u8>) -> Option<Seq<u8>> {
    let name = file_name_of(p);
    let d = last_ix(name, DOT);
    if d <= 0 {
        None
    } else {
        Some(name.subrange(d + 1, name.len() as int))
    }
}

/// ASCII horizontal tab.
pub const TAB: u8 = 9;

/// ASCII vertical tab.
pub const VTAB: u8 = 11;

/// ASCII form feed.
pub const FF: u8 = 12;

/// An ASCII whitespace byte, as understood when splitting a configured
/// `extension=mime` list.
pub open spec fn is_ws(b: u8) -> bool {
    b == SP || b == TAB || b == LF || b == VTAB || b == FF || b == CR
}

/// `s` with every whitespace byte replaced by a plain space, so that one
/// separator byte delimits the tokens.
pub open spec fn normalize_ws(s: Seq<u8>) -> Seq<u8> {
    s.map(|_i: int, b: u8| if is_ws(b) { SP } else { b })
}

/// The whitespace-separated tokens of `s`.
pub open spec fn tokens_of(s: Seq<u8>) -> Seq<Seq<u8>> {
    segments(normalize_ws(s), SP)
}

/// A usable token holds exactly one equals sign.
pub open spec fn token_valid(t: Seq<u8>) -> bool {
    count_byte(t, EQ) == 1
}

/// The extension a token configures: what precedes its equals sign.
pub open spec fn ext_of(t: Seq<u8>) -> Seq<u8> {
    t.take(first_ix(t, EQ, 0))
}

/// The MIME type a token configures: what follows its equals sign.
pub open spec fn mime_of(t: Seq<u8>) -> Seq<u8> {
    t.subrange(first_ix(t, EQ, 0) + 1, t.len() as int)
}

/// The table a token list configures, later tokens winning.
pub open spec fn table_of(toks: Seq<Seq<u8>>) -> Map<Seq<u8>, Seq<u8>>
    decreases toks.len(),
{
    if toks.len() == 0 {
        Map::empty()
    } else {
        table_of(toks.drop_last()).insert(ext_of(toks.last()), mime_of(toks.last()))
    }
}

/// Why a configured `extension=mime` list was rejected.
pub enum ConfigError {
    /// The named token holds no equals sign.
    NoEquals(Vec<u8>),
    /// The named token holds more than one equals sign.
    TooManyEquals(Vec<u8>),
}

/// `count_byte` is zero exactly when no position holds the byte.
proof fn lemma_count_zero(s: Seq<u8>, b: u8)
    ensures
        (count_byte(s, b) == 0) <==> (forall|j: int| 0 <= j < s.len() ==> s[j] != b),
    decreases s.len(),
{
    if s.len() > 0 {
        lemma_count_zero(s.drop_last(), b);
        if count_byte(s, b) == 0 {
            assert forall|j: int| 0 <= j < s.len() implies s[j] != b by {
                if j < s.len() - 1 {
                    assert(s.drop_last()[j] == s[j]);
                }
            }
        } else {
            if forall|j: int| 0 <= j < s.len() ==> s[j] != b {
                assert(forall|j: int|
                    0 <= j < s.drop_last().len() ==> s.drop_last()[j] == s[j]);
                assert(count_byte(s.drop_last(), b) == 0);
                assert(s.last() != b);
            }
        }
    }
}

/// Replaces every whitespace byte of `s` with a plain space.
fn normalize_whitespace(s: &Vec<u8>) -> (r: Vec<u8>)
    ensures
        r@ == normalize_ws(s@),
{
    let mut r: Vec<u8> = Vec::new();
    let n = s.len();
    let mut i: usize = 0;
    while i < n
        invariant
            i <= n,
            n == s@.len(),
            r@ =~= normalize_ws(s@).take(i as int),
        decreases n - i,
    {
        let b = s[i];
        if b == SP || b == TAB || b == LF || b == VTAB || b == FF || b == CR {
            r.push(SP);
        } else {
            r.push(b);
        }
        proof {
            assert(r@ =~= normalize_ws(s@).take(i + 1));
        }
        i += 1;
    }
    proof {
        assert(normalize_ws(s@).take(n as int) =~= normalize_ws(s@));
    }
    r
}

/// Parses a whitespace-separated `extension=mime` list into a table,
/// later tokens winning; the first token without exactly one equals sign
/// is rejected.
#[verifier::loop_isolation(false)]
pub fn parse_content_types(s: &Vec<u8>) -> (r: Result<ContentTypes, ConfigError>)
    ensures
        ({
            let toks = tokens_of(s@);
            match r {
                Ok(t) => (forall|k: int|
                    0 <= k < toks.len() ==> token_valid(#[trigger] toks[k])) && t@ == table_of(
                    toks,
                ),
                Err(ConfigError::NoEquals(v)) => exists|k: int|
                    0 <= k < toks.len() && #[trigger] toks[k] == v@ && count_byte(toks[k], EQ) == 0
                        && (forall|l: int| 0 <= l < k ==> token_valid(#[trigger] toks[l])),
                Err(ConfigError::TooManyEquals(v)) => exists|k: int|
                    0 <= k < toks.len() && #[trigger] toks[k] == v@ && count_byte(toks[k], EQ) >= 2
                        && (forall|l: int| 0 <= l < k ==> token_valid(#[trigger] toks[l])),
            }
        }),
{
    let norm = normalize_whitespace(s);
    let toks = split_segments(&norm, SP);
    let ghost gtoks = tokens_of(s@);
    proof {
        assert(toks.deep_view() == gtoks);
    }
    let mut t = ContentTypes::new();
    let m = toks.len();
    let mut k: usize = 0;
    while k < m
        invariant
            k <= m,
            m == toks@.len(),
            t@ == table_of(gtoks.take(k as int)),
            forall|l: int| 0 <= l < k ==> token_valid(#[trigger] gtoks[l]),
        decreases m - k,
    {
        proof {
            assert(toks.deep_view()[k as int] =~= toks@[k as int]@);
        }
        let tok = &toks[k];
        let cnt = count_occurrences(tok, EQ);
        if cnt == 0 {
            return Result::Err(ConfigError::NoEquals(subvec(tok, 0, tok.len())));
        }
        if cnt > 1 {
            return Result::Err(ConfigError::TooManyEquals(subvec(tok, 0, tok.len())));
        }
        let tl = tok.len();
        let ix = find_byte(tok, EQ, 0);
        proof {
            lemma_first_ix(tok@, EQ, 0);
            assert(ix < tl) by {
                if ix == tok@.len() {
                    lemma_count_zero(tok@, EQ);
                }
            }
        }
        let ext = subvec(tok, 0, ix);
        let mime = subvec(tok, ix + 1, tl);
        proof {
            assert(ext@ == ext_of(gtoks[k as int]));
            assert(mime@ == mime_of(gtoks[k as int]));
        }
        t.insert(ext, mime);
        proof {
            assert(gtoks.take(k + 1).drop_last() =~= gtoks.take(k as int));
            assert(gtoks.take(k + 1).last() == gtoks[k as int]);
        }
        k += 1;
    }
    proof {
        assert(gtoks.take(m as int) =~= gtoks);
    }
    Result::Ok(t)
}

/// Finds the last occurrence of `b` in `s`.
pub fn rfind_byte(s: &Vec<u8>, b: u8) -> (r: Option<usize>)
    ensures
        match r {
            Some(i) => last_ix(s@, b) == i,
            None => last_ix(s@, b) == -1,
        },
{
    let mut i: usize = s.len();
    proof {
        assert(s@.take(s@.len() as int) =~= s@);
    }
    while i > 0
        invariant
            i <= s@.len(),
            last_ix(s@, b) == last_ix(s@.take(i as int), b),
        decreases i,
    {
        i -= 1;
        proof {
            assert(s@.take(i + 1).drop_last() =~= s@.take(i as int));
            assert(s@.take(i + 1).last() == s@[i as int]);
        }
        if s[i] == b {
            return Some(i);
        }
    }
    proof {
        assert(s@.take(0) =~= Seq::<u8>::empty());
    }
    None
}

/// The extension of the file `p` names, if it has one.
pub fn extension_of(p: &Vec<u8>) -> (r: Option<Vec<u8>>)
    ensures
        match r {
            Some(e) => extension_spec(p@) == Some(e@),
            None => extension_spec(p@) == None::<Seq<u8>>,
        },
{
    proof {
        lemma_last_ix(p@, SLASH);
    }
    let n = p.len();
    let start = match rfind_byte(p, SLASH) {
        Some(i) => {
            proof {
                assert(i < n);
            }
            i + 1
        },
        None => 0,
    };
    let name = subvec(p, start, p.len());
    proof {
        assert(name@ == file_name_of(p@));
    }
    match rfind_byte(&name, DOT) {
        None => None,
        Some(d) => {
            if d == 0 {
                None
            } else {
                proof {
                    lemma_last_ix(name@, DOT);
                }
                Some(subvec(&name, d + 1, name.len()))
            }
        },
    }
}

} // verus!
