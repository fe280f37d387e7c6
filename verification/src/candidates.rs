//! Candidate selection: mapping one logical request to the ordered list of
//! relative paths to try, honouring the two addressing modes a configured
//! entry can have (relative to the served root, or relative to the
//! requested path).

use vstd::prelude::*;

use crate::bytes::SLASH;

verus! {

/// One configured index or not-found entry.
///
/// A dot-relative entry is joined onto the requested path; any other entry
/// is taken as it stands, relative to the served root.
pub struct Entry {
    /// Join this entry onto the requested path rather than the served root.
    pub dot_relative: bool,
    /// The entry's path, relative to whichever base `dot_relative` picks.
    pub path: Vec<u8>,
}

/// `a` and `b` joined with a path separator; an empty `a` and one ending
/// in a separator get no extra separator.
pub open spec fn join_rel(a: Seq<u8>, b: Seq<u8>) -> Seq<u8> {
    if a.len() == 0 {
        b
    } else if a.last() == SLASH {
        a + b
    } else {
        a + seq![SLASH] + b
    }
}

/// The candidate one entry contributes for the request path `rel`.
pub open spec fn candidate_of(rel: Seq<u8>, e: Entry) -> Seq<u8> {
    if e.dot_relative {
        join_rel(rel, e.path@)
    } else {
        e.path@
    }
}

/// The ordered candidates the configured entries contribute for `rel`,
/// one per entry, in configuration order.
pub open spec fn candidates_spec(rel: Seq<u8>, entries: Seq<Entry>) -> Seq<Seq<u8>> {
    entries.map(|_i: int, e: Entry| candidate_of(rel, e))
}

/// Candidate selection preserves configuration order: the list holds one
/// candidate per configured entry, in the entries' own order, and nothing
/// else. Ties between candidates are broken by this order alone.
pub proof fn lemma_candidates_keep_order(rel: Seq<u8>, entries: Seq<Entry>)
    ensures
        candidates_spec(rel, entries).len() == entries.len(),
        forall|i: int|
            0 <= i < entries.len() ==> candidates_spec(rel, entries)[i] == candidate_of(
                rel,
                #[trigger] entries[i],
            ),
{
}

/// Joins `a` and `b` with a path separator.
pub fn join_paths(a: &Vec<u8>, b: &Vec<u8>) -> (r: Vec<u8>)
    ensures
        r@ == join_rel(a@, b@),
{
    let mut r: Vec<u8> = Vec::new();
    crate::respond::append_bytes(&mut r, a);
    if a.len() > 0 && a[a.len() - 1] != SLASH {
        r.push(SLASH);
    }
    crate::respond::append_bytes(&mut r, b);
    proof {
        assert(r@ =~= join_rel(a@, b@));
    }
    r
}

/// The candidate one entry contributes for the request path `rel`.
pub fn join_candidate(rel: &Vec<u8>, e: &Entry) -> (r: Vec<u8>)
    ensures
        r@ == candidate_of(rel@, *e),
{
    if e.dot_relative {
        join_paths(rel, &e.path)
    } else {
        let mut r: Vec<u8> = Vec::new();
        crate::respond::append_bytes(&mut r, &e.path);
        proof {
            assert(r@ =~= e.path@);
        }
        r
    }
}

/// Builds the ordered candidate list the configured entries contribute
/// for the request path `rel`.
#[verifier::loop_isolation(false)]
pub fn build_candidates(rel: &Vec<u8>, entries: &Vec<Entry>) -> (r: Vec<Vec<u8>>)
    ensures
        r.deep_view() == candidates_spec(rel@, entries@),
{
    let mut r: Vec<Vec<u8>> = Vec::new();
    let mut i: usize = 0;
    while i < entries.len()
        invariant
            i <= entries@.len(),
            r.deep_view() =~~= candidates_spec(rel@, entries@.take(i as int)),
        decreases entries@.len() - i,
    {
        let c = join_candidate(rel, &entries[i]);
        let ghost prev = r.deep_view();
        let ghost cv = c@;
        r.push(c);
        proof {
            assert(r.deep_view() =~~= prev.push(cv));
            assert(prev.push(cv) =~~= candidates_spec(rel@, entries@.take(i + 1)));
        }
        i += 1;
    }
    proof {
        assert(entries@.take(entries@.len() as int) =~= entries@);
        assert(r.deep_view() =~~= candidates_spec(rel@, entries@));
    }
    r
}

} // verus!
