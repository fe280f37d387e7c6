//! Path resolution and the containment check: a candidate is joined onto
//! the canonical served root, canonicalized against the real file system,
//! and accepted only if the canonical result still lies under the root,
//! compared component by component.

use vstd::prelude::*;

use crate::bytes::{eq_bytes, segments, split_segments, SLASH};
use crate::candidates::join_paths;

verus! {

/// The slash-delimited components of a path.
pub open spec fn path_components(p: Seq<u8>) -> Seq<Seq<u8>> {
    segments(p, SLASH)
}

/// `p` lies under `root`: `root`'s components are a prefix of `p`'s.
/// Component-wise comparison, not byte-prefix comparison: a root of
/// `/served` must not claim `/served-other/x`.
pub open spec fn is_contained(root: Seq<u8>, p: Seq<u8>) -> bool {
    path_components(root).is_prefix_of(path_components(p))
}

/// Relies on `dunce::realpath` (`std::fs::canonicalize` on non-Windows
/// platforms): returns the canonical, absolute form of the path with
/// symlinks and relative components resolved, or nothing when the target
/// does not exist or cannot be reached. The outcome depends on the state
/// of the file system, so nothing is assumed about the returned bytes;
/// the containment check below inspects them in verified code.
#[verifier::external_body]
fn realpath_bytes(path: &Vec<u8>) -> (r: Option<Vec<u8>>) {
    match dunce::realpath(&*String::from_utf8_lossy(path)) {
        Ok(p) => Some(p.to_string_lossy().into_owned().into_bytes()),
        Err(_) => None,
    }
}

/// Decides whether `root`'s components are a prefix of `p`'s.
#[verifier::loop_isolation(false)]
pub fn components_prefix(root: &Vec<Vec<u8>>, p: &Vec<Vec<u8>>) -> (r: bool)
    ensures
        r == root.deep_view().is_prefix_of(p.deep_view()),
{
    if root.len() > p.len() {
        return false;
    }
    let n = root.len();
    let mut i: usize = 0;
    while i < n
        invariant
            i <= n,
            n == root@.len() <= p@.len(),
            forall|j: int| 0 <= j < i ==> root.deep_view()[j] == p.deep_view()[j],
        decreases n - i,
    {
        proof {
            assert(root.deep_view()[i as int] =~= root@[i as int]@);
            assert(p.deep_view()[i as int] =~= p@[i as int]@);
        }
        if !eq_bytes(&root[i], &p[i]) {
            proof {
                assert(!root.deep_view().is_prefix_of(p.deep_view())) by {
                    if root.deep_view().is_prefix_of(p.deep_view()) {
                        assert(root.deep_view()[i as int] == p.deep_view().subrange(
                            0,
                            root.deep_view().len() as int,
                        )[i as int]);
                    }
                }
            }
            return false;
        }
        i += 1;
    }
    proof {
        assert(root.deep_view() =~= p.deep_view().subrange(0, root.deep_view().len() as int));
    }
    true
}

/// Joins `candidate` onto the canonical served root, resolves the joined
/// path against the real file system, and hands the canonical result back
/// only when it still lies under the root. A candidate that does not
/// exist, cannot be resolved, or escapes the root — through `..` segments
/// or a symlink — yields nothing.
pub fn resolve_candidate(root: &Vec<u8>, candidate: &Vec<u8>) -> (r: Option<Vec<u8>>)
    ensures
        r matches Some(p) ==> is_contained(root@, p@),
{
    let joined = join_paths(root, candidate);
    match realpath_bytes(&joined) {
        None => None,
        Some(canon) => {
            let rc = split_segments(root, SLASH);
            let cc = split_segments(&canon, SLASH);
            if components_prefix(&rc, &cc) {
                Some(canon)
            } else {
                None
            }
        },
    }
}

} // verus!
