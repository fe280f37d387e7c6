//! Parsing and validation of one raw request line: method and path token
//! extraction, the absolute-path checks, and the rejection of `..` path
//! components before any filesystem work happens.

use vstd::prelude::*;

use crate::bytes::{find_byte, first_ix, lemma_first_ix, segments, split_segments, subvec, CR, DOT, LF, SLASH, SP, UPPER_E, UPPER_G, UPPER_T};

verus! {

/// A byte that ends a request line.
pub open spec fn is_terminator(b: u8) -> bool {
    b == CR || b == LF
}

/// The raw line was properly ended by a carriage return or line feed;
/// anything else means the connection closed mid-line.
pub open spec fn line_terminated(line: Seq<u8>) -> bool {
    line.len() > 0 && is_terminator(line.last())
}

/// The line without its terminator byte.
pub open spec fn content_of(line: Seq<u8>) -> Seq<u8> {
    line.drop_last()
}

/// The only serviced method.
pub open spec fn get_token() -> Seq<u8> {
    seq![UPPER_G, UPPER_E, UPPER_T]
}

/// The bytes before the first space: the method token.
pub open spec fn method_token(c: Seq<u8>) -> Seq<u8> {
    c.take(first_ix(c, SP, 0))
}

/// Whether a path token follows the method token.
pub open spec fn has_path_token(c: Seq<u8>) -> bool {
    first_ix(c, SP, 0) < c.len()
}

/// The bytes between the first space and the following space or line end:
/// the path token.
pub open spec fn path_token(c: Seq<u8>) -> Seq<u8>
    recommends
        has_path_token(c),
{
    let i = first_ix(c, SP, 0);
    c.subrange(i + 1, first_ix(c, SP, i + 1))
}

/// The request path names the server root: it starts with a slash.
pub open spec fn starts_slash(p: Seq<u8>) -> bool {
    p.len() > 0 && p[0] == SLASH
}

/// A directory-style request: the path token ends with a slash.
pub open spec fn is_dir_request(p: Seq<u8>) -> bool {
    p.len() > 0 && p.last() == SLASH
}

/// The path relative to the served root: the path token without its
/// leading slash.
pub open spec fn rel_of(p: Seq<u8>) -> Seq<u8> {
    p.skip(1)
}

/// Still root-anchored after stripping the leading slash: the token began
/// with two slashes.
pub open spec fn root_anchored(r: Seq<u8>) -> bool {
    r.len() > 0 && r[0] == SLASH
}

/// The parent-directory path component.
pub open spec fn dot_dot() -> Seq<u8> {
    seq![DOT, DOT]
}

/// Some slash-delimited component of `r` is literally `..`.
pub open spec fn has_dotdot(r: Seq<u8>) -> bool {
    segments(r, SLASH).contains(dot_dot())
}

/// Why a request line was dropped without a response.
#[derive(Clone, Copy, PartialEq, Eq, Structural, Debug)]
pub enum RequestError {
    /// The connection closed before a line terminator was seen.
    Truncated,
    /// No path token follows the method token.
    MissingPath,
    /// The path token does not start with a slash.
    NotAbsolute,
    /// The path token started with two slashes, so the stripped path would
    /// still be root-anchored.
    RootAnchored,
}

/// What one request line asks for.
pub enum ParseOutcome {
    /// A method other than GET: close the connection without a response.
    Ignore,
    /// A malformed line: close the connection and surface the error.
    Fail(RequestError),
    /// A `..` component: answer with the fixed forbidden response.
    Forbidden,
    /// A well-formed GET: serve `rel`, as a directory listing request if
    /// `is_dir`.
    Request { rel: Vec<u8>, is_dir: bool },
}

/// Parses one raw request line into what it asks for.
#[verifier::loop_isolation(false)]
pub fn parse_request_line(line: &Vec<u8>) -> (r: ParseOutcome)
    ensures
        ({
            let c = content_of(line@);
            if !line_terminated(line@) {
                r == ParseOutcome::Fail(RequestError::Truncated)
            } else if method_token(c) != get_token() {
                r == ParseOutcome::Ignore
            } else if !has_path_token(c) {
                r == ParseOutcome::Fail(RequestError::MissingPath)
            } else {
                let p = path_token(c);
                if !starts_slash(p) {
                    r == ParseOutcome::Fail(RequestError::NotAbsolute)
                } else if root_anchored(rel_of(p)) {
                    r == ParseOutcome::Fail(RequestError::RootAnchored)
                } else if has_dotdot(rel_of(p)) {
                    r == ParseOutcome::Forbidden
                } else {
                    r matches ParseOutcome::Request { rel, is_dir } && rel@ == rel_of(p)
                        && is_dir == is_dir_request(p)
                }
            }
        }),
{
    let n = line.len();
    if n == 0 {
        return ParseOutcome::Fail(RequestError::Truncated);
    }
    let last = line[n - 1];
    if last != CR && last != LF {
        return ParseOutcome::Fail(RequestError::Truncated);
    }
    let content = subvec(line, 0, n - 1);
    proof {
        assert(content@ =~= content_of(line@));
        lemma_first_ix(content@, SP, 0);
    }
    let i = find_byte(&content, SP, 0);
    let method = subvec(&content, 0, i);
    let is_get = method.len() == 3 && method[0] == UPPER_G && method[1] == UPPER_E && method[2] == UPPER_T;
    proof {
        assert(method@ == method_token(content@));
        if is_get {
            assert(method@ =~= get_token());
        } else {
            assert(method@ != get_token()) by {
                if method@ == get_token() {
                    assert(method@.len() == 3);
                    assert(method@[0] == UPPER_G && method@[1] == UPPER_E && method@[2] == UPPER_T);
                }
            }
        }
    }
    if !is_get {
        return ParseOutcome::Ignore;
    }
    if i >= content.len() {
        return ParseOutcome::Fail(RequestError::MissingPath);
    }
    proof {
        lemma_first_ix(content@, SP, i + 1);
    }
    let j = find_byte(&content, SP, i + 1);
    let p = subvec(&content, i + 1, j);
    proof {
        assert(p@ == path_token(content@));
    }
    if p.len() == 0 || p[0] != SLASH {
        return ParseOutcome::Fail(RequestError::NotAbsolute);
    }
    let is_dir = p[p.len() - 1] == SLASH;
    let rel = subvec(&p, 1, p.len());
    proof {
        assert(rel@ =~= rel_of(p@));
    }
    if rel.len() > 0 && rel[0] == SLASH {
        return ParseOutcome::Fail(RequestError::RootAnchored);
    }
    let comps = split_segments(&rel, SLASH);
    let m = comps.len();
    let mut k: usize = 0;
    while k < m
        invariant
            k <= m,
            m == comps@.len(),
            comps.deep_view() == segments(rel@, SLASH),
            forall|l: int| 0 <= l < k ==> comps.deep_view()[l] != dot_dot(),
        decreases m - k,
    {
        let is_dd = comps[k].len() == 2 && comps[k][0] == DOT && comps[k][1] == DOT;
        proof {
            assert(comps.deep_view()[k as int] =~= comps@[k as int]@);
            if is_dd {
                assert(comps@[k as int]@ =~= dot_dot());
            } else {
                assert(comps@[k as int]@ != dot_dot()) by {
                    if comps@[k as int]@ == dot_dot() {
                        assert(comps@[k as int]@.len() == 2);
                        assert(comps@[k as int]@[0] == DOT && comps@[k as int]@[1] == DOT);
                    }
                }
            }
        }
        if is_dd {
            proof {
                assert(segments(rel@, SLASH).contains(dot_dot())) by {
                    assert(segments(rel@, SLASH)[k as int] == dot_dot());
                }
            }
            return ParseOutcome::Forbidden;
        }
        k += 1;
    }
    proof {
        assert(!has_dotdot(rel@)) by {
            if segments(rel@, SLASH).contains(dot_dot()) {
                let l = choose|l: int|
                    0 <= l < segments(rel@, SLASH).len() && segments(rel@, SLASH)[l] == dot_dot();
                assert(comps.deep_view()[l] == dot_dot());
            }
        }
    }
    ParseOutcome::Request { rel, is_dir }
}

} // verus!
