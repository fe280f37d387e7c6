//! Building the outgoing bytes: the minimal HTTP header, the full
//! response around a file body, and the two fixed responses (the
//! forbidden message for `..` requests and the bare not-found reply).

use vstd::prelude::*;

use crate::bytes::{ascii_bytes, lit_bytes};

verus! {

/// The fixed protocol token, with its trailing space.
pub open spec fn http_version_bytes() -> Seq<u8> {
    ascii_bytes("HTTP/1.0 "@)
}

/// The success status line.
pub open spec fn status_ok() -> Seq<u8> {
    ascii_bytes("200 OK"@)
}

/// The not-found status line.
pub open spec fn status_not_found() -> Seq<u8> {
    ascii_bytes("404 Not Found"@)
}

/// The header naming the content type, when one is known.
pub open spec fn content_type_prefix() -> Seq<u8> {
    ascii_bytes("\r\nContent-Type: "@)
}

/// The blank line that ends the header.
pub open spec fn header_end() -> Seq<u8> {
    ascii_bytes("\r\n\r\n"@)
}

/// The whole header for a response with the given status line and
/// optional content type.
pub open spec fn header_bytes(status: Seq<u8>, content_type: Option<Seq<u8>>) -> Seq<u8> {
    http_version_bytes() + status + (match content_type {
        Some(m) => content_type_prefix() + m,
        None => Seq::<u8>::empty(),
    }) + header_end()
}

/// A full response: the header followed, byte for byte, by the body.
pub open spec fn response_bytes(status: Seq<u8>, content_type: Option<Seq<u8>>, body: Seq<u8>) -> Seq<u8> {
    header_bytes(status, content_type) + body
}

/// The fixed response to a request whose path holds a `..` component.
pub open spec fn forbidden_bytes() -> Seq<u8> {
    ascii_bytes("HTTP/1.0 403 Forbidden\r\n\r\ndev-server doesn't support .. in URLs."@)
}

/// The bare not-found response, sent when no candidate resolved.
pub open spec fn bare_not_found_bytes() -> Seq<u8> {
    http_version_bytes() + status_not_found() + header_end()
}

/// The response body is exactly the served file's bytes: it is the suffix
/// of the response after the header.
pub proof fn lemma_response_embeds_body(status: Seq<u8>, content_type: Option<Seq<u8>>, body: Seq<u8>)
    ensures
        response_bytes(status, content_type, body).skip(
            header_bytes(status, content_type).len() as int,
        ) =~= body,
        response_bytes(status, content_type, body).len() == header_bytes(status, content_type).len()
            + body.len(),
{
}

/// Appends all of `src` to `dst`.
pub fn append_bytes(dst: &mut Vec<u8>, src: &Vec<u8>)
    ensures
        final(dst)@ == old(dst)@ + src@,
{
    let mut i: usize = 0;
    while i < src.len()
        invariant
            i <= src@.len(),
            dst@ == old(dst)@ + src@.take(i as int),
        decreases src@.len() - i,
    {
        dst.push(src[i]);
        proof {
            assert(old(dst)@ + src@.take(i as int) + seq![src@[i as int]] =~= old(dst)@
                + src@.take(i + 1));
        }
        i += 1;
    }
    proof {
        assert(src@.take(src@.len() as int) =~= src@);
    }
}

/// The success status line, as bytes.
pub fn status_line_ok() -> (r: Vec<u8>)
    ensures
        r@ == status_ok(),
{
    proof {
        reveal_strlit("200 OK");
    }
    lit_bytes("200 OK")
}

/// The not-found status line, as bytes.
pub fn status_line_not_found() -> (r: Vec<u8>)
    ensures
        r@ == status_not_found(),
{
    proof {
        reveal_strlit("404 Not Found");
    }
    lit_bytes("404 Not Found")
}

/// Builds a full response: protocol token, status line, the content-type
/// header when one is given, a blank line, then the body.
pub fn build_response(status: &Vec<u8>, content_type: Option<&Vec<u8>>, body: &Vec<u8>) -> (r: Vec<u8>)
    ensures
        r@ == response_bytes(
            status@,
            match content_type {
                Some(m) => Some(m@),
                None => None,
            },
            body@,
        ),
{
    proof {
        reveal_strlit("HTTP/1.0 ");
        reveal_strlit("\r\nContent-Type: ");
        reveal_strlit("\r\n\r\n");
    }
    let mut r = lit_bytes("HTTP/1.0 ");
    append_bytes(&mut r, status);
    if let Some(mime) = content_type {
        let prefix = lit_bytes("\r\nContent-Type: ");
        append_bytes(&mut r, &prefix);
        append_bytes(&mut r, mime);
    }
    let end = lit_bytes("\r\n\r\n");
    append_bytes(&mut r, &end);
    append_bytes(&mut r, body);
    r
}

/// The fixed forbidden response, for a request with a `..` component.
pub fn forbidden_response() -> (r: Vec<u8>)
    ensures
        r@ == forbidden_bytes(),
{
    proof {
        reveal_strlit("HTTP/1.0 403 Forbidden\r\n\r\ndev-server doesn't support .. in URLs.");
    }
    lit_bytes("HTTP/1.0 403 Forbidden\r\n\r\ndev-server doesn't support .. in URLs.")
}

/// The bare not-found response, with an empty body.
pub fn bare_not_found_response() -> (r: Vec<u8>)
    ensures
        r@ == bare_not_found_bytes(),
{
    proof {
        reveal_strlit("HTTP/1.0 ");
        reveal_strlit("404 Not Found");
        reveal_strlit("\r\n\r\n");
    }
    let mut r = lit_bytes("HTTP/1.0 ");
    let status = lit_bytes("404 Not Found");
    append_bytes(&mut r, &status);
    let end = lit_bytes("\r\n\r\n");
    append_bytes(&mut r, &end);
    r
}

} // verus!
