//! The validated configuration the core works from: index entries,
//! not-found entries and the content-type table, with the documented
//! defaults.

use vstd::prelude::*;

use crate::bytes::{ascii_bytes, lit_bytes};
use crate::candidates::Entry;
use crate::content_types::ContentTypes;

verus! {

/// What the core needs to answer requests: the ordered index entries for
/// directory-style requests, the ordered not-found entries, and the
/// content-type table. The endpoint and the served directory stay with
/// the surrounding binary.
pub struct Configuration {
    /// Tried in order for a directory-style request.
    pub index: Vec<Entry>,
    /// Tried in order when no primary candidate resolves.
    pub e404: Vec<Entry>,
    /// Maps file extensions to MIME types.
    pub content_types: ContentTypes,
}

/// The default content-type table.
pub open spec fn default_content_types() -> Map<Seq<u8>, Seq<u8>> {
    Map::empty().insert(ascii_bytes("html"@), ascii_bytes("text/html"@)).insert(
        ascii_bytes("css"@),
        ascii_bytes("text/css"@),
    ).insert(ascii_bytes("js"@), ascii_bytes("text/javascript"@)).insert(
        ascii_bytes("wasm"@),
        ascii_bytes("application/wasm"@),
    )
}

impl Default for Configuration {
    /// One dot-relative index entry `index.html`, no not-found entries,
    /// and the default content-type table.
    fn default() -> (r: Configuration)
        ensures
            r.index@.len() == 1,
            r.index@[0].dot_relative,
            r.index@[0].path@ == ascii_bytes("index.html"@),
            r.e404@.len() == 0,
            r.content_types@ == default_content_types(),
    {
        proof {
            reveal_strlit("index.html");
            reveal_strlit("html");
            reveal_strlit("text/html");
            reveal_strlit("css");
            reveal_strlit("text/css");
            reveal_strlit("js");
            reveal_strlit("text/javascript");
            reveal_strlit("wasm");
            reveal_strlit("application/wasm");
        }
        let mut index: Vec<Entry> = Vec::new();
        index.push(Entry { dot_relative: true, path: lit_bytes("index.html") });
        let mut content_types = ContentTypes::new();
        content_types.insert(lit_bytes("html"), lit_bytes("text/html"));
        content_types.insert(lit_bytes("css"), lit_bytes("text/css"));
        content_types.insert(lit_bytes("js"), lit_bytes("text/javascript"));
        content_types.insert(lit_bytes("wasm"), lit_bytes("application/wasm"));
        Configuration { index, e404: Vec::new(), content_types }
    }
}

} // verus!
