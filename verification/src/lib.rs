//! A low-level parser for JavaDoc-style doc comments.
//!
//! The input must be exactly one comment, from the `/**` open marker to the
//! `*/` close marker.  A successful parse yields a [`ast::DocComment`]: an
//! optional free-form description followed by the block tags in source
//! order, each body an alternation of literal text segments and `{@name
//! ...}` inline tags.  The crate is agnostic about which tag names are
//! meaningful, so higher-level vocabularies can be built on top of it.
//!
//! All textual fields of the tree borrow from the input buffer; nothing is
//! copied.  The grammar itself is stated mathematically in [`grammar`], and
//! every parser is proved to return exactly what those definitions describe,
//! on success and on failure alike.

#![allow(unused_imports)]

use vstd::prelude::*;

pub mod ast;
pub mod chars;
pub mod error;
pub mod grammar;
pub mod laws;
pub mod parsers;
pub mod render;
pub mod trace;

use ast::DocComment;
use error::Error;

verus! {

/// Parses `input` into the [`DocComment`] tree it describes.
///
/// Succeeds exactly on the inputs that the grammar accepts
/// ([`grammar::sp_parse`]), returning the tree whose model that function
/// gives.  On any other input it returns an [`Error`] carrying the rendered
/// diagnostic of the failing rule stack, and no partial tree.
pub fn parse<'a>(input: &'a str) -> (r: Result<DocComment<'a>, Error>)
    ensures
        match r {
            Ok(doc) => grammar::sp_parse(input@) == Some(doc@),
            Err(e) => grammar::sp_parse(input@) is None && e@ == render::render_trace(
                input@,
                grammar::sp_doc_comment_trace(input@),
            ),
        },
{
    match parsers::doc_comment(input) {
        Ok((_, doc)) => Ok(doc),
        Err(tr) => {
            proof {
                grammar::lemma_doc_trace_entries(input@);
            }
            let msg = render::render(input, &tr);
            Err(Error::ParseError(msg))
        },
    }
}

} // verus!
