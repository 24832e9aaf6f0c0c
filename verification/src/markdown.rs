//! Rendering of markdown to HTML.

pub mod cache;
pub mod commonmark;
pub mod pandoc;

pub use commonmark::CommonMarkParser;
pub use pandoc::PandocParser;

use vstd::prelude::*;

verus! {

/// The renderers that can be chosen.
#[derive(Clone, Copy, Debug, PartialEq, Eq, PartialOrd, Ord, Structural)]
pub enum ParserType {
    CommonMark,
    Pandoc,
}

/// Something that turns markdown into HTML.
pub trait MarkdownParser {
    /// The parser's own state is consistent. A parser that says nothing
    /// else always is.
    open spec fn valid(&self) -> bool {
        true
    }

    /// `html` is a rendering of `markdown` that this parser may return. Of
    /// a parser that says nothing else, any text is.
    open spec fn renders(&self, markdown: Seq<char>, html: Seq<char>) -> bool {
        true
    }

    /// Returns HTML parsed from the input `markdown`.
    fn parse_to_html(&mut self, markdown: &str) -> (html: String)
        requires
            old(self).valid(),
        ensures
            final(self).valid(),
            old(self).renders(markdown@, html@),
    ;
}

} // verus!
