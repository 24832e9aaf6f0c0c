//! The CommonMark renderer.

use crate::markdown::MarkdownParser;
use vstd::prelude::*;

verus! {

/// The HTML that pulldown-cmark writes for `markdown` with the given
/// extensions switched on or off.
pub uninterp spec fn commonmark_html(
    markdown: Seq<char>,
    tables: bool,
    footnotes: bool,
    strikethrough: bool,
) -> Seq<char>;

/// Extensions to CommonMark that a rendering may use.
#[derive(Clone, Copy, Debug, PartialEq, Eq, Structural)]
pub struct MarkdownOptions {
    pub tables: bool,
    pub footnotes: bool,
    pub strikethrough: bool,
}

/// Runs pulldown-cmark's `Parser::new_ext` on `markdown`, with the three
/// extensions set as given and every other one off, and collects what
/// `html::push_html` writes for it into a fresh string. The contract claims
/// only that this text depends on the four arguments alone.
#[verifier::external_body]
fn render_commonmark(markdown: &str, tables: bool, footnotes: bool, strikethrough: bool) -> (html:
    String)
    ensures
        html@ == commonmark_html(markdown@, tables, footnotes, strikethrough),
{
    let mut options = pulldown_cmark::Options::empty();
    options.set(pulldown_cmark::Options::ENABLE_TABLES, tables);
    options.set(pulldown_cmark::Options::ENABLE_FOOTNOTES, footnotes);
    options.set(pulldown_cmark::Options::ENABLE_STRIKETHROUGH, strikethrough);
    let mut html = String::new();
    pulldown_cmark::html::push_html(&mut html, pulldown_cmark::Parser::new_ext(markdown, options));
    html
}

/// What `CommonMarkParser` returns for `markdown`.
pub open spec fn rendered(markdown: Seq<char>) -> Seq<char> {
    commonmark_html(markdown, true, true, true)
}

/// Renders CommonMark with tables, footnotes and strikethrough.
pub struct CommonMarkParser {}

impl CommonMarkParser {
    /// The extensions this parser renders with.
    pub fn create_options() -> (options: MarkdownOptions)
        ensures
            options == (MarkdownOptions { tables: true, footnotes: true, strikethrough: true }),
    {
        MarkdownOptions { tables: true, footnotes: true, strikethrough: true }
    }
}

impl Default for CommonMarkParser {
    fn default() -> (parser: Self)
        ensures
            parser == (CommonMarkParser {  }),
    {
        CommonMarkParser {  }
    }
}

impl MarkdownParser for CommonMarkParser {
    open spec fn valid(&self) -> bool {
        true
    }

    open spec fn renders(&self, markdown: Seq<char>, html: Seq<char>) -> bool {
        html == rendered(markdown)
    }

    fn parse_to_html(&mut self, markdown: &str) -> (html: String)
        ensures
            html@ == rendered(markdown@),
            *final(self) == *old(self),
    {
        let options = Self::create_options();
        render_commonmark(markdown, options.tables, options.footnotes, options.strikethrough)
    }
}

} // verus!
