//! A parser that remembers what it rendered.

use crate::markdown::MarkdownParser;
use crate::textmap::TextMap;
use vstd::prelude::*;
use vstd::string::StringExecFns;

verus! {

/// Wraps a parser and records each rendering under its markdown.
pub struct CacheMarkdown<P: MarkdownParser> {
    markdown_parser: P,
    cache_map: TextMap<String>,
}

impl<P: MarkdownParser> CacheMarkdown<P> {
    /// The wrapped parser.
    pub closed spec fn parser(&self) -> P {
        self.markdown_parser
    }

    /// The renderings recorded so far, by markdown.
    pub closed spec fn cached(&self) -> Map<Seq<char>, Seq<char>> {
        self.cache_map.model().map_values(|html: String| html@)
    }

    /// A cache around `parser` with nothing recorded.
    pub fn new(parser: P) -> (cache: Self)
        requires
            parser.valid(),
        ensures
            cache.valid(),
            cache.parser() == parser,
            cache.cached() == Map::<Seq<char>, Seq<char>>::empty(),
    {
        CacheMarkdown { markdown_parser: parser, cache_map: TextMap::new() }
    }

    /// The rendering recorded for `markdown`.
    pub fn lookup(&self, markdown: &str) -> (r: Option<&String>)
        requires
            self.valid(),
        ensures
            match r {
                Some(html) => self.cached().contains_key(markdown@) && html@
                    == self.cached()[markdown@],
                None => !self.cached().contains_key(markdown@),
            },
    {
        self.cache_map.get(markdown)
    }
}

impl<P: MarkdownParser> MarkdownParser for CacheMarkdown<P> {
    closed spec fn valid(&self) -> bool {
        self.markdown_parser.valid() && self.cache_map.wf()
    }

    open spec fn renders(&self, markdown: Seq<char>, html: Seq<char>) -> bool {
        self.parser().renders(markdown, html)
    }

    /// Renders `markdown` with the wrapped parser and records the result.
    fn parse_to_html(&mut self, markdown: &str) -> (html: String)
        ensures
            final(self).cached() == old(self).cached().insert(markdown@, html@),
    {
        let result = self.markdown_parser.parse_to_html(markdown);
        self.cache_map.insert(String::from_str(markdown), result.clone());
        result
    }
}

} // verus!
