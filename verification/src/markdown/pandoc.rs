//! The pandoc renderer: what is handed to the `pandoc` program, and what
//! becomes of its answer. Running the program is left to the caller.

use vstd::prelude::*;
use vstd::string::StringExecFns;

verus! {

/// The arguments that `pandoc` is started with: markdown in on standard
/// input, HTML 5 out on standard output.
pub open spec fn pandoc_arguments() -> Seq<Seq<char>> {
    seq!["-f"@, "markdown"@, "-t"@, "html5"@, "-"@, "-o"@, "-"@]
}

/// The text returned in place of a rendering when pandoc could not be run or
/// its output could not be read.
pub open spec fn pandoc_failure() -> Seq<char> {
    "Parsing markdown with pandoc failed"@
}

/// Renders markdown by running pandoc.
pub struct PandocParser {}

impl Default for PandocParser {
    fn default() -> (parser: Self)
        ensures
            parser == (PandocParser {  }),
    {
        PandocParser {  }
    }
}

impl PandocParser {
    /// The name of the program to run.
    pub fn program(&self) -> (name: String)
        ensures
            name@ == "pandoc"@,
    {
        String::from_str("pandoc")
    }

    /// The arguments to run it with.
    pub fn arguments(&self) -> (args: Vec<String>)
        ensures
            crate::text::texts(args@) == pandoc_arguments(),
    {
        let mut args: Vec<String> = Vec::new();
        args.push(String::from_str("-f"));
        args.push(String::from_str("markdown"));
        args.push(String::from_str("-t"));
        args.push(String::from_str("html5"));
        args.push(String::from_str("-"));
        args.push(String::from_str("-o"));
        args.push(String::from_str("-"));
        args
    }

    /// The rendering, given what the run produced: its output, or the
    /// failure text where there is none.
    pub fn finish(&self, output: Option<String>) -> (html: String)
        ensures
            html@ == match output {
                Some(text) => text@,
                None => pandoc_failure(),
            },
    {
        match output {
            Some(text) => text,
            None => String::from_str("Parsing markdown with pandoc failed"),
        }
    }
}

} // verus!
