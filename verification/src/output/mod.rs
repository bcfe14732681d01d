//! The report formats and the parts of the reports that the library builds.

use vstd::prelude::*;
use crate::text::text_eq;

pub mod markdown;
pub mod pretty;

verus! {

/// The formats a report can be written in.
#[derive(Clone, Copy, PartialEq, Eq, Debug)]
pub enum OutputFormat {
    Json,
    Pretty,
    Markdown,
}

/// The format that `name` selects: `json`, `pretty`, and Markdown for any
/// other name.
pub fn select_format(name: &str) -> (r: OutputFormat)
    ensures
        name@ == "json"@ ==> r == OutputFormat::Json,
        name@ == "pretty"@ ==> r == OutputFormat::Pretty,
        name@ != "json"@ && name@ != "pretty"@ ==> r == OutputFormat::Markdown,
{
    proof {
        reveal_strlit("json");
        reveal_strlit("pretty");
        assert("json"@.len() != "pretty"@.len());
    }
    if text_eq(name, "json") {
        OutputFormat::Json
    } else if text_eq(name, "pretty") {
        OutputFormat::Pretty
    } else {
        OutputFormat::Markdown
    }
}

} // verus!
