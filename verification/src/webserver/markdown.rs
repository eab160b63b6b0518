//! Markdown as the pages show it.

use vstd::prelude::*;

verus! {

/// The HTML that `comrak::markdown_to_html` makes of a Markdown text with
/// the default options.
pub uninterp spec fn markdown_html(markdown: Seq<char>) -> Seq<char>;

/// `comrak::markdown_to_html` with the default options: the same Markdown
/// always gives the same HTML.
#[verifier::external_body]
fn markdown_to_html(markdown: &str) -> (html: String)
    ensures
        html@ == markdown_html(markdown@),
{
    comrak::markdown_to_html(markdown, &comrak::Options::default())
}

/// What the filter says of a value that is no text.
pub const NOT_A_STRING: &'static str = "Value passed to markdown filter needs to be a string";

/// The filter that turns Markdown into HTML.
pub struct MarkdownFilter;

impl MarkdownFilter {
    /// The HTML of `markdown_source`, if it is a text.
    pub fn filter(markdown_source: Option<&str>) -> (html: Result<String, &'static str>)
        ensures
            match markdown_source {
                Some(markdown) => html matches Ok(rendered) && rendered@ == markdown_html(
                    markdown@,
                ),
                None => html matches Err(message) && message@ == NOT_A_STRING@,
            },
    {
        match markdown_source {
            Some(markdown) => Ok(markdown_to_html(markdown)),
            None => Err(NOT_A_STRING),
        }
    }

    /// The HTML that the filter makes is put into a page as it is.
    pub fn is_safe() -> (safe: bool)
        ensures
            safe,
    {
        true
    }
}

} // verus!
