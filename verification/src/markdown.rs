//! Markdown, as the `comrak` crate renders it.

use vstd::prelude::*;

verus! {

/// The HTML that `comrak` renders from markdown with its default options.
pub uninterp spec fn markdown_html(markdown: Seq<char>) -> Seq<char>;

/// Calls `comrak::markdown_to_html` with the default options. The result
/// is named by `markdown_html`.
#[verifier::external_body]
pub(crate) fn render_markdown(markdown: &str) -> (html: String)
    ensures
        html@ == markdown_html(markdown@),
{
    comrak::markdown_to_html(markdown, &comrak::Options::default())
}

} // verus!
