//! Which page a request is answered with.

use crate::text::{chars_of, find_from, first_occurrence};
use vstd::prelude::*;
use vstd::string::StringExecFns;

verus! {

/// What a request path asks for.
#[derive(Debug)]
pub enum PathLookup {
    /// No path: the blog's home.
    Home,
    /// A path that steps to a parent directory: refused.
    Rejected,
    /// A post, with the name of its file in the posts directory.
    File(String),
}

/// The page that is served.
#[derive(Clone, Copy, Debug, PartialEq, Eq, Structural)]
pub enum PageTarget {
    Home,
    NotFound,
    Post,
}

/// The path holds two dots in a row.
pub open spec fn steps_up(path: Seq<char>) -> bool {
    first_occurrence(path, seq!['.', '.'], 0) is Some
}

/// The file that a request path names. A path with `..` in it names
/// none, so that no request reaches outside the posts directory.
pub fn requested_file(path: Option<&str>) -> (r: PathLookup)
    ensures
        match path {
            None => r is Home,
            Some(p) => if steps_up(p@) {
                r is Rejected
            } else {
                r matches PathLookup::File(name) && name@ == p@ + ".md"@
            },
        },
{
    match path {
        None => PathLookup::Home,
        Some(p) => {
            let chars = chars_of(p);
            let mut dots: Vec<char> = Vec::new();
            dots.push('.');
            dots.push('.');
            assert(dots@ == seq!['.', '.']);
            match find_from(&chars, &dots, 0) {
                Some(_) => PathLookup::Rejected,
                None => PathLookup::File(p.to_owned().concat(".md")),
            }
        },
    }
}

/// The page for what was found under a path: nothing where no such file
/// is there, else the file's text. An empty text gives the home page, and
/// the text `404` the page for what is not found.
pub open spec fn page_for(found: Option<Seq<char>>) -> PageTarget {
    match found {
        None => PageTarget::NotFound,
        Some(text) => if text.len() == 0 {
            PageTarget::Home
        } else if text == "404"@ {
            PageTarget::NotFound
        } else {
            PageTarget::Post
        },
    }
}

/// Picks the page for what was found under a path.
pub fn select_page(found: Option<&str>) -> (r: PageTarget)
    ensures
        r == page_for(
            match found {
                Some(text) => Some(text@),
                None => None,
            },
        ),
{
    match found {
        None => PageTarget::NotFound,
        Some(text) => {
            if text.is_empty() {
                PageTarget::Home
            } else if text.eq("404") {
                PageTarget::NotFound
            } else {
                PageTarget::Post
            }
        },
    }
}

} // verus!
