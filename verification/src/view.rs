//! What the templates are given: the card of a post in a listing, and the
//! page of a post.

use crate::date::{date_label, format_date};
use crate::error::AppError;
use crate::front_matter::FrontMatter;
use crate::index::ContentIndex;
use crate::query::{get_post_summary, summary_of};
use crate::text::text_view;
use vstd::prelude::*;

verus! {

/// A post as a listing shows it.
#[derive(Debug)]
pub struct PostCard {
    pub date: String,
    pub category: String,
    /// The slug, which is the path of the post's page.
    pub path: String,
    pub title: String,
    /// The summary of the post.
    pub content: String,
}

/// A post as its own page shows it.
#[derive(Debug)]
pub struct PostPage {
    pub title: Option<String>,
    pub category: String,
    /// The body of the post as HTML.
    pub content: String,
    pub date: String,
}

/// The page of a post. A post without a category has none.
pub fn post_page(meta: FrontMatter, html: String) -> (r: Result<PostPage, AppError>)
    ensures
        match r {
            Ok(page) => {
                &&& meta@.primary() == Some(page.category@)
                &&& text_view(page.title) == meta@.title
                &&& page.content@ == html@
                &&& page.date@ == date_label(meta@.date)
            },
            Err(e) => meta@.primary() is None && e.0@ == "Unable to get post category"@,
        },
{
    let category = match meta.primary_category() {
        Some(tag) => tag.clone(),
        None => {
            return Err(AppError("Unable to get post category".to_string()));
        },
    };
    let date = format_date(meta.date);
    Ok(PostPage { title: meta.title, category, content: html, date })
}

/// The card of a post in a listing, with the summary that the index or
/// the rendered body gives. A post without a category has none, nor has
/// a post without a title.
pub fn post_card(
    index: &ContentIndex,
    slug: &str,
    meta: FrontMatter,
    html: &str,
    max_length: usize,
) -> (r: Result<PostCard, AppError>)
    ensures
        match r {
            Ok(card) => {
                &&& meta@.primary() == Some(card.category@)
                &&& meta@.title == Some(card.title@)
                &&& card.path@ == slug@
                &&& card.date@ == date_label(meta@.date)
                &&& card.content@ == summary_of(index@, slug@, html@, max_length as int)
            },
            Err(e) => if meta@.primary() is None {
                e.0@ == "Unable to get post category"@
            } else {
                meta@.title is None && e.0@ == "Unable to get post title"@
            },
        },
{
    let date = format_date(meta.date);
    let category = match meta.primary_category() {
        Some(tag) => tag.clone(),
        None => {
            return Err(AppError("Unable to get post category".to_string()));
        },
    };
    let title = match meta.title {
        Some(title) => title,
        None => {
            return Err(AppError("Unable to get post title".to_string()));
        },
    };
    let content = get_post_summary(index, slug, html, max_length);
    Ok(PostCard { date, category, path: slug.to_owned(), title, content })
}

} // verus!
