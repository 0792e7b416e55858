//! Pages of a listing: a fixed number of posts each.

use crate::text::texts_view;
use vstd::prelude::*;

verus! {

/// The number of posts on a page.
pub const PAGE_SIZE: usize = 3;

/// What a request says of the page it wants.
#[derive(Clone, Debug)]
pub struct PageQuery {
    pub page: Option<usize>,
    pub category: Option<String>,
}

impl PageQuery {
    /// The page asked for; the first one where the request names none.
    pub fn page_number(&self) -> (page: usize)
        ensures
            page == match self.page {
                Some(p) => p,
                None => 1,
            },
    {
        match self.page {
            Some(p) => p,
            None => 1,
        }
    }

    /// The category asked for; the empty name where the request names
    /// none.
    pub fn category_name(&self) -> (name: String)
        ensures
            name@ == match self.category {
                Some(c) => c@,
                None => Seq::<char>::empty(),
            },
    {
        match &self.category {
            Some(c) => c.clone(),
            None => String::new(),
        }
    }
}

/// The number of pages that `total` posts fill, the last one perhaps in
/// part.
pub open spec fn page_count(total: int) -> int {
    (total + PAGE_SIZE - 1) / (PAGE_SIZE as int)
}

/// The place in the listing of the first post of a page. Pages count
/// from 1.
pub open spec fn page_start(page: int) -> int {
    (page - 1) * PAGE_SIZE
}

/// The page is one of those that `total` posts fill.
pub open spec fn page_in_range(total: int, page: int) -> bool {
    1 <= page && page_start(page) < total
}

/// The posts of a page. A page out of range is empty.
pub open spec fn page_window(slugs: Seq<Seq<char>>, page: int) -> Seq<Seq<char>> {
    if page_in_range(slugs.len() as int, page) {
        let start = page_start(page);
        let end = if start + PAGE_SIZE < slugs.len() {
            start + PAGE_SIZE
        } else {
            slugs.len() as int
        };
        slugs.subrange(start, end)
    } else {
        Seq::empty()
    }
}

/// The number of pages of a listing.
pub fn total_pages(total: usize) -> (pages: usize)
    ensures
        pages == page_count(total as int),
{
    if total % PAGE_SIZE == 0 {
        total / PAGE_SIZE
    } else {
        total / PAGE_SIZE + 1
    }
}

/// Whether `page` is one of the pages of a listing of `total` posts.
pub fn is_page_in_range(total: usize, page: usize) -> (r: bool)
    ensures
        r == page_in_range(total as int, page as int),
        r ==> page_start(page as int) + 1 <= total,
{
    page >= 1 && total >= 1 && page - 1 <= (total - 1) / PAGE_SIZE
}

/// The slugs of one page of a listing.
pub fn page_of(slugs: &Vec<String>, page: usize) -> (out: Vec<String>)
    ensures
        texts_view(out@) == page_window(texts_view(slugs@), page as int),
{
    let mut out: Vec<String> = Vec::new();
    if !is_page_in_range(slugs.len(), page) {
        assert(texts_view(out@) =~= Seq::<Seq<char>>::empty());
        return out;
    }
    let start: usize = (page - 1) * PAGE_SIZE;
    let end: usize = if slugs.len() - start > PAGE_SIZE {
        start + PAGE_SIZE
    } else {
        slugs.len()
    };
    let mut i: usize = start;
    while i < end
        invariant
            start <= i <= end <= slugs.len(),
            texts_view(out@) == texts_view(slugs@).subrange(start as int, i as int),
        decreases end - i,
    {
        let ghost before = texts_view(out@);
        out.push(slugs[i].clone());
        assert(texts_view(out@) =~= before.push(slugs@[i as int]@));
        i += 1;
    }
    out
}

/// What the page links show: the page and the number of pages.
#[derive(Clone, Copy, Debug, PartialEq, Eq, Structural)]
pub struct Pagination {
    pub page: usize,
    pub total_pages: usize,
}

/// The page links under a listing. There are none where the listing fits
/// on one page or the page is out of range.
pub fn pagination(total: usize, page: usize) -> (r: Option<Pagination>)
    ensures
        r == if total > PAGE_SIZE && page_in_range(total as int, page as int) {
            Some(Pagination { page, total_pages: page_count(total as int) as usize })
        } else {
            None
        },
{
    if total > PAGE_SIZE && is_page_in_range(total, page) {
        Some(Pagination { page, total_pages: total_pages(total) })
    } else {
        None
    }
}

} // verus!
