//! The listings that request handlers ask of a snapshot: the dated posts,
//! most recent first, all of them or those of one category.

use crate::date::{lemma_date_order, PostDate};
use crate::front_matter::{FrontMatter, FrontMatterView};
use crate::index::{distinct_slugs, lemma_lookup_at, lookup, slot, ContentIndex, EntryView};
use crate::summary::{plain_text, truncate_html_text, truncated_text};
use crate::text::{chars_of, eq_ignore_ascii_case, same_ignoring_ascii_case, texts_view};
use vstd::prelude::*;

verus! {

/// Which posts a listing takes.
#[derive(Debug)]
pub enum PostFilter {
    /// Every post.
    All,
    /// The posts that carry the category, whatever the case of its ASCII
    /// letters.
    Category(String),
}

/// What a `PostFilter` holds.
pub enum FilterView {
    All,
    Category(Seq<char>),
}

impl View for PostFilter {
    type V = FilterView;

    open spec fn view(&self) -> FilterView {
        match self {
            PostFilter::All => FilterView::All,
            PostFilter::Category(name) => FilterView::Category(name@),
        }
    }
}

/// One of the tags is `name`, but for the case of ASCII letters.
pub open spec fn names_tag(tags: Seq<Seq<char>>, name: Seq<char>) -> bool {
    exists|k: int| 0 <= k < tags.len() && eq_ignore_ascii_case(#[trigger] tags[k], name)
}

/// The post carries the category `name`, whatever the case of its ASCII
/// letters.
pub open spec fn has_category(meta: FrontMatterView, name: Seq<char>) -> bool {
    match meta.categories {
        Some(tags) => names_tag(tags, name),
        None => false,
    }
}

/// The post is in the listing: it has a date and the filter takes it.
pub open spec fn listed(filter: FilterView, entry: EntryView) -> bool {
    entry.meta.date is Some && match filter {
        FilterView::All => true,
        FilterView::Category(name) => has_category(entry.meta, name),
    }
}

/// `a` has a later date than `b`.
pub open spec fn newer(a: EntryView, b: EntryView) -> bool {
    a.meta.date matches Some(x) && b.meta.date matches Some(y) && x.is_after(y)
}

/// Where `entry` goes into a ranking: in front of the posts at its end
/// that are older than it.
pub open spec fn place(ranked: Seq<EntryView>, entry: EntryView) -> int
    decreases ranked.len(),
{
    if ranked.len() > 0 && newer(entry, ranked.last()) {
        place(ranked.drop_last(), entry)
    } else {
        ranked.len() as int
    }
}

/// The listed posts of the index, most recent first. Posts of one day
/// stand in the order of the index.
pub open spec fn newest_first(entries: Seq<EntryView>, filter: FilterView) -> Seq<EntryView>
    decreases entries.len(),
{
    if entries.len() == 0 {
        Seq::empty()
    } else {
        let before = newest_first(entries.drop_last(), filter);
        if listed(filter, entries.last()) {
            before.insert(place(before, entries.last()), entries.last())
        } else {
            before
        }
    }
}

/// The slugs of the entries, in turn.
pub open spec fn slugs_of(entries: Seq<EntryView>) -> Seq<Seq<char>> {
    entries.map_values(|e: EntryView| e.slug)
}

/// The slugs of a listing.
pub open spec fn listing(entries: Seq<EntryView>, filter: FilterView) -> Seq<Seq<char>> {
    slugs_of(newest_first(entries, filter))
}

/// The entries at the given places of the index.
pub open spec fn entries_at(entries: Seq<EntryView>, places: Seq<usize>) -> Seq<EntryView> {
    places.map_values(|p: usize| entries[p as int])
}

/// Every post has a date, and none stands behind an older one.
pub open spec fn by_date_descending(ranked: Seq<EntryView>) -> bool {
    &&& forall|k: int| 0 <= k < ranked.len() ==> (#[trigger] ranked[k]).meta.date is Some
    &&& forall|i: int, j: int|
        0 <= i < j < ranked.len() ==> !newer(#[trigger] ranked[j], #[trigger] ranked[i])
}

/// `place` lies within the ranking; the posts from there on are older
/// than the entry, and the post before is not.
pub proof fn lemma_place(ranked: Seq<EntryView>, entry: EntryView)
    ensures
        0 <= place(ranked, entry) <= ranked.len(),
        forall|k: int| place(ranked, entry) <= k < ranked.len() ==> newer(entry, ranked[k]),
        place(ranked, entry) == 0 || !newer(entry, ranked[place(ranked, entry) - 1]),
    decreases ranked.len(),
{
    if ranked.len() > 0 && newer(entry, ranked.last()) {
        let rest = ranked.drop_last();
        lemma_place(rest, entry);
        assert forall|k: int| place(ranked, entry) <= k < ranked.len() implies newer(
            entry,
            ranked[k],
        ) by {
            if k < rest.len() {
                assert(rest[k] == ranked[k]);
            }
        }
    }
}

/// What a sequence holds once an element was put in: the element, and
/// what it held before.
proof fn lemma_insert_contains(s: Seq<EntryView>, at: int, e: EntryView)
    requires
        0 <= at <= s.len(),
    ensures
        forall|x: EntryView| s.insert(at, e).contains(x) <==> (x == e || s.contains(x)),
{
    let t = s.insert(at, e);
    s.insert_ensures(at, e);
    assert forall|x: EntryView| t.contains(x) implies (x == e || s.contains(x)) by {
        let k = choose|k: int| 0 <= k < t.len() && t[k] == x;
        if k < at {
            assert(s[k] == x);
        } else if k > at {
            assert(t[(k - 1) + 1] == s[k - 1]);
        }
    }
    assert forall|x: EntryView| (x == e || s.contains(x)) implies t.contains(x) by {
        if s.contains(x) {
            let k = choose|k: int| 0 <= k < s.len() && s[k] == x;
            if k < at {
                assert(t[k] == x);
            } else {
                assert(t[k + 1] == x);
            }
        } else {
            assert(t[at] == x);
        }
    }
}

/// What a sequence holds: its last element, and what stands before it.
proof fn lemma_last_contains(s: Seq<EntryView>)
    requires
        s.len() > 0,
    ensures
        forall|x: EntryView| s.contains(x) <==> (x == s.last() || s.drop_last().contains(x)),
{
    let rest = s.drop_last();
    assert forall|x: EntryView| s.contains(x) implies (x == s.last() || rest.contains(x)) by {
        let k = choose|k: int| 0 <= k < s.len() && s[k] == x;
        if k < rest.len() {
            assert(rest[k] == x);
        }
    }
    assert forall|x: EntryView| (x == s.last() || rest.contains(x)) implies s.contains(x) by {
        if rest.contains(x) {
            let k = choose|k: int| 0 <= k < rest.len() && rest[k] == x;
            assert(s[k] == x);
        } else {
            assert(s[s.len() - 1] == x);
        }
    }
}

/// A listing holds dated posts only, and none of them stands behind an
/// older one.
pub proof fn lemma_newest_first_sorted(entries: Seq<EntryView>, filter: FilterView)
    ensures
        by_date_descending(newest_first(entries, filter)),
    decreases entries.len(),
{
    if entries.len() > 0 {
        let before = newest_first(entries.drop_last(), filter);
        let last = entries.last();
        lemma_newest_first_sorted(entries.drop_last(), filter);
        if listed(filter, last) {
            let p = place(before, last);
            lemma_place(before, last);
            before.insert_ensures(p, last);
            let after = before.insert(p, last);
            assert forall|k: int| 0 <= k < after.len() implies (#[trigger] after[k]).meta.date
                is Some by {
                if k < p {
                    assert(after[k] == before[k]);
                } else if k > p {
                    assert(after[(k - 1) + 1] == before[k - 1]);
                }
            }
            assert forall|i: int, j: int| 0 <= i < j < after.len() implies !newer(
                #[trigger] after[j],
                #[trigger] after[i],
            ) by {
                if j < p {
                    assert(after[i] == before[i] && after[j] == before[j]);
                } else if j == p {
                    assert(after[i] == before[i]);
                    assert(!newer(last, before[p - 1]));
                    if i < p - 1 {
                        assert(!newer(before[p - 1], before[i]));
                    }
                    lemma_date_order(
                        last.meta.date->0,
                        before[p - 1].meta.date->0,
                        before[i].meta.date->0,
                    );
                } else {
                    assert(after[(j - 1) + 1] == before[j - 1]);
                    if i < p {
                        assert(after[i] == before[i]);
                    } else if i == p {
                        assert(newer(last, before[j - 1]));
                        lemma_date_order(
                            last.meta.date->0,
                            before[j - 1].meta.date->0,
                            last.meta.date->0,
                        );
                    } else {
                        assert(after[(i - 1) + 1] == before[i - 1]);
                    }
                }
            }
        }
    }
}

/// A listing holds the listed posts of the index and no others.
pub proof fn lemma_newest_first_members(entries: Seq<EntryView>, filter: FilterView)
    ensures
        forall|e: EntryView|
            newest_first(entries, filter).contains(e) <==> entries.contains(e) && listed(
                filter,
                e,
            ),
    decreases entries.len(),
{
    if entries.len() > 0 {
        let rest = entries.drop_last();
        let before = newest_first(rest, filter);
        let last = entries.last();
        lemma_newest_first_members(rest, filter);
        lemma_last_contains(entries);
        if listed(filter, last) {
            lemma_place(before, last);
            lemma_insert_contains(before, place(before, last), last);
        }
    }
}

/// Where no slug stands twice in the index, none stands twice in a
/// listing.
pub proof fn lemma_newest_first_distinct(entries: Seq<EntryView>, filter: FilterView)
    requires
        distinct_slugs(entries),
    ensures
        distinct_slugs(newest_first(entries, filter)),
    decreases entries.len(),
{
    if entries.len() > 0 {
        let rest = entries.drop_last();
        let before = newest_first(rest, filter);
        let last = entries.last();
        assert forall|i: int, j: int| 0 <= i < j < rest.len() implies (#[trigger] rest[i]).slug != (
        #[trigger] rest[j]).slug by {
            assert(rest[i] == entries[i] && rest[j] == entries[j]);
        }
        lemma_newest_first_distinct(rest, filter);
        if listed(filter, last) {
            let p = place(before, last);
            let ranked = before.insert(p, last);
            lemma_place(before, last);
            before.insert_ensures(p, last);
            lemma_newest_first_members(rest, filter);
            assert forall|k: int| 0 <= k < before.len() implies (#[trigger] before[k]).slug
                != last.slug by {
                assert(before.contains(before[k]));
                assert(rest.contains(before[k]));
                let m = choose|m: int| 0 <= m < rest.len() && rest[m] == before[k];
                assert(entries[m] == before[k]);
                assert(entries[entries.len() - 1] == last);
            }
            assert forall|i: int, j: int| 0 <= i < j < ranked.len() implies (
            #[trigger] ranked[i]).slug != (#[trigger] ranked[j]).slug by {
                if i < p {
                    assert(ranked[i] == before[i]);
                } else if i > p {
                    assert(ranked[(i - 1) + 1] == before[i - 1]);
                }
                if j < p {
                    assert(ranked[j] == before[j]);
                } else if j > p {
                    assert(ranked[(j - 1) + 1] == before[j - 1]);
                }
            }
        }
    }
}

/// The test for the posts that carry the category `name`.
pub open spec fn carries(name: Seq<char>) -> spec_fn(EntryView) -> bool {
    |e: EntryView| has_category(e.meta, name)
}

/// An entry goes between a head that does not end in an older post and a
/// tail of older posts.
proof fn lemma_place_split(head: Seq<EntryView>, tail: Seq<EntryView>, entry: EntryView)
    requires
        head.len() == 0 || !newer(entry, head.last()),
        forall|k: int| 0 <= k < tail.len() ==> newer(entry, #[trigger] tail[k]),
    ensures
        place(head + tail, entry) == head.len(),
    decreases tail.len(),
{
    if tail.len() == 0 {
        assert(head + tail =~= head);
    } else {
        assert((head + tail).last() == tail[tail.len() - 1]);
        assert((head + tail).drop_last() =~= head + tail.drop_last());
        lemma_place_split(head, tail.drop_last(), entry);
    }
}

/// To put an entry into a ranking and then keep the posts that pass a
/// test is to keep those posts first and then put the entry in, if it
/// passes the test itself.
proof fn lemma_filter_insert(
    ranked: Seq<EntryView>,
    entry: EntryView,
    test: spec_fn(EntryView) -> bool,
)
    requires
        by_date_descending(ranked),
        entry.meta.date is Some,
    ensures
        ranked.insert(place(ranked, entry), entry).filter(test) == (if test(entry) {
            ranked.filter(test).insert(place(ranked.filter(test), entry), entry)
        } else {
            ranked.filter(test)
        }),
{
    let p = place(ranked, entry);
    lemma_place(ranked, entry);
    let head = ranked.take(p);
    let tail = ranked.skip(p);
    assert(ranked =~= head + tail);
    assert(ranked.insert(p, entry) =~= head.push(entry) + tail);
    Seq::filter_distributes_over_add(head, tail, test);
    Seq::filter_distributes_over_add(head.push(entry), tail, test);
    head.lemma_filter_push(entry, test);
    let kept_head = head.filter(test);
    let kept_tail = tail.filter(test);
    if test(entry) {
        assert forall|k: int| 0 <= k < kept_tail.len() implies newer(
            entry,
            #[trigger] kept_tail[k],
        ) by {
            assert(kept_tail.contains(kept_tail[k]));
            tail.lemma_filter_contains_rev(test, kept_tail[k]);
            let m = choose|m: int| 0 <= m < tail.len() && tail[m] == kept_tail[k];
            assert(tail[m] == ranked[p + m]);
        }
        if kept_head.len() > 0 {
            let end = kept_head.last();
            assert(kept_head[kept_head.len() - 1] == end);
            assert(kept_head.contains(end));
            head.lemma_filter_contains_rev(test, end);
            let m = choose|m: int| 0 <= m < head.len() && head[m] == end;
            assert(head[m] == ranked[m]);
            assert(!newer(entry, ranked[p - 1]));
            if m < p - 1 {
                assert(!newer(ranked[p - 1], ranked[m]));
            }
            lemma_date_order(
                entry.meta.date->0,
                ranked[p - 1].meta.date->0,
                ranked[m].meta.date->0,
            );
        }
        lemma_place_split(kept_head, kept_tail, entry);
        assert((kept_head + kept_tail).insert(kept_head.len() as int, entry) =~= kept_head.push(
            entry,
        ) + kept_tail);
    }
}

/// The listing of a category is the listing of all posts with the posts
/// of other categories taken out: the same posts in the same order.
pub proof fn lemma_category_within_all(entries: Seq<EntryView>, name: Seq<char>)
    ensures
        newest_first(entries, FilterView::Category(name)) == newest_first(
            entries,
            FilterView::All,
        ).filter(carries(name)),
    decreases entries.len(),
{
    let test = carries(name);
    if entries.len() == 0 {
        Seq::<EntryView>::empty().lemma_filter_len(test);
        assert(Seq::<EntryView>::empty().filter(test) =~= Seq::<EntryView>::empty());
    } else {
        let rest = entries.drop_last();
        let last = entries.last();
        lemma_category_within_all(rest, name);
        if listed(FilterView::All, last) {
            lemma_newest_first_sorted(rest, FilterView::All);
            lemma_filter_insert(newest_first(rest, FilterView::All), last, test);
        }
    }
}

/// The date of the post with the slug.
pub open spec fn date_of(entries: Seq<EntryView>, slug: Seq<char>) -> Option<PostDate> {
    match lookup(entries, slug) {
        Some(meta) => meta.date,
        None => None,
    }
}

/// Every slug is that of a dated post of the index, and none stands
/// behind the slug of an older post.
pub open spec fn slugs_by_date_descending(entries: Seq<EntryView>, slugs: Seq<Seq<char>>) -> bool {
    &&& forall|k: int| 0 <= k < slugs.len() ==> date_of(entries, #[trigger] slugs[k]) is Some
    &&& forall|i: int, j: int|
        0 <= i < j < slugs.len() ==> !(date_of(entries, #[trigger] slugs[j])->0.is_after(
            date_of(entries, #[trigger] slugs[i])->0,
        ))
}

/// A listing gives the slugs of dated posts, most recent first, each slug
/// once: those of the listed posts of the index and no others.
pub proof fn lemma_listing(entries: Seq<EntryView>, filter: FilterView)
    requires
        distinct_slugs(entries),
    ensures
        slugs_by_date_descending(entries, listing(entries, filter)),
        listing(entries, filter).no_duplicates(),
        forall|slug: Seq<char>|
            listing(entries, filter).contains(slug) <==> (lookup(entries, slug) matches Some(meta)
                && listed(filter, EntryView { slug, meta })),
{
    let ranked = newest_first(entries, filter);
    let slugs = listing(entries, filter);
    lemma_newest_first_sorted(entries, filter);
    lemma_newest_first_members(entries, filter);
    lemma_newest_first_distinct(entries, filter);
    assert forall|k: int| 0 <= k < slugs.len() implies lookup(entries, #[trigger] slugs[k])
        == Some(ranked[k].meta) by {
        assert(slugs.len() == ranked.len());
        assert(ranked.contains(ranked[k]));
        assert(entries.contains(ranked[k]));
        let m = choose|m: int| 0 <= m < entries.len() && entries[m] == ranked[k];
        lemma_lookup_at(entries, m);
    }
    assert forall|i: int, j: int| 0 <= i < j < slugs.len() implies !(date_of(
        entries,
        #[trigger] slugs[j],
    )->0.is_after(date_of(entries, #[trigger] slugs[i])->0)) by {
        assert(!newer(ranked[j], ranked[i]));
    }
    assert forall|i: int, j: int| 0 <= i < j < slugs.len() implies slugs[i] != slugs[j] by {
        assert(ranked[i].slug != ranked[j].slug);
    }
    assert forall|slug: Seq<char>| slugs.contains(slug) implies (lookup(entries, slug) matches Some(
        meta,
    ) && listed(filter, EntryView { slug, meta })) by {
        let k = choose|k: int| 0 <= k < slugs.len() && slugs[k] == slug;
        assert(lookup(entries, slugs[k]) == Some(ranked[k].meta));
        assert(ranked.contains(ranked[k]));
        assert(ranked[k] == EntryView { slug, meta: ranked[k].meta });
    }
    assert forall|slug: Seq<char>|
        (lookup(entries, slug) matches Some(meta) && listed(
            filter,
            EntryView { slug, meta },
        )) implies slugs.contains(slug) by {
        let m = slot(entries, slug);
        let e = entries[m];
        assert(e == EntryView { slug, meta: e.meta });
        assert(entries.contains(e));
        assert(ranked.contains(e));
        let k = choose|k: int| 0 <= k < ranked.len() && ranked[k] == e;
        assert(slugs[k] == slug);
    }
}

fn matches_category(meta: &FrontMatter, name: &Vec<char>) -> (r: bool)
    ensures
        r == has_category(meta@, name@),
{
    match &meta.categories {
        None => false,
        Some(tags) => {
            let mut k: usize = 0;
            while k < tags.len()
                invariant
                    k <= tags.len(),
                    meta@.categories == Some(texts_view(tags@)),
                    forall|j: int|
                        0 <= j < k ==> !eq_ignore_ascii_case(
                            #[trigger] texts_view(tags@)[j],
                            name@,
                        ),
                decreases tags.len() - k,
            {
                let tag = chars_of(tags[k].as_str());
                if same_ignoring_ascii_case(&tag, name) {
                    assert(eq_ignore_ascii_case(texts_view(tags@)[k as int], name@));
                    return true;
                }
                k += 1;
            }
            false
        },
    }
}

/// The slugs of the dated posts that the filter takes, most recent first.
/// Posts of one day come in the order of the index.
pub fn get_posts_with_filter(index: &ContentIndex, filter: &PostFilter) -> (out: Vec<String>)
    ensures
        texts_view(out@) == listing(index@, filter@),
        slugs_by_date_descending(index@, texts_view(out@)),
        texts_view(out@).no_duplicates(),
        forall|slug: Seq<char>|
            texts_view(out@).contains(slug) <==> (lookup(index@, slug) matches Some(meta) && listed(
                filter@,
                EntryView { slug, meta },
            )),
{
    let out = ranked_slugs(index, filter);
    let _ = index.len();
    proof {
        lemma_listing(index@, filter@);
    }
    out
}

fn ranked_slugs(index: &ContentIndex, filter: &PostFilter) -> (out: Vec<String>)
    ensures
        texts_view(out@) == listing(index@, filter@),
{
    let name: Vec<char> = match filter {
        PostFilter::All => Vec::new(),
        PostFilter::Category(category) => chars_of(category.as_str()),
    };
    let n: usize = index.len();
    let mut order: Vec<usize> = Vec::new();
    let mut i: usize = 0;
    assert(index@.take(0) =~= Seq::<EntryView>::empty());
    assert(entries_at(index@, order@) =~= Seq::<EntryView>::empty());
    while i < n
        invariant
            i <= n,
            n == index@.len(),
            filter@ matches FilterView::Category(c) ==> c == name@,
            forall|k: int| 0 <= k < order.len() ==> order@[k] < i,
            entries_at(index@, order@) == newest_first(index@.take(i as int), filter@),
        decreases n - i,
    {
        let entry = index.entry(i);
        assert(index@.take(i + 1).drop_last() == index@.take(i as int));
        assert(index@.take(i + 1).last() == entry@);
        let ghost ranked = entries_at(index@, order@);
        match entry.meta.date {
            None => {},
            Some(date) => {
                let taken: bool = match filter {
                    PostFilter::All => true,
                    PostFilter::Category(_) => matches_category(&entry.meta, &name),
                };
                if taken {
                    let mut p: usize = order.len();
                    assert(ranked.take(p as int) == ranked);
                    loop
                        invariant
                            p <= order.len(),
                            i < n == index@.len(),
                            entry@ == index@[i as int],
                            entry.meta.date == Some(date),
                            ranked == entries_at(index@, order@),
                            forall|k: int| 0 <= k < order.len() ==> order@[k] < i,
                            place(ranked, entry@) == place(ranked.take(p as int), entry@),
                        ensures
                            p <= order.len(),
                            place(ranked, entry@) == p,
                        decreases p,
                    {
                        if p == 0 {
                            break;
                        }
                        let earlier = index.entry(order[p - 1]);
                        assert(ranked.take(p as int).last() == earlier@);
                        assert(ranked.take(p as int).drop_last() == ranked.take(p - 1));
                        let moves: bool = match earlier.meta.date {
                            Some(other) => date.later_than(&other),
                            None => false,
                        };
                        if !moves {
                            break;
                        }
                        p -= 1;
                    }
                    order.insert(p, i);
                    assert(entries_at(index@, order@) =~= ranked.insert(p as int, entry@));
                }
            },
        }
        i += 1;
    }
    assert(index@.take(n as int) == index@);
    let ghost ranked = entries_at(index@, order@);
    let mut out: Vec<String> = Vec::new();
    let mut k: usize = 0;
    while k < order.len()
        invariant
            k <= order.len(),
            n == index@.len(),
            forall|j: int| 0 <= j < order.len() ==> order@[j] < n,
            ranked == entries_at(index@, order@),
            texts_view(out@) == slugs_of(ranked.take(k as int)),
        decreases order.len() - k,
    {
        let entry = index.entry(order[k]);
        let ghost before = texts_view(out@);
        out.push(entry.slug.clone());
        assert(ranked[k as int] == entry@);
        assert(texts_view(out@) =~= before.push(entry@.slug));
        assert(slugs_of(ranked.take(k + 1)) =~= slugs_of(ranked.take(k as int)).push(
            ranked[k as int].slug,
        ));
        k += 1;
    }
    assert(ranked.take(order.len() as int) == ranked);
    out
}

/// The slugs of all dated posts, most recent first. A post without a
/// date is not listed.
pub fn get_all_posts_sorted_by_date(index: &ContentIndex) -> (out: Vec<String>)
    ensures
        texts_view(out@) == listing(index@, FilterView::All),
        slugs_by_date_descending(index@, texts_view(out@)),
        texts_view(out@).no_duplicates(),
        forall|slug: Seq<char>|
            texts_view(out@).contains(slug) <==> date_of(index@, slug) is Some,
{
    get_posts_with_filter(index, &PostFilter::All)
}

/// The listing of a category; nothing for the empty name.
pub open spec fn category_listing(entries: Seq<EntryView>, name: Seq<char>) -> Seq<Seq<char>> {
    if name.len() == 0 {
        Seq::empty()
    } else {
        listing(entries, FilterView::Category(name))
    }
}

/// The slugs of the dated posts that carry the category, most recent
/// first. The empty name lists nothing.
pub fn get_posts_by_category(index: &ContentIndex, category: &str) -> (out: Vec<String>)
    ensures
        texts_view(out@) == category_listing(index@, category@),
        category@.len() == 0 ==> out@.len() == 0,
        slugs_by_date_descending(index@, texts_view(out@)),
        texts_view(out@).no_duplicates(),
        category@.len() > 0 ==> forall|slug: Seq<char>|
            texts_view(out@).contains(slug) <==> (lookup(index@, slug) matches Some(meta)
                && meta.date is Some && has_category(meta, category@)),
{
    if category.is_empty() {
        let out: Vec<String> = Vec::new();
        assert(texts_view(out@) =~= Seq::<Seq<char>>::empty());
        return out;
    }
    let filter = PostFilter::Category(category.to_owned());
    get_posts_with_filter(index, &filter)
}

/// The summary of a post: the one its header gives, else the start of
/// its rendered body as plain text, cut at a word's end.
pub open spec fn summary_of(
    entries: Seq<EntryView>,
    slug: Seq<char>,
    html: Seq<char>,
    max: int,
) -> Seq<char> {
    match lookup(entries, slug) {
        Some(meta) => match meta.summary {
            Some(text) => text,
            None => truncated_text(plain_text(html), max),
        },
        None => truncated_text(plain_text(html), max),
    }
}

/// The summary of the post with the slug, whose body renders to `html`.
pub fn get_post_summary(index: &ContentIndex, slug: &str, html: &str, max_length: usize) -> (out:
    String)
    ensures
        out@ == summary_of(index@, slug@, html@, max_length as int),
{
    match index.get(slug) {
        Some(meta) => match &meta.summary {
            Some(text) => text.clone(),
            None => truncate_html_text(html, max_length),
        },
        None => truncate_html_text(html, max_length),
    }
}

} // verus!
