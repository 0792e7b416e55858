//! The content index: one snapshot of the posts' metadata by slug, and the
//! rebuild that makes a new snapshot from the files of the posts directory.

use crate::error::ContentError;
use crate::front_matter::{parse_front_matter, parsed_front_matter, FrontMatter, FrontMatterView};
use crate::text::{chars_of, string_of, texts_view};
use vstd::prelude::*;

verus! {

/// A post in the index: its slug and its metadata.
#[derive(Debug)]
pub struct IndexEntry {
    pub slug: String,
    pub meta: FrontMatter,
}

/// What an `IndexEntry` holds.
pub struct EntryView {
    pub slug: Seq<char>,
    pub meta: FrontMatterView,
}

impl View for IndexEntry {
    type V = EntryView;

    open spec fn view(&self) -> EntryView {
        EntryView { slug: self.slug@, meta: self.meta@ }
    }
}

/// What a list of entries holds.
pub open spec fn entries_view(entries: Seq<IndexEntry>) -> Seq<EntryView> {
    entries.map_values(|e: IndexEntry| e@)
}

/// No slug stands twice among the entries.
pub open spec fn distinct_slugs(entries: Seq<EntryView>) -> bool {
    forall|i: int, j: int|
        0 <= i < j < entries.len() ==> (#[trigger] entries[i]).slug != (#[trigger] entries[j]).slug
}

/// Some entry has the slug.
pub open spec fn holds(entries: Seq<EntryView>, slug: Seq<char>) -> bool {
    exists|i: int| 0 <= i < entries.len() && (#[trigger] entries[i]).slug == slug
}

/// The place of an entry that has the slug.
pub open spec fn slot(entries: Seq<EntryView>, slug: Seq<char>) -> int {
    choose|i: int| 0 <= i < entries.len() && (#[trigger] entries[i]).slug == slug
}

/// The metadata under a slug.
pub open spec fn lookup(entries: Seq<EntryView>, slug: Seq<char>) -> Option<FrontMatterView> {
    if holds(entries, slug) {
        Some(entries[slot(entries, slug)].meta)
    } else {
        None
    }
}

/// The entries with `entry` put in: in the place of the entry with the
/// same slug where there is one, else at the end.
pub open spec fn upsert(entries: Seq<EntryView>, entry: EntryView) -> Seq<EntryView> {
    if holds(entries, entry.slug) {
        entries.update(slot(entries, entry.slug), entry)
    } else {
        entries.push(entry)
    }
}

/// In an index without a slug that stands twice, an entry is found under
/// its slug.
pub proof fn lemma_lookup_at(entries: Seq<EntryView>, at: int)
    requires
        distinct_slugs(entries),
        0 <= at < entries.len(),
    ensures
        holds(entries, entries[at].slug),
        slot(entries, entries[at].slug) == at,
        lookup(entries, entries[at].slug) == Some(entries[at].meta),
{
    let slug = entries[at].slug;
    assert(entries[at].slug == slug);
    let found = slot(entries, slug);
    if found < at {
        assert(entries[found].slug != entries[at].slug);
    } else if at < found {
        assert(entries[at].slug != entries[found].slug);
    }
}

/// To put a post in is to set the metadata under its slug and to leave
/// every other slug as it was. The index grows by one where the slug is
/// new, and keeps each slug once.
pub proof fn lemma_upsert(entries: Seq<EntryView>, entry: EntryView)
    requires
        distinct_slugs(entries),
    ensures
        distinct_slugs(upsert(entries, entry)),
        lookup(upsert(entries, entry), entry.slug) == Some(entry.meta),
        forall|slug: Seq<char>|
            slug != entry.slug ==> lookup(upsert(entries, entry), slug) == lookup(entries, slug),
        upsert(entries, entry).len() == if holds(entries, entry.slug) {
            entries.len()
        } else {
            entries.len() + 1
        },
{
    let after = upsert(entries, entry);
    let at = if holds(entries, entry.slug) {
        slot(entries, entry.slug)
    } else {
        entries.len() as int
    };
    assert(after[at] == entry);
    assert forall|k: int| 0 <= k < entries.len() && k != at implies #[trigger] after[k]
        == entries[k] by {}
    assert forall|i: int, j: int| 0 <= i < j < after.len() implies (#[trigger] after[i]).slug != (
    #[trigger] after[j]).slug by {
        if i != at && j != at {
            assert(entries[i].slug != entries[j].slug);
        } else if holds(entries, entry.slug) {
            assert(entries[i].slug != entries[j].slug);
        } else {
            assert(after[i] == entries[i]);
        }
    }
    lemma_lookup_at(after, at);
    assert forall|slug: Seq<char>| slug != entry.slug implies lookup(after, slug) == lookup(
        entries,
        slug,
    ) by {
        if holds(after, slug) {
            let k = slot(after, slug);
            assert(after[k] == entries[k]);
            lemma_lookup_at(after, k);
            lemma_lookup_at(entries, k);
        } else if holds(entries, slug) {
            let k = slot(entries, slug);
            assert(after[k] == entries[k]);
            assert(after[k].slug == slug);
        }
    }
}

/// One snapshot of the index: the posts by slug, in the order in which
/// they were first put in. A snapshot is made as a whole and then only
/// read.
#[derive(Debug)]
pub struct ContentIndex {
    entries: Vec<IndexEntry>,
}

impl View for ContentIndex {
    type V = Seq<EntryView>;

    closed spec fn view(&self) -> Seq<EntryView> {
        entries_view(self.entries@)
    }
}

impl ContentIndex {
    #[verifier::type_invariant]
    spec fn slugs_are_distinct(self) -> bool {
        distinct_slugs(entries_view(self.entries@))
    }

    /// An index without posts.
    pub fn new() -> (out: ContentIndex)
        ensures
            out@ == Seq::<EntryView>::empty(),
    {
        let out = ContentIndex { entries: Vec::new() };
        assert(out@ =~= Seq::<EntryView>::empty());
        out
    }

    /// The number of posts.
    pub fn len(&self) -> (n: usize)
        ensures
            n == self@.len(),
            distinct_slugs(self@),
    {
        proof {
            use_type_invariant(self);
        }
        self.entries.len()
    }

    /// The entry at a place, if the index has that many.
    pub fn entry_at(&self, at: usize) -> (r: Option<&IndexEntry>)
        ensures
            match r {
                Some(e) => at < self@.len() && e@ == self@[at as int],
                None => at >= self@.len(),
            },
    {
        if at < self.entries.len() {
            Some(&self.entries[at])
        } else {
            None
        }
    }

    pub(crate) fn entry(&self, at: usize) -> (e: &IndexEntry)
        requires
            at < self@.len(),
        ensures
            e@ == self@[at as int],
    {
        &self.entries[at]
    }

    fn position(&self, slug: &str) -> (r: Option<usize>)
        ensures
            distinct_slugs(self@),
            match r {
                Some(i) => i < self@.len() && self@[i as int].slug == slug@ && holds(self@, slug@)
                    && slot(self@, slug@) == i,
                None => !holds(self@, slug@),
            },
    {
        proof {
            use_type_invariant(self);
        }
        let mut i: usize = 0;
        while i < self.entries.len()
            invariant
                i <= self.entries.len(),
                distinct_slugs(self@),
                forall|k: int| 0 <= k < i ==> (#[trigger] self@[k]).slug != slug@,
            decreases self.entries.len() - i,
        {
            if self.entries[i].slug.as_str().eq(slug) {
                assert(self@[i as int].slug == slug@);
                return Some(i);
            }
            i += 1;
        }
        None
    }

    /// The metadata of the post with the slug.
    pub fn get(&self, slug: &str) -> (r: Option<&FrontMatter>)
        ensures
            match r {
                Some(meta) => lookup(self@, slug@) == Some(meta@),
                None => lookup(self@, slug@) is None,
            },
    {
        match self.position(slug) {
            Some(i) => Some(&self.entries[i].meta),
            None => None,
        }
    }

    /// The snapshot with one post put in, in the place of the one with the
    /// same slug where there is one.
    pub fn with_entry(self, slug: String, meta: FrontMatter) -> (out: ContentIndex)
        ensures
            out@ == upsert(self@, EntryView { slug: slug@, meta: meta@ }),
    {
        let found = self.position(slug.as_str());
        let ghost before = self@;
        let ghost added = EntryView { slug: slug@, meta: meta@ };
        let entry = IndexEntry { slug, meta };
        let mut entries = self.entries;
        match found {
            Some(i) => {
                entries.set(i, entry);
                assert(entries_view(entries@) =~= before.update(i as int, added));
            },
            None => {
                entries.push(entry);
                assert(entries_view(entries@) =~= before.push(added));
            },
        }
        ContentIndex { entries }
    }
}

/// A file of the posts directory as the rebuild gets it: the slug, and
/// the file's text unless it could not be read.
#[derive(Debug)]
pub struct PostFile {
    pub slug: String,
    pub content: Option<String>,
}

/// What a `PostFile` holds.
pub struct PostFileView {
    pub slug: Seq<char>,
    pub content: Option<Seq<char>>,
}

impl View for PostFile {
    type V = PostFileView;

    open spec fn view(&self) -> PostFileView {
        PostFileView {
            slug: self.slug@,
            content: match self.content {
                Some(text) => Some(text@),
                None => None,
            },
        }
    }
}

/// What a list of files holds.
pub open spec fn files_view(files: Seq<PostFile>) -> Seq<PostFileView> {
    files.map_values(|f: PostFile| f@)
}

/// The metadata that a file gives the index. A file that could not be
/// read gives none, nor does one whose header does not decode.
pub open spec fn file_record(file: PostFileView) -> Option<FrontMatterView> {
    match file.content {
        Some(text) => match parsed_front_matter(text) {
            Ok((meta, _)) => Some(meta),
            Err(_) => None,
        },
        None => None,
    }
}

/// The snapshot that a rebuild makes of the files: each file that gives
/// metadata is put in, in turn.
pub open spec fn indexed(files: Seq<PostFileView>) -> Seq<EntryView>
    decreases files.len(),
{
    if files.len() == 0 {
        Seq::empty()
    } else {
        let before = indexed(files.drop_last());
        match file_record(files.last()) {
            Some(meta) => upsert(before, EntryView { slug: files.last().slug, meta }),
            None => before,
        }
    }
}

/// The slugs of the files that give no metadata, in turn.
pub open spec fn failed_slugs(files: Seq<PostFileView>) -> Seq<Seq<char>>
    decreases files.len(),
{
    if files.len() == 0 {
        Seq::empty()
    } else {
        let before = failed_slugs(files.drop_last());
        match file_record(files.last()) {
            Some(_) => before,
            None => before.push(files.last().slug),
        }
    }
}

/// The metadata that the files give a slug: that of the last file with
/// the slug that gives any.
pub open spec fn record_for(files: Seq<PostFileView>, slug: Seq<char>) -> Option<FrontMatterView>
    decreases files.len(),
{
    if files.len() == 0 {
        None
    } else if files.last().slug == slug && file_record(files.last()) is Some {
        file_record(files.last())
    } else {
        record_for(files.drop_last(), slug)
    }
}

/// No slug stands twice among the files.
pub open spec fn distinct_files(files: Seq<PostFileView>) -> bool {
    forall|i: int, j: int|
        0 <= i < j < files.len() ==> (#[trigger] files[i]).slug != (#[trigger] files[j]).slug
}

/// A rebuild indexes each slug with the metadata that the files give it,
/// and no other slug. Whether a file can be used has no bearing on the
/// slugs of other files.
pub proof fn lemma_indexed(files: Seq<PostFileView>)
    ensures
        distinct_slugs(indexed(files)),
        forall|slug: Seq<char>| lookup(indexed(files), slug) == record_for(files, slug),
    decreases files.len(),
{
    if files.len() > 0 {
        let rest = files.drop_last();
        let last = files.last();
        lemma_indexed(rest);
        if let Some(meta) = file_record(last) {
            lemma_upsert(indexed(rest), EntryView { slug: last.slug, meta });
        }
        assert forall|slug: Seq<char>| lookup(indexed(files), slug) == record_for(
            files,
            slug,
        ) by {
            assert(lookup(indexed(rest), slug) == record_for(rest, slug));
        }
    } else {
        assert forall|slug: Seq<char>| lookup(indexed(files), slug) == record_for(
            files,
            slug,
        ) by {
            if holds(indexed(files), slug) {
                let k = slot(indexed(files), slug);
                assert(0 <= k < indexed(files).len());
            }
        }
    }
}

/// Files give a slug no metadata where none of them has the slug.
proof fn lemma_no_record(files: Seq<PostFileView>, slug: Seq<char>)
    requires
        forall|i: int| 0 <= i < files.len() ==> (#[trigger] files[i]).slug != slug,
    ensures
        record_for(files, slug) is None,
    decreases files.len(),
{
    if files.len() > 0 {
        let rest = files.drop_last();
        assert(files[files.len() - 1].slug != slug);
        assert forall|i: int| 0 <= i < rest.len() implies (#[trigger] rest[i]).slug != slug by {
            assert(rest[i] == files[i]);
        }
        lemma_no_record(rest, slug);
    }
}

/// Where no two files share a slug, the files give the slug of a file
/// what that file gives.
proof fn lemma_record_of_file(files: Seq<PostFileView>, at: int)
    requires
        distinct_files(files),
        0 <= at < files.len(),
    ensures
        record_for(files, files[at].slug) == file_record(files[at]),
    decreases files.len(),
{
    let rest = files.drop_last();
    let slug = files[at].slug;
    if at == files.len() - 1 {
        assert forall|i: int| 0 <= i < rest.len() implies (#[trigger] rest[i]).slug != slug by {
            assert(rest[i] == files[i]);
            assert(files[i].slug != files[at].slug);
        }
        lemma_no_record(rest, slug);
    } else {
        assert(files[at].slug != files[files.len() - 1].slug);
        assert forall|i: int, j: int| 0 <= i < j < rest.len() implies (#[trigger] rest[i]).slug != (
        #[trigger] rest[j]).slug by {
            assert(rest[i] == files[i] && rest[j] == files[j]);
        }
        assert(rest[at] == files[at]);
        lemma_record_of_file(rest, at);
    }
}

/// In a directory, where no two files share a slug, a file that can be
/// used is indexed under its slug with its own metadata, and a file that
/// cannot is left out; neither depends on any other file. Every file is
/// indexed or reported, never both.
pub proof fn lemma_rebuild_file_by_file(files: Seq<PostFileView>)
    requires
        distinct_files(files),
    ensures
        forall|i: int|
            0 <= i < files.len() ==> lookup(indexed(files), (#[trigger] files[i]).slug)
                == file_record(files[i]),
        indexed(files).len() + failed_slugs(files).len() == files.len(),
    decreases files.len(),
{
    lemma_indexed(files);
    assert forall|i: int| 0 <= i < files.len() implies lookup(
        indexed(files),
        (#[trigger] files[i]).slug,
    ) == file_record(files[i]) by {
        lemma_record_of_file(files, i);
        assert(lookup(indexed(files), files[i].slug) == record_for(files, files[i].slug));
    }
    if files.len() > 0 {
        let rest = files.drop_last();
        let last = files.last();
        assert forall|i: int, j: int| 0 <= i < j < rest.len() implies (#[trigger] rest[i]).slug != (
        #[trigger] rest[j]).slug by {
            assert(rest[i] == files[i] && rest[j] == files[j]);
        }
        lemma_rebuild_file_by_file(rest);
        lemma_indexed(rest);
        if let Some(meta) = file_record(last) {
            assert forall|i: int| 0 <= i < rest.len() implies (#[trigger] rest[i]).slug
                != last.slug by {
                assert(rest[i] == files[i]);
                assert(files[i].slug != files[files.len() - 1].slug);
            }
            lemma_no_record(rest, last.slug);
            assert(lookup(indexed(rest), last.slug) == record_for(rest, last.slug));
            lemma_upsert(indexed(rest), EntryView { slug: last.slug, meta });
        }
    }
}

/// What a rebuild has to tell: how many posts it indexed, and which files
/// it had to leave out.
#[derive(Debug)]
pub struct RebuildReport {
    pub indexed: usize,
    pub failed: Vec<String>,
}

/// Makes a new snapshot from the files of the posts directory. A file
/// that cannot be used is left out and reported; it does not stop the
/// rebuild. The rebuild as a whole fails where no post was indexed
/// although files were left out.
pub fn build_frontmatter_index(files: &Vec<PostFile>) -> (r: Result<
    (ContentIndex, RebuildReport),
    ContentError,
>)
    ensures
        match r {
            Ok((index, report)) => {
                &&& index@ == indexed(files_view(files@))
                &&& report.indexed == index@.len()
                &&& texts_view(report.failed@) == failed_slugs(
                    files_view(files@),
                )
                &&& index@.len() > 0 || report.failed@.len() == 0
            },
            Err(e) => {
                &&& e == ContentError::IndexBuildFailed
                &&& indexed(files_view(files@)).len() == 0
                &&& failed_slugs(files_view(files@)).len() > 0
            },
        },
{
    let ghost all = files_view(files@);
    let mut index = ContentIndex::new();
    let mut failed: Vec<String> = Vec::new();
    let mut i: usize = 0;
    assert(all.take(0) =~= Seq::<PostFileView>::empty());
    while i < files.len()
        invariant
            i <= files.len(),
            all == files_view(files@),
            index@ == indexed(all.take(i as int)),
            texts_view(failed@) == failed_slugs(all.take(i as int)),
        decreases files.len() - i,
    {
        let file = &files[i];
        assert(all.take(i + 1).drop_last() == all.take(i as int));
        assert(all.take(i + 1).last() == file@);
        let parsed = match &file.content {
            Some(text) => match parse_front_matter(text.as_str()) {
                Ok((meta, _)) => Some(meta),
                Err(_) => None,
            },
            None => None,
        };
        match parsed {
            Some(meta) => {
                index = index.with_entry(file.slug.clone(), meta);
            },
            None => {
                let ghost before = texts_view(failed@);
                failed.push(file.slug.clone());
                assert(texts_view(failed@) =~= before.push(file.slug@));
            },
        }
        i += 1;
    }
    assert(all.take(files.len() as int) == all);
    let count = index.len();
    if count == 0 && failed.len() > 0 {
        return Err(ContentError::IndexBuildFailed);
    }
    Ok((index, RebuildReport { indexed: count, failed }))
}

/// Puts the outcome of a rebuild in the place of the current snapshot:
/// the new snapshot where the rebuild made one, the current one where it
/// failed. What it hands back is the report or the error.
pub fn install_snapshot(
    current: &mut ContentIndex,
    outcome: Result<(ContentIndex, RebuildReport), ContentError>,
) -> (r: Result<RebuildReport, ContentError>)
    ensures
        match outcome {
            Ok((index, report)) => final(current)@ == index@ && r == Ok::<_, ContentError>(report),
            Err(e) => final(current)@ == old(current)@ && r == Err::<RebuildReport, _>(e),
        },
{
    match outcome {
        Ok((index, report)) => {
            *current = index;
            Ok(report)
        },
        Err(e) => Err(e),
    }
}

/// The slug of a file of the posts directory: the name without its
/// ending, for a name that ends in `.md` and has something before that.
pub open spec fn markdown_slug(name: Seq<char>) -> Option<Seq<char>> {
    if name.len() > 3 && name.subrange(name.len() - 3, name.len() as int) == seq!['.', 'm', 'd'] {
        Some(name.take(name.len() - 3))
    } else {
        None
    }
}

/// The slugs of the markdown files among the names, in turn.
pub open spec fn post_slugs(names: Seq<Seq<char>>) -> Seq<Seq<char>>
    decreases names.len(),
{
    if names.len() == 0 {
        Seq::empty()
    } else {
        let before = post_slugs(names.drop_last());
        match markdown_slug(names.last()) {
            Some(slug) => before.push(slug),
            None => before,
        }
    }
}

/// The slug of one file name, if it names a markdown file.
pub fn slug_of_file(name: &str) -> (r: Option<String>)
    ensures
        match r {
            Some(slug) => markdown_slug(name@) == Some(slug@),
            None => markdown_slug(name@) is None,
        },
{
    let chars = chars_of(name);
    let n: usize = chars.len();
    if n > 3 && chars[n - 3] == '.' && chars[n - 2] == 'm' && chars[n - 1] == 'd' {
        assert(chars@.subrange(n - 3, n as int) =~= seq!['.', 'm', 'd']);
        assert(chars@.subrange(0, n - 3) == chars@.take(n - 3));
        Some(string_of(&chars, 0, n - 3))
    } else {
        if n > 3 {
            let ghost tail = chars@.subrange(n - 3, n as int);
            assert(tail[0] == chars@[n - 3] && tail[1] == chars@[n - 2] && tail[2] == chars@[n
                - 1]);
        }
        None
    }
}

/// The posts of the directory: the slugs of the markdown files among the
/// names of its files. A directory that could not be listed is an error,
/// not a blog without posts.
pub fn get_all_posts(listing: Option<&Vec<String>>) -> (r: Result<Vec<String>, ContentError>)
    ensures
        match r {
            Ok(slugs) => listing matches Some(names) && texts_view(slugs@) == post_slugs(
                texts_view(names@),
            ),
            Err(e) => listing is None && e == ContentError::DirectoryUnavailable,
        },
{
    let file_names = match listing {
        Some(names) => names,
        None => {
            return Err(ContentError::DirectoryUnavailable);
        },
    };
    let ghost names = texts_view(file_names@);
    let mut slugs: Vec<String> = Vec::new();
    let mut i: usize = 0;
    assert(names.take(0) =~= Seq::<Seq<char>>::empty());
    while i < file_names.len()
        invariant
            i <= file_names.len(),
            names == texts_view(file_names@),
            texts_view(slugs@) == post_slugs(names.take(i as int)),
        decreases file_names.len() - i,
    {
        assert(names.take(i + 1).drop_last() == names.take(i as int));
        assert(names.take(i + 1).last() == file_names@[i as int]@);
        match slug_of_file(file_names[i].as_str()) {
            Some(slug) => {
                let ghost before = texts_view(slugs@);
                slugs.push(slug);
                assert(texts_view(slugs@) =~= before.push(slug@));
            },
            None => {},
        }
        i += 1;
    }
    assert(names.take(file_names.len() as int) == names);
    Ok(slugs)
}

} // verus!
