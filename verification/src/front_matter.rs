//! Front matter: the metadata block at the head of a post file.
//!
//! A document that opens with `+++` and holds a second `+++` is split into
//! the header between the two and the body after them. The header is a TOML
//! table, which is decoded into a record; the body is markdown.

use crate::date::{date_from_text, parse_date, PostDate};
use crate::error::ContentError;
use crate::markdown::{markdown_html, render_markdown};
use crate::text::{
    chars_of, find_from, first_occurrence, matches_at, occurs_at, skip_trailing_whitespace,
    skip_whitespace, string_of, text_view, texts_view, trim,
};
use crate::toml_doc::{
    parse_toml, toml_document, value_elements, value_field, value_item, value_text, TomlItem,
};
use toml::de::DeValue;
use vstd::prelude::*;

verus! {

/// The metadata of one post. A key that the header lacks leaves its field
/// empty.
#[derive(Clone, Debug)]
pub struct FrontMatter {
    pub title: Option<String>,
    /// The day the post was published. A post without one is in no
    /// listing.
    pub date: Option<PostDate>,
    /// The tags, the primary one first.
    pub categories: Option<Vec<String>>,
    /// What listings show of the post in place of the start of its body.
    pub summary: Option<String>,
    /// Kept for change detection; nothing reads it.
    pub content_hash: Option<String>,
}

/// What a `FrontMatter` holds.
pub struct FrontMatterView {
    pub title: Option<Seq<char>>,
    pub date: Option<PostDate>,
    pub categories: Option<Seq<Seq<char>>>,
    pub summary: Option<Seq<char>>,
    pub content_hash: Option<Seq<char>>,
}

impl View for FrontMatter {
    type V = FrontMatterView;

    open spec fn view(&self) -> FrontMatterView {
        FrontMatterView {
            title: text_view(self.title),
            date: self.date,
            categories: match self.categories {
                Some(tags) => Some(texts_view(tags@)),
                None => None,
            },
            summary: text_view(self.summary),
            content_hash: text_view(self.content_hash),
        }
    }
}

impl FrontMatterView {
    /// The record of a post without a header.
    pub open spec fn empty() -> FrontMatterView {
        FrontMatterView {
            title: None,
            date: None,
            categories: None,
            summary: None,
            content_hash: None,
        }
    }

    /// The category a post is shown under: the first of its list.
    pub open spec fn primary(self) -> Option<Seq<char>> {
        match self.categories {
            Some(tags) => if tags.len() > 0 {
                Some(tags[0])
            } else {
                None
            },
            None => None,
        }
    }
}

impl FrontMatter {
    /// A record with every field empty.
    pub fn empty() -> (out: FrontMatter)
        ensures
            out@ == FrontMatterView::empty(),
    {
        FrontMatter { title: None, date: None, categories: None, summary: None, content_hash: None }
    }

    /// The category a post is shown under, if it has any.
    pub fn primary_category(&self) -> (r: Option<&String>)
        ensures
            match r {
                Some(tag) => self@.primary() == Some(tag@),
                None => self@.primary() is None,
            },
    {
        match &self.categories {
            Some(tags) => {
                if tags.len() > 0 {
                    Some(&tags[0])
                } else {
                    None
                }
            },
            None => None,
        }
    }
}

/// The entry of a table under `key`.
pub open spec fn entry(doc: TomlItem, key: Seq<char>) -> Option<TomlItem> {
    match doc {
        TomlItem::Table(entries) => if entries.contains_key(key) {
            Some(entries[key])
        } else {
            None
        },
        _ => None,
    }
}

/// A field that holds text: empty without the key, malformed where the
/// entry is no string.
pub open spec fn text_field(doc: TomlItem, key: Seq<char>) -> Result<
    Option<Seq<char>>,
    ContentError,
> {
    match entry(doc, key) {
        None => Ok(None),
        Some(TomlItem::Text(text)) => Ok(Some(text)),
        Some(_) => Err(ContentError::MalformedMetadata),
    }
}

/// The texts of a list of strings.
pub open spec fn texts_of(items: Seq<TomlItem>) -> Seq<Seq<char>> {
    items.map_values(|item: TomlItem| item->Text_0)
}

/// A field that holds a list of texts: empty without the key, malformed
/// where the entry is no array or an element is no string.
pub open spec fn text_list_field(doc: TomlItem, key: Seq<char>) -> Result<
    Option<Seq<Seq<char>>>,
    ContentError,
> {
    match entry(doc, key) {
        None => Ok(None),
        Some(TomlItem::List(items)) => if forall|i: int|
            0 <= i < items.len() ==> items[i] is Text {
            Ok(Some(texts_of(items)))
        } else {
            Err(ContentError::MalformedMetadata)
        },
        Some(_) => Err(ContentError::MalformedMetadata),
    }
}

/// A field that holds a date, written as text: malformed also where the
/// text is no date.
pub open spec fn date_field(doc: TomlItem, key: Seq<char>) -> Result<
    Option<PostDate>,
    ContentError,
> {
    match text_field(doc, key) {
        Ok(Some(text)) => match date_from_text(text) {
            Some(date) => Ok(Some(date)),
            None => Err(ContentError::MalformedMetadata),
        },
        Ok(None) => Ok(None),
        Err(e) => Err(e),
    }
}

/// The record that a header's table decodes to. Keys it does not know are
/// passed over.
pub open spec fn decoded(doc: TomlItem) -> Result<FrontMatterView, ContentError> {
    match (
        text_field(doc, "title"@),
        date_field(doc, "date"@),
        text_list_field(doc, "categories"@),
        text_field(doc, "summary"@),
        text_field(doc, "content_hash"@),
    ) {
        (Ok(title), Ok(date), Ok(categories), Ok(summary), Ok(content_hash)) => Ok(
            FrontMatterView { title, date, categories, summary, content_hash },
        ),
        _ => Err(ContentError::MalformedMetadata),
    }
}

/// The keys that a header is read for.
pub open spec fn is_known_key(key: Seq<char>) -> bool {
    key == "title"@ || key == "date"@ || key == "categories"@ || key == "summary"@ || key
        == "content_hash"@
}

/// Decoding passes over every key but the five it knows: two tables that
/// agree under those decode alike.
pub proof fn lemma_unknown_keys_ignored(a: TomlItem, b: TomlItem)
    requires
        forall|key: Seq<char>| is_known_key(key) ==> entry(a, key) == entry(b, key),
    ensures
        decoded(a) == decoded(b),
{
    assert(is_known_key("title"@));
    assert(is_known_key("date"@));
    assert(is_known_key("categories"@));
    assert(is_known_key("summary"@));
    assert(is_known_key("content_hash"@));
}

pub open spec fn text_item(text: Option<Seq<char>>) -> Option<TomlItem> {
    match text {
        Some(t) => Some(TomlItem::Text(t)),
        None => None,
    }
}

/// What a record puts under a key when it is written out as a table,
/// with `date_text` for its date.
pub open spec fn written_entry(meta: FrontMatterView, date_text: Seq<char>, key: Seq<char>)
    -> Option<TomlItem> {
    if key == "title"@ {
        text_item(meta.title)
    } else if key == "date"@ {
        match meta.date {
            Some(_) => Some(TomlItem::Text(date_text)),
            None => None,
        }
    } else if key == "categories"@ {
        match meta.categories {
            Some(tags) => Some(TomlItem::List(tags.map_values(|t: Seq<char>| TomlItem::Text(t)))),
            None => None,
        }
    } else if key == "summary"@ {
        text_item(meta.summary)
    } else if key == "content_hash"@ {
        text_item(meta.content_hash)
    } else {
        None
    }
}

/// A record written out as a table: each field that is there stands
/// under its key.
pub open spec fn written(meta: FrontMatterView, date_text: Seq<char>) -> TomlItem {
    TomlItem::Table(
        Map::new(
            |key: Seq<char>| written_entry(meta, date_text, key) is Some,
            |key: Seq<char>| written_entry(meta, date_text, key)->0,
        ),
    )
}

/// A record that is written out, with a text for its date that reads as
/// that date, decodes to itself.
pub proof fn lemma_decode_written(meta: FrontMatterView, date_text: Seq<char>)
    requires
        meta.date matches Some(d) ==> date_from_text(date_text) == Some(d),
    ensures
        decoded(written(meta, date_text)) == Ok::<_, ContentError>(meta),
{
    reveal_strlit("title");
    reveal_strlit("date");
    reveal_strlit("categories");
    reveal_strlit("summary");
    reveal_strlit("content_hash");
    let doc = written(meta, date_text);
    assert forall|key: Seq<char>| entry(doc, key) == written_entry(meta, date_text, key) by {}
    assert("title"@.len() == 5 && "date"@.len() == 4 && "categories"@.len() == 10 && "summary"@.len()
        == 7 && "content_hash"@.len() == 12);
    assert(entry(doc, "title"@) == text_item(meta.title));
    assert(entry(doc, "summary"@) == text_item(meta.summary));
    assert(entry(doc, "content_hash"@) == text_item(meta.content_hash));
    if let Some(tags) = meta.categories {
        let items = tags.map_values(|t: Seq<char>| TomlItem::Text(t));
        assert(entry(doc, "categories"@) == Some(TomlItem::List(items)));
        assert(texts_of(items) =~= tags);
    }
    assert(text_field(doc, "title"@) == Ok::<_, ContentError>(meta.title));
    assert(text_field(doc, "summary"@) == Ok::<_, ContentError>(meta.summary));
    assert(text_field(doc, "content_hash"@) == Ok::<_, ContentError>(meta.content_hash));
    assert(date_field(doc, "date"@) == Ok::<_, ContentError>(meta.date));
    assert(text_list_field(doc, "categories"@) == Ok::<_, ContentError>(meta.categories));
}

/// The text that a table holds for the date.
pub open spec fn date_text_of(doc: TomlItem) -> Seq<char> {
    match entry(doc, "date"@) {
        Some(TomlItem::Text(text)) => text,
        _ => Seq::empty(),
    }
}

/// To read a header, write the record out and read that again gives the
/// record that was read first.
pub proof fn lemma_decode_is_idempotent(doc: TomlItem)
    ensures
        decoded(doc) matches Ok(meta) ==> decoded(written(meta, date_text_of(doc))) == decoded(doc),
{
    if let Ok(meta) = decoded(doc) {
        lemma_decode_written(meta, date_text_of(doc));
    }
}

/// Reads a text field of a parsed header.
pub fn read_text(doc: &DeValue, key: &str) -> (r: Result<Option<String>, ContentError>)
    ensures
        match r {
            Ok(text) => text_field(value_item(doc), key@) == Ok::<_, ContentError>(
                text_view(text),
            ),
            Err(e) => text_field(value_item(doc), key@) == Err::<Option<Seq<char>>, _>(e),
        },
{
    match value_field(doc, key) {
        None => Ok(None),
        Some(field) => match value_text(field) {
            Some(text) => Ok(Some(text.to_owned())),
            None => Err(ContentError::MalformedMetadata),
        },
    }
}

/// Reads a field of a parsed header that lists texts.
pub fn read_text_list(doc: &DeValue, key: &str) -> (r: Result<Option<Vec<String>>, ContentError>)
    ensures
        match r {
            Ok(Some(texts)) => text_list_field(value_item(doc), key@) == Ok::<_, ContentError>(
                Some(texts_view(texts@)),
            ),
            Ok(None) => text_list_field(value_item(doc), key@) == Ok::<
                Option<Seq<Seq<char>>>,
                ContentError,
            >(None),
            Err(e) => text_list_field(value_item(doc), key@) == Err::<Option<Seq<Seq<char>>>, _>(
                e,
            ),
        },
{
    let field = match value_field(doc, key) {
        None => {
            return Ok(None);
        },
        Some(field) => field,
    };
    let elements = match value_elements(field) {
        None => {
            return Err(ContentError::MalformedMetadata);
        },
        Some(elements) => elements,
    };
    let ghost items = value_item(field)->List_0;
    let mut texts: Vec<String> = Vec::new();
    let mut i: usize = 0;
    while i < elements.len()
        invariant
            i <= elements.len(),
            entry(value_item(doc), key@) == Some(TomlItem::List(items)),
            items.len() == elements@.len(),
            forall|k: int|
                0 <= k < elements@.len() ==> value_item(#[trigger] elements@[k]) == items[k],
            texts@.len() == i,
            forall|k: int| 0 <= k < i ==> items[k] == TomlItem::Text(#[trigger] texts@[k]@),
        decreases elements.len() - i,
    {
        let text = match value_text(elements[i]) {
            None => {
                assert(value_item(elements@[i as int]) == items[i as int]);
                assert(!(items[i as int] is Text));
                return Err(ContentError::MalformedMetadata);
            },
            Some(text) => text,
        };
        assert(value_item(elements@[i as int]) == items[i as int]);
        texts.push(text.to_owned());
        i += 1;
    }
    assert forall|k: int| 0 <= k < items.len() implies items[k] is Text by {
        assert(items[k] == TomlItem::Text(texts@[k]@));
    }
    assert(texts_view(texts@) =~= texts_of(items));
    Ok(Some(texts))
}

/// Reads a date field of a parsed header.
pub fn read_date(doc: &DeValue, key: &str) -> (r: Result<Option<PostDate>, ContentError>)
    ensures
        r == date_field(value_item(doc), key@),
{
    match read_text(doc, key) {
        Err(e) => Err(e),
        Ok(None) => Ok(None),
        Ok(Some(text)) => match parse_date(text.as_str()) {
            Some(date) => Ok(Some(date)),
            None => Err(ContentError::MalformedMetadata),
        },
    }
}

/// Decodes a parsed header into a record.
pub fn decode_front_matter(doc: &DeValue) -> (r: Result<FrontMatter, ContentError>)
    ensures
        match r {
            Ok(meta) => decoded(value_item(doc)) == Ok::<_, ContentError>(meta@),
            Err(e) => decoded(value_item(doc)) == Err::<FrontMatterView, _>(e),
        },
{
    let title = read_text(doc, "title");
    let date = read_date(doc, "date");
    let categories = read_text_list(doc, "categories");
    let summary = read_text(doc, "summary");
    let content_hash = read_text(doc, "content_hash");
    match (title, date, categories, summary, content_hash) {
        (Ok(title), Ok(date), Ok(categories), Ok(summary), Ok(content_hash)) => Ok(
            FrontMatter { title, date, categories, summary, content_hash },
        ),
        _ => Err(ContentError::MalformedMetadata),
    }
}

/// The mark that opens and closes a header.
pub open spec fn delimiter() -> Seq<char> {
    seq!['+', '+', '+']
}

/// Header and body of a document. A document that opens with the mark and
/// holds a second one has the text between the two as its header and the
/// text after the second as its body, both without the whitespace around
/// them. Any other document has no header and is its own body.
pub open spec fn split_front_matter(input: Seq<char>) -> (Seq<char>, Seq<char>) {
    if occurs_at(input, delimiter(), 0) {
        match first_occurrence(input, delimiter(), 3) {
            Some(close) => (
                trim(input.subrange(3, close)),
                trim(input.subrange(close + 3, input.len() as int)),
            ),
            None => (Seq::empty(), input),
        }
    } else {
        (Seq::empty(), input)
    }
}

/// Splits a document into its header and its body.
pub fn split_document(input: &str) -> (r: (String, String))
    ensures
        r.0@ == split_front_matter(input@).0,
        r.1@ == split_front_matter(input@).1,
{
    let chars = chars_of(input);
    let mut mark: Vec<char> = Vec::new();
    mark.push('+');
    mark.push('+');
    mark.push('+');
    assert(mark@ == delimiter());
    if matches_at(&chars, &mark, 0) {
        match find_from(&chars, &mark, 3) {
            Some(close) => {
                proof {
                    crate::text::lemma_first_occurrence(chars@, mark@, 3);
                }
                let header_start: usize = skip_whitespace(&chars, 3, close);
                let header_end: usize = skip_trailing_whitespace(&chars, header_start, close);
                let body_start: usize = skip_whitespace(&chars, close + 3, chars.len());
                let body_end: usize = skip_trailing_whitespace(&chars, body_start, chars.len());
                (
                    string_of(&chars, header_start, header_end),
                    string_of(&chars, body_start, body_end),
                )
            },
            None => (String::new(), input.to_owned()),
        }
    } else {
        (String::new(), input.to_owned())
    }
}

/// The record and the markdown body of a document. A document without a
/// header, or with an empty one, has the empty record. Any other header
/// gives the record it decodes to, or the error of a header that `toml`
/// does not accept or that does not decode.
pub open spec fn parsed_front_matter(input: Seq<char>) -> Result<
    (FrontMatterView, Seq<char>),
    ContentError,
> {
    let (header, body) = split_front_matter(input);
    if header.len() == 0 {
        Ok((FrontMatterView::empty(), body))
    } else {
        match toml_document(header) {
            Some(doc) => match decoded(doc) {
                Ok(meta) => Ok((meta, body)),
                Err(e) => Err(e),
            },
            None => Err(ContentError::MalformedMetadata),
        }
    }
}

/// A document is a writing of a record where its header is empty and so
/// is the record, or where `toml` reads its header as the record's
/// table, with `date_text` for the date.
pub open spec fn is_writing_of(
    document: Seq<char>,
    meta: FrontMatterView,
    date_text: Seq<char>,
) -> bool {
    let header = split_front_matter(document).0;
    if header.len() == 0 {
        meta == FrontMatterView::empty()
    } else {
        toml_document(header) == Some(written(meta, date_text))
    }
}

/// To read a document, write the record out and read that again gives
/// the same fields: a document that is a writing of the record of
/// another, with a text for the date that reads as that date, has that
/// record.
pub proof fn lemma_reading_what_was_written(
    first: Seq<char>,
    second: Seq<char>,
    date_text: Seq<char>,
)
    requires
        parsed_front_matter(first) matches Ok((meta, _)) && is_writing_of(second, meta, date_text)
            && (meta.date matches Some(d) ==> date_from_text(date_text) == Some(d)),
    ensures
        parsed_front_matter(second) matches Ok((again, _)) && parsed_front_matter(first) matches Ok(
            (meta, _),
        ) && again == meta,
{
    if let Ok((meta, _)) = parsed_front_matter(first) {
        lemma_decode_written(meta, date_text);
    }
}

/// Splits a document, reads its header and decodes it. The body comes
/// back as it was written.
pub fn parse_front_matter(input: &str) -> (r: Result<(FrontMatter, String), ContentError>)
    ensures
        match r {
            Ok((meta, body)) => parsed_front_matter(input@) == Ok::<_, ContentError>(
                (meta@, body@),
            ),
            Err(e) => parsed_front_matter(input@) == Err::<(FrontMatterView, Seq<char>), _>(e),
        },
{
    let (header, body) = split_document(input);
    if header.as_str().is_empty() {
        return Ok((FrontMatter::empty(), body));
    }
    let doc = match parse_toml(header.as_str()) {
        Ok(doc) => doc,
        Err(_) => {
            return Err(ContentError::MalformedMetadata);
        },
    };
    match decode_front_matter(&doc) {
        Ok(meta) => Ok((meta, body)),
        Err(e) => Err(e),
    }
}

/// Reads a post file: the record of its header and its body as HTML.
pub fn parse_markdown_with_frontmatter(md_input: String) -> (r: Result<
    (FrontMatter, String),
    ContentError,
>)
    ensures
        match r {
            Ok((meta, html)) => parsed_front_matter(md_input@) matches Ok((m, body)) && meta@ == m
                && html@ == markdown_html(body),
            Err(e) => parsed_front_matter(md_input@) == Err::<(FrontMatterView, Seq<char>), _>(e),
        },
{
    match parse_front_matter(md_input.as_str()) {
        Ok((meta, body)) => {
            let html = render_markdown(body.as_str());
            Ok((meta, html))
        },
        Err(e) => Err(e),
    }
}

} // verus!
