//! Plain-text summaries of rendered posts: markup is taken out, whitespace
//! is evened out, and long texts are cut at the end of a word.

use crate::text::{
    char_is_whitespace, chars_of, is_whitespace, normalize_whitespace, normalized,
    skip_trailing_whitespace, string_of, trim_end,
};
use vstd::prelude::*;

verus! {

/// The bound that listings give for the summary of a post, in characters.
pub const SUMMARY_LENGTH: usize = 200;

/// `s` without its tags. A `<` opens a tag and a `>` closes one; neither
/// is kept, nor is anything in between. `inside` says whether `s` starts
/// within a tag.
pub open spec fn strip_tags(s: Seq<char>, inside: bool) -> Seq<char>
    decreases s.len(),
{
    if s.len() == 0 {
        s
    } else if s[0] == '<' {
        strip_tags(s.drop_first(), true)
    } else if s[0] == '>' {
        strip_tags(s.drop_first(), false)
    } else if inside {
        strip_tags(s.drop_first(), true)
    } else {
        seq![s[0]] + strip_tags(s.drop_first(), false)
    }
}

/// The words of an HTML text outside its tags, separated by single spaces.
pub open spec fn plain_text(html: Seq<char>) -> Seq<char> {
    normalize_whitespace(strip_tags(html, false))
}

fn without_tags(chars: &Vec<char>) -> (out: Vec<char>)
    ensures
        out@ == strip_tags(chars@, false),
{
    let mut out: Vec<char> = Vec::new();
    let mut inside: bool = false;
    let mut i: usize = 0;
    assert(chars@.subrange(0, chars.len() as int) == chars@);
    while i < chars.len()
        invariant
            i <= chars.len(),
            out@ + strip_tags(chars@.subrange(i as int, chars.len() as int), inside)
                == strip_tags(chars@, false),
        decreases chars.len() - i,
    {
        assert(chars@.subrange(i as int, chars.len() as int).drop_first() == chars@.subrange(
            i + 1,
            chars.len() as int,
        ));
        let c: char = chars[i];
        if c == '<' {
            inside = true;
        } else if c == '>' {
            inside = false;
        } else if !inside {
            let ghost rest = strip_tags(chars@.subrange(i + 1, chars.len() as int), false);
            assert(out@.push(c) + rest == out@ + (seq![c] + rest));
            out.push(c);
        }
        i += 1;
    }
    out
}

/// Takes the markup out of an HTML text and evens out its whitespace.
pub fn strip_html_tags(html: &str) -> (out: String)
    ensures
        out@ == plain_text(html@),
{
    let chars = chars_of(html);
    let kept = without_tags(&chars);
    let words = normalized(&kept);
    assert(words@.subrange(0, words.len() as int) == words@);
    string_of(&words, 0, words.len())
}

/// The first position at or after `from` that holds whitespace, or the
/// length of the text.
pub open spec fn next_whitespace(text: Seq<char>, from: int) -> int
    decreases text.len() - from,
{
    if from < 0 || from >= text.len() {
        text.len() as int
    } else if is_whitespace(text[from]) {
        from
    } else {
        next_whitespace(text, from + 1)
    }
}

/// The start of a text up to the end of the word that stands at `max`,
/// without trailing whitespace; the whole text where it is not longer than
/// `max`.
pub open spec fn boundary_prefix(text: Seq<char>, max: int) -> Seq<char> {
    if text.len() <= max {
        text
    } else {
        trim_end(text.take(next_whitespace(text, max)))
    }
}

/// The text cut at a word's end, with the mark of omission where
/// something was left out.
pub open spec fn truncated_text(text: Seq<char>, max: int) -> Seq<char> {
    let kept = boundary_prefix(text, max);
    if kept.len() < text.len() {
        kept + seq!['.', '.', '.']
    } else {
        kept
    }
}

/// What `trim_end` leaves is a start of the text, and the text goes on
/// with whitespace behind it or ends there.
pub proof fn lemma_trim_end_is_prefix(s: Seq<char>)
    ensures
        trim_end(s).len() <= s.len(),
        trim_end(s) == s.take(trim_end(s).len() as int),
        trim_end(s).len() == s.len() || is_whitespace(s[trim_end(s).len() as int]),
    decreases s.len(),
{
    if s.len() > 0 && is_whitespace(s.last()) {
        lemma_trim_end_is_prefix(s.drop_last());
        let n = trim_end(s).len() as int;
        assert(s.drop_last().take(n) == s.take(n));
    } else {
        assert(s.take(s.len() as int) == s);
    }
}

/// `next_whitespace` stops at whitespace or at the end of the text.
pub proof fn lemma_next_whitespace(text: Seq<char>, from: int)
    ensures
        next_whitespace(text, from) <= text.len(),
        0 <= from <= text.len() ==> from <= next_whitespace(text, from),
        next_whitespace(text, from) == text.len() || is_whitespace(
            text[next_whitespace(text, from)],
        ),
    decreases text.len() - from,
{
    if 0 <= from < text.len() && !is_whitespace(text[from]) {
        lemma_next_whitespace(text, from + 1);
    }
}

/// A text within the bound is left as it is. A longer one is never cut
/// inside a word: what is kept is a start of the text behind which the
/// text goes on with whitespace or ends. The mark of omission stands
/// exactly where less than the whole text is kept.
pub proof fn lemma_truncation_keeps_words(text: Seq<char>, max: int)
    ensures
        text.len() <= max ==> truncated_text(text, max) == text,
        ({
            let kept = boundary_prefix(text, max);
            &&& kept.len() <= text.len()
            &&& kept == text.take(kept.len() as int)
            &&& kept.len() == text.len() || is_whitespace(text[kept.len() as int])
            &&& truncated_text(text, max) == if kept.len() < text.len() {
                kept + seq!['.', '.', '.']
            } else {
                text
            }
        }),
{
    if text.len() <= max {
        assert(text.take(text.len() as int) == text);
    } else {
        lemma_next_whitespace(text, max);
        let end = next_whitespace(text, max);
        let head = text.take(end);
        lemma_trim_end_is_prefix(head);
        let kept = trim_end(head);
        assert(head.take(kept.len() as int) == text.take(kept.len() as int));
        if kept.len() == text.len() {
            assert(text.take(text.len() as int) == text);
        }
    }
}

/// The end of `boundary_prefix` within `chars`, for a text longer than
/// `max`.
fn boundary_end(chars: &Vec<char>, max: usize) -> (end: usize)
    requires
        max < chars.len(),
    ensures
        end <= chars.len(),
        chars@.take(end as int) == boundary_prefix(chars@, max as int),
{
    let mut stop: usize = max;
    while stop < chars.len() && !char_is_whitespace(chars[stop])
        invariant
            max <= stop <= chars.len(),
            next_whitespace(chars@, stop as int) == next_whitespace(chars@, max as int),
        decreases chars.len() - stop,
    {
        stop += 1;
    }
    assert(chars@.subrange(0, stop as int) == chars@.take(stop as int));
    let end = skip_trailing_whitespace(chars, 0, stop);
    assert(chars@.subrange(0, end as int) == chars@.take(end as int));
    end
}

/// Cuts a text after the word that reaches `max_length` characters.
pub fn find_word_boundary(text: &str, max_length: usize) -> (out: String)
    ensures
        out@ == boundary_prefix(text@, max_length as int),
{
    let chars = chars_of(text);
    if chars.len() <= max_length {
        return text.to_owned();
    }
    let end = boundary_end(&chars, max_length);
    assert(chars@.subrange(0, end as int) == chars@.take(end as int));
    string_of(&chars, 0, end)
}

/// The plain text of `html`, cut at a word's end once it is longer than
/// `max_length` characters, and marked with `...` where it was cut.
pub fn truncate_html_text(html: &str, max_length: usize) -> (out: String)
    ensures
        out@ == truncated_text(plain_text(html@), max_length as int),
        plain_text(html@).len() <= max_length ==> out@ == plain_text(html@),
{
    let chars = chars_of(html);
    let kept = without_tags(&chars);
    let words = normalized(&kept);
    assert(words@.subrange(0, words.len() as int) == words@);
    if words.len() <= max_length {
        return string_of(&words, 0, words.len());
    }
    let end = boundary_end(&words, max_length);
    assert(words@.subrange(0, end as int) == words@.take(end as int));
    let mut out = string_of(&words, 0, end);
    if end < words.len() {
        out.push('.');
        out.push('.');
        out.push('.');
        assert(out@ == words@.take(end as int) + seq!['.', '.', '.']);
    }
    out
}

} // verus!
