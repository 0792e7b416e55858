//! Character-level helpers shared by the parsers and the query layer.
//!
//! Text is modelled as `Seq<char>`, the view of `str` and `String`. The
//! executable functions work on a `Vec<char>` so that positions can be
//! reached in constant time.

use vstd::prelude::*;
use vstd::std_specs::iter::IteratorSpec;

verus! {

/// `String::push` appends one character to the end of the string.
pub assume_specification[ String::push ](s: &mut String, ch: char)
    ensures
        final(s)@ == old(s)@.push(ch),
;

/// `str` equality compares the two texts character by character.
pub assume_specification[ <str as PartialEq>::eq ](a: &str, b: &str) -> (r: bool)
    ensures
        r == (a@ == b@),
;

/// What an optional text holds.
pub open spec fn text_view(text: Option<String>) -> Option<Seq<char>> {
    match text {
        Some(t) => Some(t@),
        None => None,
    }
}

/// What a list of texts holds.
pub open spec fn texts_view(texts: Seq<String>) -> Seq<Seq<char>> {
    texts.map_values(|t: String| t@)
}

/// The characters that carry the Unicode `White_Space` property.
pub open spec fn is_whitespace(c: char) -> bool {
    let n = c as u32;
    ||| 0x09 <= n <= 0x0D
    ||| n == 0x20
    ||| n == 0x85
    ||| n == 0xA0
    ||| n == 0x1680
    ||| 0x2000 <= n <= 0x200A
    ||| n == 0x2028
    ||| n == 0x2029
    ||| n == 0x202F
    ||| n == 0x205F
    ||| n == 0x3000
}

/// Whether a character is whitespace.
pub fn char_is_whitespace(c: char) -> (r: bool)
    ensures
        r == is_whitespace(c),
{
    let n: u32 = c as u32;
    (0x09 <= n && n <= 0x0D) || n == 0x20 || n == 0x85 || n == 0xA0 || n == 0x1680 || (0x2000 <= n
        && n <= 0x200A) || n == 0x2028 || n == 0x2029 || n == 0x202F || n == 0x205F || n == 0x3000
}

/// The characters of `s`, in order, as an indexable vector.
pub fn chars_of(s: &str) -> (out: Vec<char>)
    ensures
        out@ == s@,
{
    broadcast use vstd::string::group_string_axioms;

    let mut out: Vec<char> = Vec::new();
    let mut it = s.chars();
    loop
        invariant
            out@ + it.remaining() == s@,
        ensures
            out@ == s@,
        decreases s@.len() - out@.len(),
    {
        match it.next() {
            Some(c) => {
                out.push(c);
            },
            None => {
                break;
            },
        }
    }
    out
}

/// The text made of `chars[lo..hi]`.
pub(crate) fn string_of(chars: &Vec<char>, lo: usize, hi: usize) -> (out: String)
    requires
        lo <= hi <= chars.len(),
    ensures
        out@ == chars@.subrange(lo as int, hi as int),
{
    let mut out = String::new();
    let mut i: usize = lo;
    while i < hi
        invariant
            lo <= i <= hi <= chars.len(),
            out@ == chars@.subrange(lo as int, i as int),
        decreases hi - i,
    {
        out.push(chars[i]);
        i += 1;
    }
    out
}

/// `s` without its leading whitespace.
pub open spec fn trim_start(s: Seq<char>) -> Seq<char>
    decreases s.len(),
{
    if s.len() > 0 && is_whitespace(s[0]) {
        trim_start(s.drop_first())
    } else {
        s
    }
}

/// `s` without its trailing whitespace.
pub open spec fn trim_end(s: Seq<char>) -> Seq<char>
    decreases s.len(),
{
    if s.len() > 0 && is_whitespace(s.last()) {
        trim_end(s.drop_last())
    } else {
        s
    }
}

/// `s` without the whitespace at either end.
pub open spec fn trim(s: Seq<char>) -> Seq<char> {
    trim_end(trim_start(s))
}

/// The start of `trim_start(chars[lo..hi])` within `chars`.
pub(crate) fn skip_whitespace(chars: &Vec<char>, lo: usize, hi: usize) -> (r: usize)
    requires
        lo <= hi <= chars.len(),
    ensures
        lo <= r <= hi,
        chars@.subrange(r as int, hi as int) == trim_start(chars@.subrange(lo as int, hi as int)),
{
    let mut i: usize = lo;
    while i < hi && char_is_whitespace(chars[i])
        invariant
            lo <= i <= hi <= chars.len(),
            trim_start(chars@.subrange(i as int, hi as int)) == trim_start(
                chars@.subrange(lo as int, hi as int),
            ),
        decreases hi - i,
    {
        assert(chars@.subrange(i as int, hi as int).drop_first() == chars@.subrange(
            i + 1,
            hi as int,
        ));
        i += 1;
    }
    i
}

/// The end of `trim_end(chars[lo..hi])` within `chars`.
pub(crate) fn skip_trailing_whitespace(chars: &Vec<char>, lo: usize, hi: usize) -> (r: usize)
    requires
        lo <= hi <= chars.len(),
    ensures
        lo <= r <= hi,
        chars@.subrange(lo as int, r as int) == trim_end(chars@.subrange(lo as int, hi as int)),
{
    let mut i: usize = hi;
    while lo < i && char_is_whitespace(chars[i - 1])
        invariant
            lo <= i <= hi <= chars.len(),
            trim_end(chars@.subrange(lo as int, i as int)) == trim_end(
                chars@.subrange(lo as int, hi as int),
            ),
        decreases i - lo,
    {
        assert(chars@.subrange(lo as int, i as int).drop_last() == chars@.subrange(
            lo as int,
            i - 1,
        ));
        i -= 1;
    }
    i
}

/// `pat` stands in `s` at position `i`.
pub open spec fn occurs_at(s: Seq<char>, pat: Seq<char>, i: int) -> bool {
    0 <= i && i + pat.len() <= s.len() && s.subrange(i, i + pat.len()) == pat
}

/// The first position at or after `from` where `pat` stands in `s`.
pub open spec fn first_occurrence(s: Seq<char>, pat: Seq<char>, from: int) -> Option<int>
    decreases s.len() - from + 1,
{
    if from < 0 || from + pat.len() > s.len() {
        None
    } else if occurs_at(s, pat, from) {
        Some(from)
    } else {
        first_occurrence(s, pat, from + 1)
    }
}

/// `first_occurrence` names the leftmost match and nothing else.
pub proof fn lemma_first_occurrence(s: Seq<char>, pat: Seq<char>, from: int)
    requires
        0 <= from,
    ensures
        match first_occurrence(s, pat, from) {
            Some(i) => from <= i && occurs_at(s, pat, i) && forall|j: int|
                from <= j < i ==> !occurs_at(s, pat, j),
            None => forall|j: int| from <= j ==> !occurs_at(s, pat, j),
        },
    decreases s.len() - from + 1,
{
    if from + pat.len() <= s.len() && !occurs_at(s, pat, from) {
        lemma_first_occurrence(s, pat, from + 1);
    }
}

/// Whether `pat` stands in `chars` at position `at`.
pub fn matches_at(chars: &Vec<char>, pat: &Vec<char>, at: usize) -> (r: bool)
    ensures
        r == occurs_at(chars@, pat@, at as int),
{
    if pat.len() > chars.len() || at > chars.len() - pat.len() {
        return false;
    }
    let mut k: usize = 0;
    while k < pat.len()
        invariant
            k <= pat.len(),
            at + pat.len() <= chars.len(),
            chars@.subrange(at as int, at + k) == pat@.subrange(0, k as int),
        decreases pat.len() - k,
    {
        if chars[at + k] != pat[k] {
            assert(chars@.subrange(at as int, at + pat.len())[k as int] != pat@[k as int]);
            return false;
        }
        assert(chars@.subrange(at as int, at + k + 1) == chars@.subrange(at as int, at + k).push(
            chars@[at + k],
        ));
        assert(pat@.subrange(0, k + 1) == pat@.subrange(0, k as int).push(pat@[k as int]));
        k += 1;
    }
    assert(pat@.subrange(0, pat.len() as int) == pat@);
    true
}

/// Searches `chars` for `pat`, starting at `from`.
pub fn find_from(chars: &Vec<char>, pat: &Vec<char>, from: usize) -> (r: Option<usize>)
    ensures
        match r {
            Some(i) => first_occurrence(chars@, pat@, from as int) == Some(i as int),
            None => first_occurrence(chars@, pat@, from as int) is None,
        },
{
    if pat.len() > chars.len() {
        return None;
    }
    let last: usize = chars.len() - pat.len();
    let mut i: usize = from;
    while i <= last
        invariant
            from <= i,
            last == chars.len() - pat.len(),
            first_occurrence(chars@, pat@, i as int) == first_occurrence(
                chars@,
                pat@,
                from as int,
            ),
        decreases last + 1 - i,
    {
        if matches_at(chars, pat, i) {
            return Some(i);
        }
        if i == last {
            assert(first_occurrence(chars@, pat@, i + 1) is None);
            return None;
        }
        i += 1;
    }
    None
}

/// `s` with every run of whitespace replaced by one space. With
/// `after_space` a run at the very start is dropped instead.
pub open spec fn collapse(s: Seq<char>, after_space: bool) -> Seq<char>
    decreases s.len(),
{
    if s.len() == 0 {
        s
    } else if is_whitespace(s[0]) {
        if after_space {
            collapse(s.drop_first(), true)
        } else {
            seq![' '] + collapse(s.drop_first(), true)
        }
    } else {
        seq![s[0]] + collapse(s.drop_first(), false)
    }
}

/// The words of `s`, separated by single spaces.
pub open spec fn normalize_whitespace(s: Seq<char>) -> Seq<char> {
    collapse(trim(s), false)
}

/// Joins the words of `chars` with single spaces.
pub fn normalized(chars: &Vec<char>) -> (out: Vec<char>)
    ensures
        out@ == normalize_whitespace(chars@),
{
    let start: usize = skip_whitespace(chars, 0, chars.len());
    let end: usize = skip_trailing_whitespace(chars, start, chars.len());
    assert(chars@.subrange(0, chars.len() as int) == chars@);
    let mut out: Vec<char> = Vec::new();
    let mut after_space: bool = false;
    let mut i: usize = start;
    while i < end
        invariant
            start <= i <= end <= chars.len(),
            out@ + collapse(chars@.subrange(i as int, end as int), after_space) == collapse(
                chars@.subrange(start as int, end as int),
                false,
            ),
        decreases end - i,
    {
        assert(chars@.subrange(i as int, end as int).drop_first() == chars@.subrange(
            i + 1,
            end as int,
        ));
        let c: char = chars[i];
        if char_is_whitespace(c) {
            if !after_space {
                out.push(' ');
            }
            after_space = true;
        } else {
            out.push(c);
            after_space = false;
        }
        i += 1;
    }
    out
}

/// The code of a character, with a capital ASCII letter counted as its
/// small one.
pub open spec fn ascii_fold(c: char) -> u32 {
    let n = c as u32;
    if 0x41 <= n <= 0x5A {
        (n + 0x20) as u32
    } else {
        n
    }
}

/// Two texts are the same but for the case of their ASCII letters.
pub open spec fn eq_ignore_ascii_case(a: Seq<char>, b: Seq<char>) -> bool {
    a.len() == b.len() && forall|i: int| 0 <= i < a.len() ==> ascii_fold(a[i]) == ascii_fold(b[i])
}

fn fold_char(c: char) -> (n: u32)
    ensures
        n == ascii_fold(c),
{
    let n: u32 = c as u32;
    if 0x41 <= n && n <= 0x5A {
        n + 0x20
    } else {
        n
    }
}

/// Compares two texts without regard to the case of ASCII letters.
pub fn same_ignoring_ascii_case(a: &Vec<char>, b: &Vec<char>) -> (r: bool)
    ensures
        r == eq_ignore_ascii_case(a@, b@),
{
    if a.len() != b.len() {
        return false;
    }
    let mut i: usize = 0;
    while i < a.len()
        invariant
            i <= a.len(),
            a.len() == b.len(),
            forall|k: int| 0 <= k < i ==> ascii_fold(a@[k]) == ascii_fold(b@[k]),
        decreases a.len() - i,
    {
        if fold_char(a[i]) != fold_char(b[i]) {
            return false;
        }
        i += 1;
    }
    true
}

} // verus!
