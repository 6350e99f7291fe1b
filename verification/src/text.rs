//! Text as a sequence of characters, and the few operations that the rules need on it.

use vstd::prelude::*;

verus! {

/// The lower case of an ASCII capital; every other character is kept.
pub open spec fn ascii_lower(c: char) -> char {
    if 'A' <= c && c <= 'Z' {
        ((c as u32) + 32) as char
    } else {
        c
    }
}

/// `text` with every ASCII capital in lower case.
pub open spec fn ascii_lowercase(text: Seq<char>) -> Seq<char> {
    Seq::new(text.len(), |i: int| ascii_lower(text[i]))
}

/// `text` without the characters `c` that it ends in.
pub open spec fn trim_end(text: Seq<char>, c: char) -> Seq<char>
    decreases text.len(),
{
    if text.len() > 0 && text.last() == c {
        trim_end(text.drop_last(), c)
    } else {
        text
    }
}

/// `str::to_ascii_lowercase` of std: a copy of the text in which the letters `A` to `Z`
/// are mapped to `a` to `z`, one for one, and nothing else is changed.
pub assume_specification[ str::to_ascii_lowercase ](s: &str) -> (lower: String)
    ensures
        lower@ == ascii_lowercase(s@),
;

/// How std's `Debug` writes a list of texts that hold these characters.
pub uninterp spec fn debug_text(texts: Seq<Seq<char>>) -> Seq<char>;

/// `Debug` of std for a vector of strings, by `format`: what is written depends on the texts
/// alone. How it writes them, their quotes and escapes, is not said here.
#[verifier::external_body]
pub(crate) fn debug_list(texts: &Vec<String>) -> (text: String)
    ensures
        text@ == debug_text(texts.deep_view()),
{
    format!("{:?}", texts)
}

/// The characters of `text`, in order.
pub(crate) fn characters(text: &str) -> (chars: Vec<char>)
    ensures
        chars@ == text@,
{
    let mut chars: Vec<char> = Vec::new();
    for c in iter: text.chars()
        invariant
            chars@ == text@.take(iter.index() as int),
            iter.seq() == text@,
    {
        chars.push(c);
    }
    chars
}

/// Whether `text` begins with `prefix`.
pub fn starts_with(text: &str, prefix: &str) -> (yes: bool)
    ensures
        yes == prefix@.is_prefix_of(text@),
{
    let text_chars: Vec<char> = characters(text);
    let prefix_chars: Vec<char> = characters(prefix);
    if prefix_chars.len() > text_chars.len() {
        return false;
    }
    let mut i: usize = 0;
    while i < prefix_chars.len()
        invariant
            i <= prefix_chars.len() <= text_chars.len(),
            text_chars@ == text@,
            prefix_chars@ == prefix@,
            prefix@.take(i as int) == text@.take(i as int),
        decreases prefix_chars.len() - i,
    {
        if prefix_chars[i] != text_chars[i] {
            assert(text@.take(prefix@.len() as int)[i as int] == text@[i as int]);
            return false;
        }
        assert(prefix@.take(i + 1) == prefix@.take(i as int).push(prefix@[i as int]));
        assert(text@.take(i + 1) == text@.take(i as int).push(text@[i as int]));
        i = i + 1;
    }
    assert(prefix@.take(i as int) == prefix@);
    true
}

/// Whether `text` ends with `suffix`.
pub fn ends_with(text: &str, suffix: &str) -> (yes: bool)
    ensures
        yes == suffix@.is_suffix_of(text@),
{
    let text_chars: Vec<char> = characters(text);
    let suffix_chars: Vec<char> = characters(suffix);
    if suffix_chars.len() > text_chars.len() {
        return false;
    }
    let start: usize = text_chars.len() - suffix_chars.len();
    let mut i: usize = 0;
    while i < suffix_chars.len()
        invariant
            i <= suffix_chars.len() <= text_chars.len(),
            start == text_chars.len() - suffix_chars.len(),
            text_chars@ == text@,
            suffix_chars@ == suffix@,
            forall|j: int| 0 <= j < i ==> #[trigger] suffix@[j] == text@[start + j],
        decreases suffix_chars.len() - i,
    {
        if suffix_chars[i] != text_chars[start + i] {
            return false;
        }
        i = i + 1;
    }
    assert(suffix@ =~= text@.subrange(start as int, text@.len() as int));
    true
}

/// `text` without the full stops that it ends in.
pub fn trim_end_stops(text: &str) -> (trimmed: &str)
    ensures
        trimmed@ == trim_end(text@, '.'),
{
    let chars: Vec<char> = characters(text);
    let mut end: usize = chars.len();
    assert(text@.take(end as int) == text@);
    while end > 0 && chars[end - 1] == '.'
        invariant
            end <= chars.len(),
            chars@ == text@,
            trim_end(text@.take(end as int), '.') == trim_end(text@, '.'),
        decreases end,
    {
        assert(text@.take(end as int).drop_last() == text@.take(end - 1));
        end = end - 1;
    }
    text.substring_char(0, end)
}

/// The text of an optional string, if there is one.
pub open spec fn optional_text(text: Option<String>) -> Option<Seq<char>> {
    match text {
        Some(text) => Some(text@),
        None => None,
    }
}

/// Trimming keeps a beginning of the text, drops nothing but the given character, and leaves
/// none of it at the end.
pub proof fn trimming_drops_only_the_end(text: Seq<char>, c: char)
    ensures
        ({
            let kept = trim_end(text, c);
            &&& kept.len() <= text.len()
            &&& forall|i: int| 0 <= i < kept.len() ==> kept[i] == #[trigger] text[i]
            &&& forall|i: int| kept.len() <= i < text.len() ==> #[trigger] text[i] == c
            &&& kept.len() > 0 ==> kept[kept.len() - 1] != c
        }),
    decreases text.len(),
{
    if text.len() > 0 && text[text.len() - 1] == c {
        trimming_drops_only_the_end(text.drop_last(), c);
        assert(forall|i: int|
            0 <= i < text.len() - 1 ==> text.drop_last()[i] == #[trigger] text[i]);
    }
}

/// What is left of a text without the full stops that it ends in: its beginning up to its
/// last other character. A text that ends in none is left whole.
pub proof fn only_stops_at_the_end_are_trimmed(text: &str, trimmed: &str)
    requires
        call_ensures(trim_end_stops, (text,), trimmed),
    ensures
        trimmed@.len() <= text@.len(),
        forall|i: int| 0 <= i < trimmed@.len() ==> trimmed@[i] == #[trigger] text@[i],
        forall|i: int| trimmed@.len() <= i < text@.len() ==> #[trigger] text@[i] == '.',
        trimmed@.len() > 0 ==> trimmed@[trimmed@.len() - 1] != '.',
        text@.len() > 0 && text@[text@.len() - 1] != '.' ==> trimmed@ == text@,
{
    trimming_drops_only_the_end(text@, '.');
}

/// In lower case, a letter from `A` to `Z` becomes the one at the same place from `a` to `z`,
/// and every other character stays.
pub proof fn lower_case_changes_only_capitals(text: &str, lower: String)
    requires
        call_ensures(str::to_ascii_lowercase, (text,), lower),
    ensures
        lower@.len() == text@.len(),
        forall|i: int|
            0 <= i < text@.len() && 'A' <= #[trigger] text@[i] && text@[i] <= 'Z' ==> lower@[i] as int
                - 'a' as int == text@[i] as int - 'A' as int,
        forall|i: int|
            0 <= i < text@.len() && !('A' <= #[trigger] text@[i] && text@[i] <= 'Z') ==> lower@[i]
                == text@[i],
{
}

/// A text begins with another exactly if the two agree as far as that one goes.
pub proof fn beginnings_agree(text: &str, prefix: &str, yes: bool)
    requires
        call_ensures(starts_with, (text, prefix), yes),
    ensures
        yes <==> prefix@.len() <= text@.len() && forall|i: int|
            0 <= i < prefix@.len() ==> #[trigger] prefix@[i] == text@[i],
{
    if prefix@.len() <= text@.len() {
        assert(forall|i: int|
            0 <= i < prefix@.len() ==> text@.take(prefix@.len() as int)[i] == #[trigger] text@[i]);
    }
}

/// A text ends with another exactly if the two agree, from the end on, as far as that one
/// goes.
pub proof fn ends_agree(text: &str, suffix: &str, yes: bool)
    requires
        call_ensures(ends_with, (text, suffix), yes),
    ensures
        yes <==> suffix@.len() <= text@.len() && forall|i: int|
            0 <= i < suffix@.len() ==> #[trigger] suffix@[i] == text@[text@.len() - suffix@.len()
                + i],
{
    if suffix@.len() <= text@.len() {
        let end = text@.subrange(text@.len() - suffix@.len(), text@.len() as int);
        assert(forall|i: int|
            0 <= i < suffix@.len() ==> end[i] == #[trigger] text@[text@.len() - suffix@.len() + i]);
        if forall|i: int|
            0 <= i < suffix@.len() ==> #[trigger] suffix@[i] == text@[text@.len() - suffix@.len()
                + i] {
            assert(suffix@ =~= end);
        }
    }
}

} // verus!
