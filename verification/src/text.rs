//! Text operations that the anomaly scan and the intent parser rely on.

use vstd::prelude::*;

verus! {

/// The lower-case form of a text: what `str::to_lowercase` returns for it.
pub uninterp spec fn lowercase(text: Seq<char>) -> Seq<char>;

/// Whether a character is white space: what `char::is_whitespace` returns
/// for it.
pub uninterp spec fn is_white_space(c: char) -> bool;

/// The position of the first character at or after `from` that is not
/// white space; the length of the text where there is none.
pub open spec fn first_inked_from(text: Seq<char>, from: int) -> int
    decreases text.len() - from,
{
    if from < 0 || from >= text.len() {
        text.len() as int
    } else if !is_white_space(text[from]) {
        from
    } else {
        first_inked_from(text, from + 1)
    }
}

/// The position just behind the last character before `upto` that is not
/// white space; 0 where there is none.
pub open spec fn last_inked_before(text: Seq<char>, upto: int) -> int
    decreases upto,
{
    if upto <= 0 || upto > text.len() {
        0
    } else if !is_white_space(text[upto - 1]) {
        upto
    } else {
        last_inked_before(text, upto - 1)
    }
}

/// A text without the white space at its two ends.
pub open spec fn trimmed(text: Seq<char>) -> Seq<char> {
    let start = first_inked_from(text, 0);
    let end = last_inked_before(text, text.len() as int);
    if start >= end {
        Seq::empty()
    } else {
        text.subrange(start, end)
    }
}

/// Where the division into words stands after some characters: the words
/// that white space has closed, and the word that is still open.
pub open spec fn words_progress(text: Seq<char>) -> (Seq<Seq<char>>, Seq<char>)
    decreases text.len(),
{
    if text.len() == 0 {
        (Seq::empty(), Seq::empty())
    } else {
        let (closed, open) = words_progress(text.drop_last());
        if !is_white_space(text.last()) {
            (closed, open.push(text.last()))
        } else if open.len() > 0 {
            (closed.push(open), Seq::empty())
        } else {
            (closed, open)
        }
    }
}

/// The words of a text: the longest runs of characters that are not white
/// space, in order.
pub open spec fn whitespace_words(text: Seq<char>) -> Seq<Seq<char>> {
    let (closed, open) = words_progress(text);
    if open.len() > 0 {
        closed.push(open)
    } else {
        closed
    }
}

/// Whether a character is an upper-case letter: what `char::is_uppercase`
/// returns for it.
pub uninterp spec fn is_uppercase(c: char) -> bool;

/// Whether `needle` stands in `hay` at position `at`.
pub open spec fn occurs_at(hay: Seq<char>, needle: Seq<char>, at: int) -> bool {
    0 <= at && at + needle.len() <= hay.len() && hay.subrange(at, at + needle.len()) == needle
}

/// Whether `needle` is a contiguous part of `hay`.
pub open spec fn contains_text(hay: Seq<char>, needle: Seq<char>) -> bool {
    exists|at: int| occurs_at(hay, needle, at)
}

/// Calls `str::to_lowercase`. Trusted: the result is the lower-case form of
/// the argument, which depends on the characters of the argument alone.
#[verifier::external_body]
pub(crate) fn to_lowercase(text: &str) -> (lower: String)
    ensures
        lower@ == lowercase(text@),
{
    text.to_lowercase()
}

/// Calls `char::is_whitespace`. Trusted: the answer depends on the character
/// alone.
#[verifier::external_body]
pub(crate) fn char_is_whitespace(c: char) -> (space: bool)
    ensures
        space == is_white_space(c),
{
    c.is_whitespace()
}

/// Calls `char::is_uppercase`. Trusted: the answer depends on the character
/// alone.
#[verifier::external_body]
pub(crate) fn char_is_uppercase(c: char) -> (upper: bool)
    ensures
        upper == is_uppercase(c),
{
    c.is_uppercase()
}

/// The characters of a text, one by one.
pub fn chars_of(text: &str) -> (chars: Vec<char>)
    ensures
        chars@ == text@,
{
    let mut chars: Vec<char> = Vec::new();
    for c in it: text.chars()
        invariant
            it.seq() == text@,
            chars@ == text@.subrange(0, it.index() as int),
    {
        chars.push(c);
        assert(chars@ =~= text@.subrange(0, it.index() + 1));
    }
    assert(chars@ =~= text@);
    chars
}

/// Whether `needle` stands in `hay` at position `at`.
pub fn stands_at(hay: &Vec<char>, needle: &Vec<char>, at: usize) -> (found: bool)
    requires
        at + needle.len() <= hay.len(),
    ensures
        found == occurs_at(hay@, needle@, at as int),
{
    let mut i: usize = 0;
    while i < needle.len()
        invariant
            i <= needle.len(),
            at + needle.len() <= hay.len(),
            forall|j: int| 0 <= j < i ==> hay[at + j] == needle[j],
        decreases needle.len() - i,
    {
        if hay[at + i] != needle[i] {
            assert(hay@.subrange(at as int, at + needle.len())[i as int] != needle@[i as int]);
            return false;
        }
        i += 1;
    }
    assert(hay@.subrange(at as int, at + needle.len()) =~= needle@);
    true
}

/// Whether one list of characters is a contiguous part of another.
pub fn contains_chars(hay: &Vec<char>, needle: &Vec<char>) -> (found: bool)
    ensures
        found == contains_text(hay@, needle@),
{
    if needle.len() > hay.len() {
        assert forall|at: int| !occurs_at(hay@, needle@, at) by {}
        return false;
    }
    let last = hay.len() - needle.len();
    let mut at: usize = 0;
    loop
        invariant
            last == hay.len() - needle.len(),
            at <= last,
            forall|earlier: int| 0 <= earlier < at ==> !occurs_at(hay@, needle@, earlier),
        decreases last - at,
    {
        if stands_at(hay, needle, at) {
            return true;
        }
        if at == last {
            assert forall|any: int| !occurs_at(hay@, needle@, any) by {}
            return false;
        }
        at += 1;
    }
}

/// Whether `needle` is a contiguous part of a text given by its characters.
pub fn contains_in(hay: &Vec<char>, needle: &str) -> (found: bool)
    ensures
        found == contains_text(hay@, needle@),
{
    let needle_chars = chars_of(needle);
    contains_chars(hay, &needle_chars)
}

/// Whether `needle` is a contiguous part of `hay`.
pub fn contains(hay: &str, needle: &str) -> (found: bool)
    ensures
        found == contains_text(hay@, needle@),
{
    let hay_chars = chars_of(hay);
    contains_in(&hay_chars, needle)
}

/// Whether two texts hold the same characters.
pub fn same_text(left: &str, right: &str) -> (same: bool)
    ensures
        same == (left@ == right@),
{
    let left_chars = chars_of(left);
    let right_chars = chars_of(right);
    if left_chars.len() != right_chars.len() {
        return false;
    }
    let found = stands_at(&left_chars, &right_chars, 0);
    assert(left@.subrange(0, right@.len() as int) =~= left@);
    found
}

/// Where splitting stands after some characters: the pieces that a
/// separator has closed, and the piece that is still open.
pub open spec fn split_progress(text: Seq<char>, separator: char) -> (Seq<Seq<char>>, Seq<char>)
    decreases text.len(),
{
    if text.len() == 0 {
        (Seq::empty(), Seq::empty())
    } else {
        let (closed, open) = split_progress(text.drop_last(), separator);
        if text.last() == separator {
            (closed.push(open), Seq::empty())
        } else {
            (closed, open.push(text.last()))
        }
    }
}

/// The pieces of a text between separators, in order. A text without a
/// separator is one piece; a separator at either end leaves an empty piece.
pub open spec fn split_on(text: Seq<char>, separator: char) -> Seq<Seq<char>> {
    let (closed, open) = split_progress(text, separator);
    closed.push(open)
}

/// The characters of each text of a list.
pub open spec fn text_views(texts: Seq<String>) -> Seq<Seq<char>> {
    Seq::new(texts.len(), |i: int| texts[i]@)
}

/// Splits a text at every occurrence of a separator.
pub fn split_text(text: &str, separator: char) -> (pieces: Vec<String>)
    ensures
        text_views(pieces@) == split_on(text@, separator),
{
    let chars = chars_of(text);
    let mut pieces: Vec<String> = Vec::new();
    let mut start: usize = 0;
    let mut i: usize = 0;
    assert(text_views(pieces@) =~= Seq::<Seq<char>>::empty());
    assert(text@.subrange(0, 0) =~= Seq::<char>::empty());
    while i < chars.len()
        invariant
            chars@ == text@,
            start <= i <= chars.len(),
            split_progress(text@.subrange(0, i as int), separator) == (
                text_views(pieces@),
                text@.subrange(start as int, i as int),
            ),
        decreases chars.len() - i,
    {
        proof {
            assert(text@.subrange(0, i + 1).drop_last() =~= text@.subrange(0, i as int));
            assert(text@.subrange(0, i + 1).last() == chars@[i as int]);
        }
        if chars[i] == separator {
            let ghost before = text_views(pieces@);
            let piece = text.substring_char(start, i);
            pieces.push(piece.to_owned());
            assert(text_views(pieces@) =~= before.push(text@.subrange(start as int, i as int)));
            start = i + 1;
            assert(text@.subrange(start as int, i + 1) =~= Seq::<char>::empty());
        } else {
            assert(text@.subrange(start as int, i + 1) =~= text@.subrange(
                start as int,
                i as int,
            ).push(chars@[i as int]));
        }
        i += 1;
    }
    let ghost before = text_views(pieces@);
    let piece = text.substring_char(start, i);
    pieces.push(piece.to_owned());
    assert(text@.subrange(0, i as int) =~= text@);
    assert(text_views(pieces@) =~= before.push(text@.subrange(start as int, i as int)));
    pieces
}

/// Takes the white space away from the two ends of a text.
pub fn trim(text: &str) -> (inner: &str)
    ensures
        inner@ == trimmed(text@),
{
    let chars = chars_of(text);
    let mut start: usize = 0;
    while start < chars.len() && char_is_whitespace(chars[start])
        invariant
            chars@ == text@,
            start <= chars.len(),
            first_inked_from(text@, 0) == first_inked_from(text@, start as int),
        decreases chars.len() - start,
    {
        start += 1;
    }
    let mut end: usize = chars.len();
    while end > 0 && char_is_whitespace(chars[end - 1])
        invariant
            chars@ == text@,
            end <= chars.len(),
            last_inked_before(text@, text@.len() as int) == last_inked_before(text@, end as int),
        decreases end,
    {
        end -= 1;
    }
    if start >= end {
        let nothing = text.substring_char(0, 0);
        assert(nothing@ =~= Seq::<char>::empty());
        nothing
    } else {
        text.substring_char(start, end)
    }
}

/// Divides a text into its words.
pub fn words_of(text: &str) -> (words: Vec<String>)
    ensures
        text_views(words@) == whitespace_words(text@),
{
    let chars = chars_of(text);
    let mut words: Vec<String> = Vec::new();
    let mut start: usize = 0;
    let mut i: usize = 0;
    assert(text_views(words@) =~= Seq::<Seq<char>>::empty());
    assert(text@.subrange(0, 0) =~= Seq::<char>::empty());
    while i < chars.len()
        invariant
            chars@ == text@,
            start <= i <= chars.len(),
            words_progress(text@.subrange(0, i as int)) == (
                text_views(words@),
                text@.subrange(start as int, i as int),
            ),
        decreases chars.len() - i,
    {
        proof {
            assert(text@.subrange(0, i + 1).drop_last() =~= text@.subrange(0, i as int));
            assert(text@.subrange(0, i + 1).last() == chars@[i as int]);
        }
        if char_is_whitespace(chars[i]) {
            if start < i {
                let ghost before = text_views(words@);
                let word = text.substring_char(start, i);
                words.push(word.to_owned());
                assert(text_views(words@) =~= before.push(
                    text@.subrange(start as int, i as int),
                ));
            }
            start = i + 1;
            assert(text@.subrange(start as int, i + 1) =~= Seq::<char>::empty());
        } else {
            assert(text@.subrange(start as int, i + 1) =~= text@.subrange(
                start as int,
                i as int,
            ).push(chars@[i as int]));
        }
        i += 1;
    }
    assert(text@.subrange(0, i as int) =~= text@);
    if start < i {
        let ghost before = text_views(words@);
        let word = text.substring_char(start, i);
        words.push(word.to_owned());
        assert(text_views(words@) =~= before.push(text@.subrange(start as int, i as int)));
    }
    words
}

} // verus!
