//! Text as sequences of characters: lower-casing, whitespace-separated words
//! and substring search, which together define what a filter text matches.

use vstd::prelude::*;
use vstd::string::*;

verus! {

/// The five characters that ASCII calls whitespace: space, tab, line feed,
/// form feed and carriage return.
pub open spec fn is_space(c: char) -> bool {
    c == ' ' || c == '\t' || c == '\n' || c == '\x0C' || c == '\r'
}

/// The small letter of an ASCII capital; any other character unchanged.
pub open spec fn lower_char(c: char) -> char {
    if 'A' <= c && c <= 'Z' {
        ((c as u8) + 32) as u8 as char
    } else {
        c
    }
}

/// A text with every ASCII capital replaced by its small letter.
pub open spec fn lower_text(text: Seq<char>) -> Seq<char> {
    Seq::new(text.len(), |i: int| lower_char(text[i]))
}

/// Number of characters before the first whitespace of `text`, or its whole
/// length if it holds none.
pub open spec fn word_len(text: Seq<char>) -> nat
    decreases text.len(),
{
    if text.len() == 0 || is_space(text[0]) {
        0
    } else {
        1 + word_len(text.skip(1))
    }
}

/// The words of a text: its maximal runs of characters that are not
/// whitespace, from left to right. Whitespace only separates, so no word is
/// empty.
pub open spec fn words(text: Seq<char>) -> Seq<Seq<char>>
    decreases text.len(),
    via words_terminates
{
    if text.len() == 0 {
        Seq::empty()
    } else if is_space(text[0]) {
        words(text.skip(1))
    } else {
        seq![text.take(word_len(text) as int)] + words(text.skip(word_len(text) as int))
    }
}

#[via_fn]
proof fn words_terminates(text: Seq<char>) {
    lemma_word_len_bounds(text);
}

/// `needle` stands in `hay` at position `at`.
pub open spec fn occurs_at(needle: Seq<char>, hay: Seq<char>, at: int) -> bool {
    &&& 0 <= at
    &&& at + needle.len() <= hay.len()
    &&& hay.subrange(at, at + needle.len()) == needle
}

/// `needle` is a contiguous part of `hay`.
pub open spec fn occurs_in(needle: Seq<char>, hay: Seq<char>) -> bool {
    exists|at: int| occurs_at(needle, hay, at)
}

/// Every one of `needles` is a contiguous part of `hay`.
pub open spec fn all_occur_in(needles: Seq<Seq<char>>, hay: Seq<char>) -> bool {
    forall|k: int| 0 <= k < needles.len() ==> occurs_in(#[trigger] needles[k], hay)
}

/// A text passes a filter when it holds every word of the filter. A filter
/// without words lets every text pass.
pub open spec fn passes(text: Seq<char>, filter: Seq<char>) -> bool {
    all_occur_in(words(filter), text)
}

/// The character sequences held by a vector of character vectors.
pub open spec fn views(list: Seq<Vec<char>>) -> Seq<Seq<char>> {
    Seq::new(list.len(), |k: int| list[k]@)
}

/// The texts held by a list of strings.
pub open spec fn texts(list: Seq<String>) -> Seq<Seq<char>> {
    Seq::new(list.len(), |k: int| list[k]@)
}

/// `word_len` counts exactly the characters up to the first whitespace.
pub proof fn lemma_word_len(text: Seq<char>, n: int)
    requires
        0 <= n <= text.len(),
        forall|m: int| 0 <= m < n ==> !is_space(text[m]),
        n == text.len() || is_space(text[n]),
    ensures
        word_len(text) == n,
    decreases n,
{
    if n > 0 {
        lemma_word_len(text.skip(1), n - 1);
    }
}

/// A word holds no whitespace and stops at whitespace or at the end.
pub proof fn lemma_word_len_bounds(text: Seq<char>)
    ensures
        word_len(text) <= text.len(),
        forall|m: int| 0 <= m < word_len(text) ==> !is_space(#[trigger] text[m]),
        word_len(text) == text.len() || is_space(text[word_len(text) as int]),
    decreases text.len(),
{
    if !(text.len() == 0 || is_space(text[0])) {
        let rest = text.skip(1);
        lemma_word_len_bounds(rest);
        assert forall|m: int| 0 <= m < word_len(text) implies !is_space(#[trigger] text[m]) by {
            if m > 0 {
                assert(text[m] == rest[m - 1]);
            }
        }
    }
}

/// A text of whitespace only has no words.
pub proof fn lemma_blank_has_no_words(text: Seq<char>)
    requires
        forall|m: int| 0 <= m < text.len() ==> is_space(#[trigger] text[m]),
    ensures
        words(text).len() == 0,
    decreases text.len(),
{
    if text.len() > 0 {
        let rest = text.skip(1);
        lemma_blank_has_no_words(rest);
    }
}

/// Wraps `str::to_ascii_lowercase`, which returns a copy of the text in which
/// the ASCII letters 'A' to 'Z' are replaced by 'a' to 'z' and every other
/// character is kept.
#[verifier::external_body]
pub(crate) fn ascii_lowercase(text: &str) -> (lowered: String)
    ensures
        lowered@ == lower_text(text@),
{
    text.to_ascii_lowercase()
}

/// The characters of a text, one by one.
pub fn chars_of(text: &str) -> (chars: Vec<char>)
    ensures
        chars@ == text@,
{
    let mut chars: Vec<char> = Vec::new();
    for c in it: text.chars()
        invariant
            chars@ == it.seq().take(it.index()),
            it.seq() == text@,
    {
        chars.push(c);
    }
    chars
}

/// Whether two texts hold the same characters.
pub fn same_text(a: &str, b: &str) -> (same: bool)
    ensures
        same == (a@ == b@),
{
    let left = a.to_owned();
    let right = b.to_owned();
    left == right
}

/// Whether a list of strings holds a given text.
pub fn holds_text(list: &Vec<String>, text: &str) -> (found: bool)
    ensures
        found == texts(list@).contains(text@),
{
    let wanted = text.to_owned();
    let mut k: usize = 0;
    while k < list.len()
        invariant
            k <= list.len(),
            wanted@ == text@,
            forall|j: int| 0 <= j < k ==> texts(list@)[j] != text@,
        decreases list.len() - k,
    {
        if list[k] == wanted {
            proof {
                assert(texts(list@)[k as int] == text@);
            }
            return true;
        }
        k += 1;
    }
    false
}

/// Whether a character is ASCII whitespace.
pub fn is_space_char(c: char) -> (space: bool)
    ensures
        space == is_space(c),
{
    c == ' ' || c == '\t' || c == '\n' || c == '\x0C' || c == '\r'
}

/// Splits a text at ASCII whitespace into its words, dropping the whitespace.
pub fn split_words(text: &str) -> (list: Vec<Vec<char>>)
    ensures
        views(list@) == words(text@),
{
    let chars = chars_of(text);
    let mut list: Vec<Vec<char>> = Vec::new();
    let mut i: usize = 0;
    proof {
        assert(chars@.skip(0) =~= chars@);
    }
    while i < chars.len()
        invariant
            i <= chars.len(),
            chars@ == text@,
            words(text@) == views(list@) + words(chars@.skip(i as int)),
        decreases chars.len() - i,
    {
        let ghost rest = chars@.skip(i as int);
        if is_space_char(chars[i]) {
            proof {
                assert(rest.skip(1) =~= chars@.skip(i + 1));
            }
            i += 1;
        } else {
            let start: usize = i;
            let mut word: Vec<char> = Vec::new();
            while i < chars.len() && !is_space_char(chars[i])
                invariant
                    start <= i <= chars.len(),
                    word@ == chars@.subrange(start as int, i as int),
                    forall|m: int| start <= m < i ==> !is_space(chars@[m]),
                decreases chars.len() - i,
            {
                word.push(chars[i]);
                i += 1;
            }
            proof {
                let n = i - start;
                lemma_word_len(rest, n);
                assert(rest.take(n) =~= word@);
                assert(rest.skip(n) =~= chars@.skip(i as int));
            }
            list.push(word);
        }
    }
    list
}

/// Whether `needle` stands in `hay` at position `at`.
fn stands_at(hay: &Vec<char>, needle: &Vec<char>, at: usize) -> (found: bool)
    requires
        at + needle.len() <= hay.len(),
    ensures
        found == occurs_at(needle@, hay@, at as int),
{
    let mut k: usize = 0;
    while k < needle.len()
        invariant
            k <= needle.len(),
            at + needle.len() <= hay.len(),
            forall|j: int| 0 <= j < k ==> hay@[at + j] == needle@[j],
        decreases needle.len() - k,
    {
        if hay[at + k] != needle[k] {
            return false;
        }
        k += 1;
    }
    proof {
        assert(hay@.subrange(at as int, at + needle.len()) =~= needle@);
    }
    true
}

/// Whether `needle` is a contiguous part of `hay`. The empty text is part of
/// every text.
pub fn contains(hay: &Vec<char>, needle: &Vec<char>) -> (found: bool)
    ensures
        found == occurs_in(needle@, hay@),
{
    if needle.len() > hay.len() {
        return false;
    }
    let last: usize = hay.len() - needle.len();
    let mut at: usize = 0;
    loop
        invariant
            at <= last,
            last + needle.len() == hay.len(),
            forall|a: int| 0 <= a < at ==> !occurs_at(needle@, hay@, a),
        decreases last - at,
    {
        if stands_at(hay, needle, at) {
            return true;
        }
        if at == last {
            return false;
        }
        at += 1;
    }
}

/// Whether every one of `needles` is a contiguous part of `hay`.
pub fn contains_all(hay: &Vec<char>, needles: &Vec<Vec<char>>) -> (found: bool)
    ensures
        found == all_occur_in(views(needles@), hay@),
{
    let mut k: usize = 0;
    while k < needles.len()
        invariant
            k <= needles.len(),
            forall|j: int| 0 <= j < k ==> occurs_in(#[trigger] views(needles@)[j], hay@),
        decreases needles.len() - k,
    {
        if !contains(hay, &needles[k]) {
            proof {
                assert(views(needles@)[k as int] == needles@[k as int]@);
            }
            return false;
        }
        k += 1;
    }
    true
}

} // verus!
