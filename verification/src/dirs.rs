//! Paths of sample files: which file names count as I/Q sample files, and
//! which entries of a directory listing are shown, in which order.

use crate::text::{chars_of, same_text, texts};
use std::path::Path;
use vstd::prelude::*;
use vstd::string::*;

verus! {

/// The file name extensions of the sample formats that are recognised.
pub const FORMATS: [&'static str; 20] = [
    "cu4",
    "cs4",
    "cu8",
    "data",
    "complex16u",
    "cs8",
    "complex16s",
    "cu12",
    "cs12",
    "cu16",
    "cs16",
    "cu32",
    "cs32",
    "cu64",
    "cs64",
    "cf32",
    "cfile",
    "complex",
    "cf64",
    "sigmf",
];

/// The recognised extensions as texts, in the order of `FORMATS`.
pub open spec fn formats() -> Seq<Seq<char>> {
    seq![
        "cu4"@,
        "cs4"@,
        "cu8"@,
        "data"@,
        "complex16u"@,
        "cs8"@,
        "complex16s"@,
        "cu12"@,
        "cs12"@,
        "cu16"@,
        "cs16"@,
        "cu32"@,
        "cs32"@,
        "cu64"@,
        "cs64"@,
        "cf32"@,
        "cfile"@,
        "complex"@,
        "cf64"@,
        "sigmf"@,
    ]
}

/// An extension is recognised when it is, letter for letter and case for
/// case, one of `formats()`.
pub open spec fn is_format(extension: Seq<char>) -> bool {
    formats().contains(extension)
}

/// Position of the last dot of a file name, or -1 where it has none.
pub open spec fn last_dot(name: Seq<char>) -> int
    decreases name.len(),
{
    if name.len() == 0 {
        -1
    } else if name.last() == '.' {
        name.len() - 1
    } else {
        last_dot(name.drop_last())
    }
}

/// The extension of a file name: what follows its last dot. A name without a
/// dot has none, and neither has a name whose only dot is its first
/// character.
pub open spec fn extension(name: Seq<char>) -> Option<Seq<char>> {
    if last_dot(name) <= 0 {
        None
    } else {
        Some(name.skip(last_dot(name) + 1))
    }
}

/// Whether a file name carries a recognised extension.
pub open spec fn is_iq_name(name: Seq<char>) -> bool {
    match extension(name) {
        Some(e) => is_format(e),
        None => false,
    }
}

/// The final component of a path, as `std::path::Path::file_name` finds it.
pub uninterp spec fn file_name_of(path: Seq<char>) -> Option<Seq<char>>;

/// A directory path extended by a name, as `std::path::Path::join` builds it.
pub uninterp spec fn joined(dir: Seq<char>, name: Seq<char>) -> Seq<char>;

/// Whether a path names an I/Q sample file: its final component carries a
/// recognised extension.
pub open spec fn is_iq_path(path: Seq<char>) -> bool {
    match file_name_of(path) {
        Some(name) => is_iq_name(name),
        None => false,
    }
}

/// The paths among `list` that name I/Q sample files, in their order.
pub open spec fn iq_paths(list: Seq<Seq<char>>) -> Seq<Seq<char>> {
    list.filter(|p: Seq<char>| is_iq_path(p))
}

/// Lexicographic order of texts by the code points of their characters.
pub open spec fn text_le(a: Seq<char>, b: Seq<char>) -> bool
    decreases a.len(),
{
    if a.len() == 0 {
        true
    } else if b.len() == 0 {
        false
    } else if a[0] != b[0] {
        (a[0] as u32) < (b[0] as u32)
    } else {
        text_le(a.skip(1), b.skip(1))
    }
}

/// A list of texts in ascending order.
pub open spec fn ascending(list: Seq<Seq<char>>) -> bool {
    forall|i: int, j: int| 0 <= i < j < list.len() ==> text_le(list[i], list[j])
}

/// The dot found at `dot` is the last one of `name`.
proof fn lemma_last_dot(name: Seq<char>, dot: int)
    requires
        0 <= dot < name.len(),
        name[dot] == '.',
        forall|j: int| dot < j < name.len() ==> name[j] != '.',
    ensures
        last_dot(name) == dot,
    decreases name.len(),
{
    if name.last() != '.' {
        lemma_last_dot(name.drop_last(), dot);
    }
}

/// A name without any dot has no last dot.
proof fn lemma_no_dot(name: Seq<char>)
    requires
        forall|j: int| 0 <= j < name.len() ==> name[j] != '.',
    ensures
        last_dot(name) == -1,
    decreases name.len(),
{
    if name.len() > 0 {
        lemma_no_dot(name.drop_last());
    }
}

/// Wraps `std::path::Path::file_name`: the final component of the path, or
/// nothing where the path has none (it is empty, a root, or ends in `..`).
#[verifier::external_body]
pub(crate) fn file_name(path: &str) -> (name: Option<String>)
    ensures
        match name {
            Some(n) => file_name_of(path@) == Some(n@),
            None => file_name_of(path@) is None,
        },
{
    match Path::new(path).file_name() {
        Some(name) => Some(name.to_string_lossy().into_owned()),
        None => None,
    }
}

/// Wraps `std::path::Path::join`: the path of `name` inside the directory
/// `dir`.
#[verifier::external_body]
pub(crate) fn join(dir: &str, name: &str) -> (path: String)
    ensures
        path@ == joined(dir@, name@),
{
    Path::new(dir).join(name).to_string_lossy().into_owned()
}

/// Wraps the sort of a slice of strings, `[String]::sort`: afterwards the
/// strings stand in ascending order, which for strings is the lexicographic
/// order of their code points, and they are the same strings as before.
#[verifier::external_body]
fn sort_texts(list: &mut Vec<String>)
    ensures
        ascending(texts(final(list)@)),
        texts(final(list)@).to_multiset() == texts(old(list)@).to_multiset(),
{
    list.sort();
}

/// The extension of a file name, if it has one.
pub fn extension_of(name: &str) -> (found: Option<String>)
    ensures
        match found {
            Some(e) => extension(name@) == Some(e@),
            None => extension(name@) is None,
        },
{
    let chars = chars_of(name);
    let mut at: usize = chars.len();
    while at > 0 && chars[at - 1] != '.'
        invariant
            at <= chars.len(),
            chars@ == name@,
            forall|j: int| at <= j < chars.len() ==> chars@[j] != '.',
        decreases at,
    {
        at -= 1;
    }
    if at == 0 {
        proof {
            lemma_no_dot(name@);
        }
        None
    } else {
        proof {
            lemma_last_dot(name@, at - 1);
        }
        if at == 1 {
            None
        } else {
            let tail = name.substring_char(at, chars.len());
            Some(String::from_str(tail))
        }
    }
}

/// Whether an extension is one of the recognised sample formats. The
/// comparison is exact: `CU8` is not recognised.
pub fn is_format_extension(extension: &str) -> (known: bool)
    ensures
        known == is_format(extension@),
{
    let mut k: usize = 0;
    while k < 20
        invariant
            k <= 20,
            formats().len() == 20,
            forall|j: int| 0 <= j < 20 ==> FORMATS[j]@ == #[trigger] formats()[j],
            forall|j: int| 0 <= j < k ==> formats()[j] != extension@,
        decreases 20 - k,
    {
        if same_text(FORMATS[k], extension) {
            return true;
        }
        k += 1;
    }
    false
}

/// Whether a file name carries the extension of a recognised sample format.
pub fn is_iq_file_name(name: &str) -> (known: bool)
    ensures
        known == is_iq_name(name@),
{
    match extension_of(name) {
        Some(e) => is_format_extension(e.as_str()),
        None => false,
    }
}

/// Whether a path names an I/Q sample file, judged by the extension of its
/// final component alone.
pub fn is_iq_file(path: &str) -> (known: bool)
    ensures
        known == is_iq_path(path@),
{
    match file_name(path) {
        Some(name) => is_iq_file_name(name.as_str()),
        None => false,
    }
}

/// The sample files among the entries of a directory listing, in ascending
/// order of their paths. The listing may come in any order.
pub fn read_dir_iq(listing: Vec<String>) -> (files: Vec<String>)
    ensures
        ascending(texts(files@)),
        texts(files@).to_multiset() == iq_paths(texts(listing@)).to_multiset(),
{
    let mut files: Vec<String> = Vec::new();
    let ghost all = texts(listing@);
    for entry in it: listing
        invariant
            it.seq() == listing@,
            all == texts(listing@),
            texts(files@) == iq_paths(all.take(it.index() as int)),
    {
        proof {
            let seen = all.take(it.index() as int);
            assert(all.take(it.index() + 1) =~= seen.push(entry@));
            seen.lemma_filter_push(entry@, |p: Seq<char>| is_iq_path(p));
        }
        if is_iq_file(entry.as_str()) {
            files.push(entry);
        }
    }
    proof {
        assert(all.take(all.len() as int) =~= all);
    }
    sort_texts(&mut files);
    files
}

} // verus!
