//! One sample file of the collection: what was found out about it when it was
//! last looked at, the two marks a user can set on it, and the text that a
//! filter is matched against.

use crate::dirs::{file_name, file_name_of};
use crate::text::{all_occur_in, ascii_lowercase, chars_of, contains_all, lower_text, views};
use iced::widget::image::Handle;
use vstd::prelude::*;
use vstd::string::*;

verus! {

/// A rendered picture: rows of pixels of four bytes each, red, green, blue
/// and alpha.
#[derive(Debug)]
pub struct Bitmap {
    pub width: u32,
    pub height: u32,
    pub pixels: Vec<u8>,
}

/// A picture as plain values.
pub struct BitmapView {
    pub width: u32,
    pub height: u32,
    pub pixels: Seq<u8>,
}

impl View for Bitmap {
    type V = BitmapView;

    open spec fn view(&self) -> BitmapView {
        BitmapView { width: self.width, height: self.height, pixels: self.pixels@ }
    }
}

/// The image handle `iced::widget::image::Handle`, by which the toolkit
/// knows a picture that it draws.
#[verifier::external_type_specification]
#[verifier::external_body]
pub struct ExHandle(Handle);

/// The picture that an image handle of decoded pixels holds.
pub uninterp spec fn picture_of(handle: Handle) -> BitmapView;

/// Wraps `iced::widget::image::Handle::from_rgba`, which makes a handle of
/// decoded pixels: the handle holds the width, the height and the bytes it
/// is given, as they are.
#[verifier::external_body]
fn rgba_handle(width: u32, height: u32, pixels: Vec<u8>) -> (handle: Handle)
    ensures
        picture_of(handle) == (BitmapView { width, height, pixels: pixels@ }),
{
    Handle::from_rgba(width, height, pixels)
}

/// What one look at a sample file yields: its size on disk, where that could
/// be had, and what the spectrogram engine reports and renders for it.
///
/// The two frequencies are carried as the engine gave them, as the bits of a
/// double precision number, together with the rounded texts that the search
/// text shows: the center frequency in MHz and the sample rate in kHz.
#[derive(Debug)]
pub struct FileInfo {
    pub size: Option<u64>,
    pub sample_format: String,
    pub sample_count: u64,
    pub center_freq: u64,
    pub sample_rate: u64,
    pub center_label: String,
    pub rate_label: String,
    pub thumbnail: Bitmap,
}

/// A look at a sample file as plain values.
pub struct InfoView {
    pub size: Option<u64>,
    pub sample_format: Seq<char>,
    pub sample_count: u64,
    pub center_freq: u64,
    pub sample_rate: u64,
    pub center_label: Seq<char>,
    pub rate_label: Seq<char>,
    pub thumbnail: BitmapView,
}

impl View for FileInfo {
    type V = InfoView;

    open spec fn view(&self) -> InfoView {
        InfoView {
            size: self.size,
            sample_format: self.sample_format@,
            sample_count: self.sample_count,
            center_freq: self.center_freq,
            sample_rate: self.sample_rate,
            center_label: self.center_label@,
            rate_label: self.rate_label@,
            thumbnail: self.thumbnail@,
        }
    }
}

/// An item of the collection as plain values.
pub struct ItemView {
    pub path: Seq<char>,
    pub size: Option<u64>,
    pub sample_format: Seq<char>,
    pub sample_count: u64,
    pub center_freq: u64,
    pub sample_rate: u64,
    pub thumbnail: BitmapView,
    pub has_mark: bool,
    pub has_delete: bool,
    pub metadata: Seq<char>,
}

/// The text that filters are matched against: path, sample format, center
/// frequency and sample rate, separated by spaces, the frequency followed by
/// `M` and the rate by `k`, all in lower case.
pub open spec fn search_text(path: Seq<char>, info: InfoView) -> Seq<char> {
    lower_text(
        path + seq![' '] + info.sample_format + seq![' '] + info.center_label + seq!['M', ' ']
            + info.rate_label + seq!['k'],
    )
}

impl ItemView {
    /// The item that a first look at the file at `path` gives: no mark set.
    pub open spec fn fresh(path: Seq<char>, info: InfoView) -> ItemView {
        ItemView {
            path,
            size: info.size,
            sample_format: info.sample_format,
            sample_count: info.sample_count,
            center_freq: info.center_freq,
            sample_rate: info.sample_rate,
            thumbnail: info.thumbnail,
            has_mark: false,
            has_delete: false,
            metadata: search_text(path, info),
        }
    }

    /// The item after another look at its file: path and marks stay, all
    /// else is taken from `info`.
    pub open spec fn refreshed(self, info: InfoView) -> ItemView {
        ItemView {
            path: self.path,
            has_mark: self.has_mark,
            has_delete: self.has_delete,
            ..ItemView::fresh(self.path, info)
        }
    }

    /// The item with its move mark flipped.
    pub open spec fn mark_toggled(self) -> ItemView {
        ItemView { has_mark: !self.has_mark, ..self }
    }

    /// The item with its delete mark flipped.
    pub open spec fn delete_toggled(self) -> ItemView {
        ItemView { has_delete: !self.has_delete, ..self }
    }

    /// The name shown for the item: the final component of its path, empty
    /// where the path has none.
    pub open spec fn filename(self) -> Seq<char> {
        match file_name_of(self.path) {
            Some(name) => name,
            None => Seq::empty(),
        }
    }
}

/// One sample file of the collection.
#[derive(Debug)]
pub struct FileItem {
    path: String,
    size: Option<u64>,
    sample_format: String,
    sample_count: u64,
    center_freq: u64,
    sample_rate: u64,
    handle: Handle,
    has_mark: bool,
    has_delete: bool,
    metadata: Vec<char>,
}

impl View for FileItem {
    type V = ItemView;

    closed spec fn view(&self) -> ItemView {
        ItemView {
            path: self.path@,
            size: self.size,
            sample_format: self.sample_format@,
            sample_count: self.sample_count,
            center_freq: self.center_freq,
            sample_rate: self.sample_rate,
            thumbnail: picture_of(self.handle),
            has_mark: self.has_mark,
            has_delete: self.has_delete,
            metadata: self.metadata@,
        }
    }
}

/// Builds the search text of a file.
fn compose(path: &str, info: &FileInfo) -> (metadata: Vec<char>)
    ensures
        metadata@ == search_text(path@, info@),
{
    let mut line = String::from_str(path);
    proof {
        reveal_strlit(" ");
        reveal_strlit("M ");
        reveal_strlit("k");
    }
    line.append(" ");
    line.append(info.sample_format.as_str());
    line.append(" ");
    line.append(info.center_label.as_str());
    line.append("M ");
    line.append(info.rate_label.as_str());
    line.append("k");
    let lowered = ascii_lowercase(line.as_str());
    chars_of(lowered.as_str())
}

impl FileItem {
    /// The item for the file at `path`, which is taken as it is given, with
    /// what a look at the file found. Neither mark is set.
    pub fn new(path: String, info: FileInfo) -> (item: FileItem)
        ensures
            item@ == ItemView::fresh(path@, info@),
    {
        let metadata = compose(path.as_str(), &info);
        let Bitmap { width, height, pixels } = info.thumbnail;
        FileItem {
            path,
            size: info.size,
            sample_format: info.sample_format,
            sample_count: info.sample_count,
            center_freq: info.center_freq,
            sample_rate: info.sample_rate,
            handle: rgba_handle(width, height, pixels),
            has_mark: false,
            has_delete: false,
            metadata,
        }
    }

    /// Takes over what another look at the file found. Path and marks stay.
    pub fn refresh(&mut self, info: FileInfo)
        ensures
            final(self)@ == old(self)@.refreshed(info@),
    {
        let metadata = compose(self.path.as_str(), &info);
        self.size = info.size;
        self.sample_format = info.sample_format;
        self.sample_count = info.sample_count;
        self.center_freq = info.center_freq;
        self.sample_rate = info.sample_rate;
        let Bitmap { width, height, pixels } = info.thumbnail;
        self.handle = rgba_handle(width, height, pixels);
        self.metadata = metadata;
    }

    /// Whether the item lies at `path`.
    pub fn is_at(&self, path: &String) -> (there: bool)
        ensures
            there == (self@.path == path@),
    {
        self.path == *path
    }

    pub fn path(&self) -> (path: &str)
        ensures
            path@ == self@.path,
    {
        self.path.as_str()
    }

    /// Size of the file in bytes, where it could be had.
    pub fn size(&self) -> (size: Option<u64>)
        ensures
            size == self@.size,
    {
        self.size
    }

    pub fn sample_format(&self) -> (format: &str)
        ensures
            format@ == self@.sample_format,
    {
        self.sample_format.as_str()
    }

    pub fn sample_count(&self) -> (count: u64)
        ensures
            count == self@.sample_count,
    {
        self.sample_count
    }

    /// Center frequency in Hz, as the bits of a double precision number.
    pub fn center_freq(&self) -> (bits: u64)
        ensures
            bits == self@.center_freq,
    {
        self.center_freq
    }

    /// Sample rate in Hz, as the bits of a double precision number.
    pub fn sample_rate(&self) -> (bits: u64)
        ensures
            bits == self@.sample_rate,
    {
        self.sample_rate
    }

    /// The handle of the thumbnail. It was made when the file was last
    /// looked at, and holds what was rendered then.
    pub fn handle(&self) -> (handle: &Handle)
        ensures
            picture_of(*handle) == self@.thumbnail,
    {
        &self.handle
    }

    pub fn has_mark(&self) -> (marked: bool)
        ensures
            marked == self@.has_mark,
    {
        self.has_mark
    }

    pub fn has_delete(&self) -> (marked: bool)
        ensures
            marked == self@.has_delete,
    {
        self.has_delete
    }

    pub fn toggle_mark(&mut self)
        ensures
            final(self)@ == old(self)@.mark_toggled(),
    {
        self.has_mark = !self.has_mark;
    }

    pub fn toggle_delete(&mut self)
        ensures
            final(self)@ == old(self)@.delete_toggled(),
    {
        self.has_delete = !self.has_delete;
    }

    /// The final component of the path, empty where the path has none.
    pub fn filename(&self) -> (name: String)
        ensures
            name@ == self@.filename(),
    {
        match file_name(self.path.as_str()) {
            Some(name) => name,
            None => String::new(),
        }
    }

    /// Whether the search text of the item holds every one of `words`.
    pub fn matches_all(&self, words: &Vec<Vec<char>>) -> (shown: bool)
        ensures
            shown == all_occur_in(views(words@), self@.metadata),
    {
        contains_all(&self.metadata, words)
    }
}

} // verus!
