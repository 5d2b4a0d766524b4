//! The core of a viewer for SDR I/Q sample files: a collection of sample
//! files with a text filter and a selection, kept in step with the folders
//! it was filled from.
//!
//! The collection does no input or output of its own. A host looks at the
//! disk and lets the spectrogram engine look at the files, hands what it
//! found to the collection, and carries out what the collection asks for:
//!
//! - [`dirs`] says which paths name sample files and orders a folder
//!   listing;
//! - [`item`] holds what is known of one sample file;
//! - [`items`] is the collection itself;
//! - [`watcher`] is the collection's end of the folder watcher;
//! - [`options`] are the display options of the spectrogram;
//! - [`text`] defines what a filter text matches;
//! - [`model`] gives the collection as a mathematical value, over which the
//!   contracts of [`items`] are stated, and [`laws`] proves what holds of it;
//! - [`seqs`] holds facts about sequences that the proofs share.

pub mod dirs;
pub mod item;
pub mod items;
pub mod laws;
pub mod model;
pub mod options;
pub mod seqs;
pub mod text;
pub mod watcher;
