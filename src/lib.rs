//! Turns a commit's diff into an editable write-up: the diff is grouped into
//! per-file hunks, a template interleaves them with editable headings and
//! paragraphs backed by per-kind text slots, and the result renders to
//! markdown. Commits are listed under labels from a first-parent walk.
use vstd::prelude::*;

pub mod text;
pub mod content;
pub mod diff;
pub mod config;
pub mod document;
pub mod labeler;
pub mod session;

verus! {

} // verus!
