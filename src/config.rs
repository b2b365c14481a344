//! The template: entry names for the intro, per-file and outro phases.
use vstd::prelude::*;
use crate::text::{copy_strings, strings_view};

verus! {

/// The three template entry lists, in the order the file gives them.
#[derive(Clone, Debug)]
pub struct Config {
    pub intro: Vec<String>,
    pub hunk: Vec<String>,
    pub outro: Vec<String>,
}

impl Config {
    pub fn new(intro: Vec<String>, hunk: Vec<String>, outro: Vec<String>) -> (r: Config)
        ensures
            r.intro@ == intro@,
            r.hunk@ == hunk@,
            r.outro@ == outro@,
    {
        Config { intro, hunk, outro }
    }

    pub open spec fn intro_names(&self) -> Seq<Seq<char>> {
        strings_view(self.intro@)
    }

    pub open spec fn hunk_names(&self) -> Seq<Seq<char>> {
        strings_view(self.hunk@)
    }

    pub open spec fn outro_names(&self) -> Seq<Seq<char>> {
        strings_view(self.outro@)
    }

    /// The intro entries.
    pub fn get_intro_content(&self) -> (r: Vec<String>)
        ensures
            strings_view(r@) == self.intro_names(),
    {
        copy_strings(&self.intro)
    }

    /// The per-file entries.
    pub fn get_hunk_content(&self) -> (r: Vec<String>)
        ensures
            strings_view(r@) == self.hunk_names(),
    {
        copy_strings(&self.hunk)
    }

    /// The outro entries.
    pub fn get_outro_content(&self) -> (r: Vec<String>)
        ensures
            strings_view(r@) == self.outro_names(),
    {
        copy_strings(&self.outro)
    }
}

} // verus!
