//! Language profiles: which kinds of token are highlighted in a file,
//! chosen by the file's name.

use vstd::prelude::*;
use crate::text::{ends_with, is_suffix};

verus! {

/// The four highlighting toggles of a language profile.
#[derive(Clone, Copy, Debug, PartialEq, Eq, Structural)]
pub struct HighlightingOptions {
    pub numbers: bool,
    pub strings: bool,
    pub characters: bool,
    pub comments: bool,
}

impl Default for HighlightingOptions {
    fn default() -> (o: Self)
        ensures
            o == HighlightingOptions::disabled(),
    {
        HighlightingOptions { numbers: false, strings: false, characters: false, comments: false }
    }
}

impl HighlightingOptions {
    /// The options with every toggle off.
    pub open spec fn disabled() -> Self {
        HighlightingOptions { numbers: false, strings: false, characters: false, comments: false }
    }

    /// The options with every toggle on.
    pub open spec fn enabled() -> Self {
        HighlightingOptions { numbers: true, strings: true, characters: true, comments: true }
    }

    pub fn numbers(self) -> (b: bool)
        ensures
            b == self.numbers,
    {
        self.numbers
    }

    pub fn strings(self) -> (b: bool)
        ensures
            b == self.strings,
    {
        self.strings
    }

    pub fn characters(self) -> (b: bool)
        ensures
            b == self.characters,
    {
        self.characters
    }

    pub fn comments(self) -> (b: bool)
        ensures
            b == self.comments,
    {
        self.comments
    }
}

/// Whether a file of this name holds Rust source: its name ends in `.rs`.
pub open spec fn is_rust_name(file_name: Seq<char>) -> bool {
    is_suffix(seq!['.', 'r', 's'], file_name)
}

/// The display name of the profile that a file name selects.
pub open spec fn profile_name(file_name: Seq<char>) -> Seq<char> {
    if is_rust_name(file_name) {
        seq!['R', 'u', 's', 't']
    } else {
        seq!['N', 'o', ' ', 'f', 'i', 'l', 'e', 't', 'y', 'p', 'e']
    }
}

/// The toggles of the profile that a file name selects.
pub open spec fn profile_options(file_name: Seq<char>) -> HighlightingOptions {
    if is_rust_name(file_name) {
        HighlightingOptions::enabled()
    } else {
        HighlightingOptions::disabled()
    }
}

/// A named language profile.
pub struct FileType {
    name: String,
    hl_options: HighlightingOptions,
}

impl Default for FileType {
    fn default() -> (ft: Self)
        ensures
            ft.name_view() == profile_name(Seq::empty()),
            ft.options() == HighlightingOptions::disabled(),
    {
        proof {
            reveal_strlit("No filetype");
        }
        let name = "No filetype".to_owned();
        FileType { name, hl_options: HighlightingOptions::default() }
    }
}

impl FileType {
    /// The profile's display name, as a sequence of characters.
    pub closed spec fn name_view(&self) -> Seq<char> {
        self.name@
    }

    /// The profile's toggles.
    pub closed spec fn options(&self) -> HighlightingOptions {
        self.hl_options
    }

    pub fn name(&self) -> (s: String)
        ensures
            s@ == self.name_view(),
    {
        self.name.clone()
    }

    /// The profile for a file of the given name: Rust, with every toggle on,
    /// for a name that ends in `.rs`; the default profile for any other.
    pub fn from(file_name: &str) -> (ft: Self)
        ensures
            ft.name_view() == profile_name(file_name@),
            ft.options() == profile_options(file_name@),
    {
        proof {
            reveal_strlit(".rs");
            reveal_strlit("Rust");
        }
        assert(".rs"@ =~= seq!['.', 'r', 's']);
        if ends_with(file_name, ".rs") {
            let name = "Rust".to_owned();
            return FileType {
                name,
                hl_options: HighlightingOptions {
                    numbers: true,
                    strings: true,
                    characters: true,
                    comments: true,
                },
            };
        }
        let ft = Self::default();
        ft
    }

    pub fn highlighting_options(&self) -> (o: HighlightingOptions)
        ensures
            o == self.options(),
    {
        self.hl_options
    }
}

} // verus!
