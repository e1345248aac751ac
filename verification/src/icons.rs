//! The file-type icon table: a glyph chosen from the entry's name, by
//! extension or well-known file name.

use vstd::prelude::*;

use crate::text::ends_with_spec;
use crate::text::starts_with_spec;
use crate::text::str_ends_with;
use crate::text::str_eq;
use crate::text::str_starts_with;

verus! {

/// The icon glyph (with its trailing space) for a plain file's name.
pub open spec fn spec_icon(name: Seq<char>) -> Seq<char> {
    if ends_with_spec(name, ".rs"@) {
        "\u{e7a8} "@
    } else if ends_with_spec(name, ".md"@) {
        "\u{f48a} "@
    } else if ends_with_spec(name, ".toml"@) {
        "\u{f013} "@
    } else if name == "Cargo.lock"@ {
        "\u{f023} "@
    } else if starts_with_spec(name, ".git"@) {
        "\u{e702} "@
    } else {
        "\u{f15b} "@
    }
}

/// The icon glyph used for a directory entry.
pub open spec fn spec_dir_icon() -> Seq<char> {
    "\u{f115} "@
}

/// Picks the icon for a plain file from its name.
pub fn get_icon_for_file(file_name: &str) -> (r: &str)
    ensures
        r@ == spec_icon(file_name@),
{
    if str_ends_with(file_name, ".rs") {
        "\u{e7a8} "
    } else if str_ends_with(file_name, ".md") {
        "\u{f48a} "
    } else if str_ends_with(file_name, ".toml") {
        "\u{f013} "
    } else if str_eq(file_name, "Cargo.lock") {
        "\u{f023} "
    } else if str_starts_with(file_name, ".git") {
        "\u{e702} "
    } else {
        "\u{f15b} "
    }
}

/// Returns the icon used for directories.
pub fn dir_icon() -> (r: &'static str)
    ensures
        r@ == spec_dir_icon(),
{
    "\u{f115} "
}

} // verus!
