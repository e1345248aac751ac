//! The renderer-ready projection of one entry: resolved strings and the
//! final name color, computed once from the entry, the status index and the
//! platform metadata, and never re-derived during rendering.

use vstd::prelude::*;

use crate::entry::entry_projects;
use crate::entry::spec_display_size;
use crate::entry::FileEntry;
use crate::entry::RawEntry;
use crate::git::spec_status_of;
use crate::git::status_of;
use crate::git::GitStatusCache;
use crate::icons::dir_icon;
use crate::icons::get_icon_for_file;
use crate::icons::spec_dir_icon;
use crate::icons::spec_icon;
use crate::platform::unix::format_permissions;
use crate::platform::unix::get_owner;
use crate::platform::unix::owner_text;
use crate::platform::unix::spec_permissions;
use crate::status::Color;
use crate::status::StatusRecord;
use crate::timestamp::format_time;

verus! {

/// Resolved display fields for one entry. `git` holds the status marker as
/// styled text (the marker character, possibly wrapped in color escape
/// codes); `status_marker` holds the bare character beside it.
pub struct DisplayRecord {
    pub permissions: String,
    pub owner: String,
    pub size: String,
    pub time: String,
    pub status_marker: char,
    pub git: String,
    pub icon: String,
    pub name: String,
    pub name_color: Color,
    pub is_directory: bool,
}

/// Relies on crossterm's `Stylize::with` and the display of styled content:
/// renders the marker character in the given foreground color. Whether
/// escape codes surround the character depends on the process environment,
/// so only the marker's presence in the text is promised.
#[verifier::external_body]
pub(crate) fn styled_marker(c: char, color: Color) -> (r: String)
    ensures
        r@.contains(c),
{
    let ct = match color {
        Color::Reset => crossterm::style::Color::Reset,
        Color::White => crossterm::style::Color::White,
        Color::Blue => crossterm::style::Color::Blue,
        Color::Green => crossterm::style::Color::Green,
        Color::Red => crossterm::style::Color::Red,
        Color::Cyan => crossterm::style::Color::Cyan,
        Color::Yellow => crossterm::style::Color::Yellow,
        Color::DarkGrey => crossterm::style::Color::DarkGrey,
    };
    format!("{}", crossterm::style::Stylize::with(c, ct))
}

/// The final name color: a present status marker's color wins; otherwise
/// directories default to blue and files to white.
pub open spec fn spec_name_color(rec: StatusRecord, is_dir: bool) -> Color {
    if rec.marker != ' ' {
        rec.color
    } else if is_dir {
        Color::Blue
    } else {
        Color::White
    }
}

/// Resolves the final name color for an entry.
pub fn resolve_name_color(rec: &StatusRecord, is_dir: bool) -> (c: Color)
    ensures
        c == spec_name_color(*rec, is_dir),
{
    if rec.marker != ' ' {
        rec.color
    } else if is_dir {
        Color::Blue
    } else {
        Color::White
    }
}

/// What `make_display` promises of a record built from a listing entry:
/// every field the machine environment does not decide is pinned down; the
/// owner text has the resolved-name-or-identifier shape, the time text is
/// empty or at least sixteen characters, and the styled marker text
/// contains the marker.
pub open spec fn display_matches(
    d: DisplayRecord,
    f: FileEntry,
    cache: Option<GitStatusCache>,
) -> bool {
    let rec = spec_status_of(cache, f.canonical);
    &&& d.permissions@ == spec_permissions(f.mode, f.is_dir)
    &&& (exists|u: Option<Seq<char>>, g: Option<Seq<char>>|
        d.owner@ == owner_text(u, g, f.uid, f.gid))
    &&& (d.time@.len() == 0 || d.time@.len() >= 16)
    &&& d.size@ == f.size_display@
    &&& d.status_marker == rec.marker
    &&& d.git@.contains(rec.marker)
    &&& d.icon@ == (if f.is_dir {
        spec_dir_icon()
    } else {
        spec_icon(f.name@)
    })
    &&& d.name@ == f.name@
    &&& d.name_color == spec_name_color(rec, f.is_dir)
    &&& d.is_directory == f.is_dir
}

/// The same promise stated against the raw entry a tree build starts from,
/// with the size column resolved under the given size policy.
pub open spec fn display_of_raw(
    d: DisplayRecord,
    r: RawEntry,
    calc_sizes: bool,
    cache: Option<GitStatusCache>,
) -> bool {
    let rec = spec_status_of(cache, r.canonical);
    &&& d.permissions@ == spec_permissions(r.mode, r.is_dir)
    &&& (exists|u: Option<Seq<char>>, g: Option<Seq<char>>|
        d.owner@ == owner_text(u, g, r.uid, r.gid))
    &&& (d.time@.len() == 0 || d.time@.len() >= 16)
    &&& d.size@ == spec_display_size(r.is_dir, calc_sizes, r.len)
    &&& d.status_marker == rec.marker
    &&& d.git@.contains(rec.marker)
    &&& d.icon@ == (if r.is_dir {
        spec_dir_icon()
    } else {
        spec_icon(r.name@)
    })
    &&& d.name@ == r.name@
    &&& d.name_color == spec_name_color(rec, r.is_dir)
    &&& d.is_directory == r.is_dir
}

/// A record matching a projected entry matches the raw entry it was
/// projected from.
pub proof fn lemma_display_matches_raw(
    d: DisplayRecord,
    f: FileEntry,
    r: RawEntry,
    calc_sizes: bool,
    cache: Option<GitStatusCache>,
)
    requires
        entry_projects(f, r, calc_sizes),
        display_matches(d, f, cache),
    ensures
        display_of_raw(d, r, calc_sizes, cache),
{
}

/// Builds the renderer-ready projection of one listing entry: permissions
/// from the mode bits, owner through the platform databases, the status
/// marker and final name color from the status index, and the icon from the
/// entry's name.
pub fn make_display(f: &FileEntry, cache: &Option<GitStatusCache>) -> (d: DisplayRecord)
    ensures
        display_matches(d, *f, *cache),
{
    let rec = status_of(cache, &f.canonical);
    let permissions = format_permissions(f.mode, f.is_dir);
    let owner = get_owner(f.uid, f.gid);
    let time = format_time(f.modified_time);
    let git = styled_marker(rec.marker, rec.color);
    let icon = if f.is_dir {
        String::from_str(dir_icon())
    } else {
        String::from_str(get_icon_for_file(f.name.as_str()))
    };
    let name_color = resolve_name_color(&rec, f.is_dir);
    DisplayRecord {
        permissions,
        owner,
        size: f.size_display.clone(),
        time,
        status_marker: rec.marker,
        git,
        icon,
        name: f.name.clone(),
        name_color,
        is_directory: f.is_dir,
    }
}

} // verus!
