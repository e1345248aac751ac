//! Status markers: the closed set of working-tree status flags, and the total
//! precedence rule that picks one marker character and display color per path.

use vstd::prelude::*;

verus! {

/// A foreground display color, as the renderer understands it.
#[derive(Clone, Copy, Debug, PartialEq, Eq, Structural)]
pub enum Color {
    Reset,
    White,
    Blue,
    Green,
    Red,
    Cyan,
    Yellow,
    DarkGrey,
}

/// The status bits a version-control working tree can report for one path.
/// Staged (index) changes are distinguished from unstaged (working-tree) ones.
#[derive(Clone, Copy, Debug, PartialEq, Eq, Structural)]
pub struct StatusFlags {
    pub index_new: bool,
    pub index_modified: bool,
    pub index_deleted: bool,
    pub index_renamed: bool,
    pub index_typechange: bool,
    pub wt_new: bool,
    pub wt_modified: bool,
    pub wt_deleted: bool,
    pub wt_renamed: bool,
    pub wt_typechange: bool,
    pub ignored: bool,
    pub conflicted: bool,
}

impl StatusFlags {
    /// Flags with no bit set, reported as "no status".
    pub fn none() -> (r: StatusFlags)
        ensures
            r == (StatusFlags {
                index_new: false,
                index_modified: false,
                index_deleted: false,
                index_renamed: false,
                index_typechange: false,
                wt_new: false,
                wt_modified: false,
                wt_deleted: false,
                wt_renamed: false,
                wt_typechange: false,
                ignored: false,
                conflicted: false,
            }),
    {
        StatusFlags {
            index_new: false,
            index_modified: false,
            index_deleted: false,
            index_renamed: false,
            index_typechange: false,
            wt_new: false,
            wt_modified: false,
            wt_deleted: false,
            wt_renamed: false,
            wt_typechange: false,
            ignored: false,
            conflicted: false,
        }
    }
}

/// One marker character and its display color, the resolved status of a path.
#[derive(Clone, Copy, Debug, PartialEq, Eq, Structural)]
pub struct StatusRecord {
    pub marker: char,
    pub color: Color,
}

/// The record meaning "no status": a blank marker with the default color.
pub open spec fn spec_no_status() -> StatusRecord {
    StatusRecord { marker: ' ', color: Color::Reset }
}

/// The marker and color a flag set resolves to, by decreasing precedence:
/// staged-new, staged-modified, staged-deleted, staged-renamed,
/// staged-typechange, untracked, working-modified, working-deleted,
/// working-renamed, working-typechange, ignored, conflicted, then none.
pub open spec fn spec_status_record(f: StatusFlags) -> StatusRecord {
    if f.index_new {
        StatusRecord { marker: 'A', color: Color::Green }
    } else if f.index_modified {
        StatusRecord { marker: 'M', color: Color::Green }
    } else if f.index_deleted {
        StatusRecord { marker: 'D', color: Color::Red }
    } else if f.index_renamed {
        StatusRecord { marker: 'R', color: Color::Green }
    } else if f.index_typechange {
        StatusRecord { marker: 'T', color: Color::Green }
    } else if f.wt_new {
        StatusRecord { marker: '?', color: Color::Cyan }
    } else if f.wt_modified {
        StatusRecord { marker: 'M', color: Color::Yellow }
    } else if f.wt_deleted {
        StatusRecord { marker: 'D', color: Color::Red }
    } else if f.wt_renamed {
        StatusRecord { marker: 'R', color: Color::Yellow }
    } else if f.wt_typechange {
        StatusRecord { marker: 'T', color: Color::Yellow }
    } else if f.ignored {
        StatusRecord { marker: 'I', color: Color::DarkGrey }
    } else if f.conflicted {
        StatusRecord { marker: 'C', color: Color::Red }
    } else {
        StatusRecord { marker: ' ', color: Color::White }
    }
}

/// Resolves a flag set to its marker and color under the precedence order.
pub fn status_to_char_color(f: &StatusFlags) -> (r: StatusRecord)
    ensures
        r == spec_status_record(*f),
{
    if f.index_new {
        StatusRecord { marker: 'A', color: Color::Green }
    } else if f.index_modified {
        StatusRecord { marker: 'M', color: Color::Green }
    } else if f.index_deleted {
        StatusRecord { marker: 'D', color: Color::Red }
    } else if f.index_renamed {
        StatusRecord { marker: 'R', color: Color::Green }
    } else if f.index_typechange {
        StatusRecord { marker: 'T', color: Color::Green }
    } else if f.wt_new {
        StatusRecord { marker: '?', color: Color::Cyan }
    } else if f.wt_modified {
        StatusRecord { marker: 'M', color: Color::Yellow }
    } else if f.wt_deleted {
        StatusRecord { marker: 'D', color: Color::Red }
    } else if f.wt_renamed {
        StatusRecord { marker: 'R', color: Color::Yellow }
    } else if f.wt_typechange {
        StatusRecord { marker: 'T', color: Color::Yellow }
    } else if f.ignored {
        StatusRecord { marker: 'I', color: Color::DarkGrey }
    } else if f.conflicted {
        StatusRecord { marker: 'C', color: Color::Red }
    } else {
        StatusRecord { marker: ' ', color: Color::White }
    }
}

/// Precedence law: any staged (index) flag wins over any unstaged
/// (working-tree) flag, however the two are combined. In particular a path
/// carrying both a staged modification and an untracked working-tree flag
/// resolves to the staged modification's marker and color.
pub proof fn lemma_staged_beats_working(f: StatusFlags)
    requires
        f.index_new || f.index_modified || f.index_deleted || f.index_renamed
            || f.index_typechange,
    ensures
        spec_status_record(f) == spec_status_record(
            StatusFlags {
                wt_new: false,
                wt_modified: false,
                wt_deleted: false,
                wt_renamed: false,
                wt_typechange: false,
                ignored: false,
                conflicted: false,
                ..f
            },
        ),
        f.index_modified && !f.index_new ==> spec_status_record(f) == (StatusRecord {
            marker: 'M',
            color: Color::Green,
        }),
{
}

} // verus!
