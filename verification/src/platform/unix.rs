//! Unix metadata formatting: a ten-character permission string from the
//! mode bits, and an `owner group` text resolved through the system's user
//! and group databases, falling back to the numeric identifiers.

use vstd::prelude::*;

use crate::text::decimal_rep;
use crate::text::push_char;
use crate::text::u32_to_decimal;

verus! {

/// The ten-character permission display for the given mode bits: the kind
/// flag, then read, write and execute for owner, group and others.
pub open spec fn spec_permissions(mode: u32, is_dir: bool) -> Seq<char> {
    seq![
        if is_dir {
            'd'
        } else {
            '-'
        },
        if mode & 0o400 != 0 {
            'r'
        } else {
            '-'
        },
        if mode & 0o200 != 0 {
            'w'
        } else {
            '-'
        },
        if mode & 0o100 != 0 {
            'x'
        } else {
            '-'
        },
        if mode & 0o040 != 0 {
            'r'
        } else {
            '-'
        },
        if mode & 0o020 != 0 {
            'w'
        } else {
            '-'
        },
        if mode & 0o010 != 0 {
            'x'
        } else {
            '-'
        },
        if mode & 0o004 != 0 {
            'r'
        } else {
            '-'
        },
        if mode & 0o002 != 0 {
            'w'
        } else {
            '-'
        },
        if mode & 0o001 != 0 {
            'x'
        } else {
            '-'
        },
    ]
}

/// Renders the permission string for an entry from its mode bits and kind.
pub fn format_permissions(mode: u32, is_dir: bool) -> (r: String)
    ensures
        r@ == spec_permissions(mode, is_dir),
{
    let mut r = String::new();
    push_char(&mut r, if is_dir { 'd' } else { '-' });
    push_char(&mut r, if mode & 0o400 != 0 { 'r' } else { '-' });
    push_char(&mut r, if mode & 0o200 != 0 { 'w' } else { '-' });
    push_char(&mut r, if mode & 0o100 != 0 { 'x' } else { '-' });
    push_char(&mut r, if mode & 0o040 != 0 { 'r' } else { '-' });
    push_char(&mut r, if mode & 0o020 != 0 { 'w' } else { '-' });
    push_char(&mut r, if mode & 0o010 != 0 { 'x' } else { '-' });
    push_char(&mut r, if mode & 0o004 != 0 { 'r' } else { '-' });
    push_char(&mut r, if mode & 0o002 != 0 { 'w' } else { '-' });
    push_char(&mut r, if mode & 0o001 != 0 { 'x' } else { '-' });
    proof {
        assert(r@ =~= spec_permissions(mode, is_dir));
    }
    r
}

/// Relies on `users::get_user_by_uid`: resolves a user identifier through
/// the system's user database. The database is the machine's, so nothing is
/// promised of the name.
#[verifier::external_body]
fn user_name_of(uid: u32) -> Option<String> {
    users::get_user_by_uid(uid).map(|u| u.name().to_string_lossy().into_owned())
}

/// Relies on `users::get_group_by_gid`: resolves a group identifier through
/// the system's group database. The database is the machine's, so nothing
/// is promised of the name.
#[verifier::external_body]
fn group_name_of(gid: u32) -> Option<String> {
    users::get_group_by_gid(gid).map(|g| g.name().to_string_lossy().into_owned())
}

/// The view of an optional resolved name.
pub open spec fn opt_text(o: Option<String>) -> Option<Seq<char>> {
    match o {
        Some(s) => Some(s@),
        None => None,
    }
}

/// The owner column for one entry: the resolved user name (or the numeric
/// identifier when unresolved), a space, and likewise for the group.
pub open spec fn owner_text(
    user: Option<Seq<char>>,
    group: Option<Seq<char>>,
    uid: u32,
    gid: u32,
) -> Seq<char> {
    (match user {
        Some(u) => u,
        None => decimal_rep(uid as nat),
    }) + seq![' '] + (match group {
        Some(g) => g,
        None => decimal_rep(gid as nat),
    })
}

/// Joins the resolved names (or numeric fallbacks) into the owner column.
pub fn owner_string(user: Option<String>, group: Option<String>, uid: u32, gid: u32) -> (r: String)
    ensures
        r@ == owner_text(opt_text(user), opt_text(group), uid, gid),
{
    let mut r = match user {
        Some(u) => u,
        None => u32_to_decimal(uid),
    };
    push_char(&mut r, ' ');
    let g = match group {
        Some(g) => g,
        None => u32_to_decimal(gid),
    };
    r.append(g.as_str());
    proof {
        assert(r@ =~= owner_text(opt_text(user), opt_text(group), uid, gid));
    }
    r
}

/// Resolves the owner column for an entry from its user and group
/// identifiers; the names come from the machine's databases.
pub fn get_owner(uid: u32, gid: u32) -> (r: String)
    ensures
        exists|user: Option<Seq<char>>, group: Option<Seq<char>>|
            r@ == owner_text(user, group, uid, gid),
{
    let user = user_name_of(uid);
    let group = group_name_of(gid);
    let r = owner_string(user, group, uid, gid);
    proof {
        assert(r@ == owner_text(opt_text(user), opt_text(group), uid, gid));
    }
    r
}

} // verus!
