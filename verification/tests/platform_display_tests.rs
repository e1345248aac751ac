//! Platform formatting, icons, and the resolved display record.

use lsplus::display::{make_display, resolve_name_color};
use lsplus::entry::FileEntry;
use lsplus::git::{GitStatusCache, StatusReport};
use lsplus::icons::get_icon_for_file;
use lsplus::platform::unix;
use lsplus::platform::windows;
use lsplus::status::{Color, StatusFlags, StatusRecord};
use lsplus::timestamp::format_time;

#[test]
fn unix_permissions_from_mode_bits() {
    assert_eq!(unix::format_permissions(0o754, false), "-rwxr-xr--");
    assert_eq!(unix::format_permissions(0o644, true), "drw-r--r--");
    assert_eq!(unix::format_permissions(0, false), "----------");
    assert_eq!(unix::format_permissions(0o777, true), "drwxrwxrwx");
}

#[test]
fn windows_permissions_from_attributes() {
    assert_eq!(windows::format_permissions(0x10), "d----");
    assert_eq!(windows::format_permissions(0x11), "d-r--");
    assert_eq!(windows::format_permissions(0x0), "-a---");
    assert_eq!(windows::format_permissions(0x1), "-ar--");
    assert_eq!(windows::get_owner(), "user");
}

#[test]
fn owner_falls_back_to_numeric_identifiers() {
    assert_eq!(unix::owner_string(None, None, 0, 0), "0 0");
    assert_eq!(unix::owner_string(None, None, 1042, 513), "1042 513");
    assert_eq!(
        unix::owner_string(Some(String::from("alice")), None, 7, 99),
        "alice 99"
    );
    assert_eq!(
        unix::owner_string(Some(String::from("alice")), Some(String::from("staff")), 7, 99),
        "alice staff"
    );
}

#[test]
fn owner_lookup_produces_a_user_and_group_pair() {
    let owner = unix::get_owner(0, 0);
    assert!(owner.contains(' '));
}

#[test]
fn icons_by_extension_and_name() {
    assert_eq!(get_icon_for_file("main.rs"), "\u{e7a8} ");
    assert_eq!(get_icon_for_file("README.md"), "\u{f48a} ");
    assert_eq!(get_icon_for_file("Cargo.toml"), "\u{f013} ");
    assert_eq!(get_icon_for_file("Cargo.lock"), "\u{f023} ");
    assert_eq!(get_icon_for_file(".gitignore"), "\u{e702} ");
    assert_eq!(get_icon_for_file(".git"), "\u{e702} ");
    assert_eq!(get_icon_for_file("notes.txt"), "\u{f15b} ");
    // A name that merely contains an extension elsewhere gets the default.
    assert_eq!(get_icon_for_file("rs.backup"), "\u{f15b} ");
}

#[test]
fn name_color_prefers_status_over_kind() {
    let marked = StatusRecord { marker: 'M', color: Color::Yellow };
    let blank = StatusRecord { marker: ' ', color: Color::Reset };
    assert_eq!(resolve_name_color(&marked, true), Color::Yellow);
    assert_eq!(resolve_name_color(&marked, false), Color::Yellow);
    assert_eq!(resolve_name_color(&blank, true), Color::Blue);
    assert_eq!(resolve_name_color(&blank, false), Color::White);
}

#[test]
fn timestamp_renders_in_fixed_layout() {
    let t = format_time(0);
    assert_eq!(t.len(), 16);
    assert_eq!(t.as_bytes()[2], b'-');
    assert_eq!(t.as_bytes()[5], b'-');
    assert_eq!(t.as_bytes()[10], b' ');
    assert_eq!(t.as_bytes()[13], b':');
}

#[test]
fn display_record_resolves_marker_icon_and_color() {
    let reports = vec![StatusReport {
        canonical: Some(String::from("/repo/main.rs")),
        raw: String::from("main.rs"),
        flags: StatusFlags { wt_modified: true, ..StatusFlags::none() },
    }];
    let cache = Some(GitStatusCache::new(&reports));
    let f = FileEntry {
        name: String::from("main.rs"),
        canonical: Some(String::from("/repo/main.rs")),
        is_dir: false,
        size_display: String::from("10 B"),
        modified_time: 0,
        mode: 0o644,
        uid: 0,
        gid: 0,
    };
    let d = make_display(&f, &cache);
    assert_eq!(d.status_marker, 'M');
    assert_eq!(d.name_color, Color::Yellow);
    assert_eq!(d.icon, "\u{e7a8} ");
    assert_eq!(d.name, "main.rs");
    assert_eq!(d.permissions, "-rw-r--r--");
    assert_eq!(d.size, "10 B");
    assert!(d.git.contains('M'));
    assert!(!d.is_directory);
}

#[test]
fn display_record_without_status_uses_kind_defaults() {
    let f = FileEntry {
        name: String::from("b"),
        canonical: None,
        is_dir: true,
        size_display: String::from("\u{2014}"),
        modified_time: 0,
        mode: 0o755,
        uid: 0,
        gid: 0,
    };
    let d = make_display(&f, &None);
    assert_eq!(d.status_marker, ' ');
    assert_eq!(d.name_color, Color::Blue);
    assert_eq!(d.icon, "\u{f115} ");
    assert_eq!(d.permissions, "drwxr-xr-x");
    assert!(d.git.contains(' '));
}
