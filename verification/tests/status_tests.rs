//! Status precedence and status-index behavior.

use lsplus::git::{status_of, GitStatusCache, StatusReport};
use lsplus::status::{status_to_char_color, Color, StatusFlags};

fn flags() -> StatusFlags {
    StatusFlags::none()
}

#[test]
fn precedence_each_flag_alone() {
    let cases: Vec<(StatusFlags, char, Color)> = vec![
        (StatusFlags { index_new: true, ..flags() }, 'A', Color::Green),
        (StatusFlags { index_modified: true, ..flags() }, 'M', Color::Green),
        (StatusFlags { index_deleted: true, ..flags() }, 'D', Color::Red),
        (StatusFlags { index_renamed: true, ..flags() }, 'R', Color::Green),
        (StatusFlags { index_typechange: true, ..flags() }, 'T', Color::Green),
        (StatusFlags { wt_new: true, ..flags() }, '?', Color::Cyan),
        (StatusFlags { wt_modified: true, ..flags() }, 'M', Color::Yellow),
        (StatusFlags { wt_deleted: true, ..flags() }, 'D', Color::Red),
        (StatusFlags { wt_renamed: true, ..flags() }, 'R', Color::Yellow),
        (StatusFlags { wt_typechange: true, ..flags() }, 'T', Color::Yellow),
        (StatusFlags { ignored: true, ..flags() }, 'I', Color::DarkGrey),
        (StatusFlags { conflicted: true, ..flags() }, 'C', Color::Red),
    ];
    for (f, marker, color) in cases {
        let rec = status_to_char_color(&f);
        assert_eq!(rec.marker, marker);
        assert_eq!(rec.color, color);
    }
}

#[test]
fn precedence_no_flag_is_blank() {
    let rec = status_to_char_color(&flags());
    assert_eq!(rec.marker, ' ');
    assert_eq!(rec.color, Color::White);
}

#[test]
fn staged_modification_beats_untracked() {
    let f = StatusFlags { index_modified: true, wt_new: true, ..flags() };
    let rec = status_to_char_color(&f);
    assert_eq!(rec.marker, 'M');
    assert_eq!(rec.color, Color::Green);
}

#[test]
fn untracked_beats_ignored_and_conflicted() {
    let f = StatusFlags { wt_new: true, ignored: true, conflicted: true, ..flags() };
    let rec = status_to_char_color(&f);
    assert_eq!(rec.marker, '?');
    assert_eq!(rec.color, Color::Cyan);
}

#[test]
fn index_round_trip_canonical_key() {
    let reports = vec![StatusReport {
        canonical: Some(String::from("/repo/a.txt")),
        raw: String::from("/raw/a.txt"),
        flags: StatusFlags { wt_new: true, ..flags() },
    }];
    let cache = GitStatusCache::new(&reports);
    let rec = cache.get("/repo/a.txt").expect("canonical key must be present");
    assert_eq!(rec.marker, '?');
    assert_eq!(rec.color, Color::Cyan);
    assert!(cache.get("/raw/a.txt").is_none());
}

#[test]
fn index_fallback_key_on_failed_canonicalization() {
    let reports = vec![StatusReport {
        canonical: None,
        raw: String::from("/raw/b.txt"),
        flags: StatusFlags { wt_modified: true, ..flags() },
    }];
    let cache = GitStatusCache::new(&reports);
    let rec = cache.get("/raw/b.txt").expect("raw key must be the fallback");
    assert_eq!(rec.marker, 'M');
    assert_eq!(rec.color, Color::Yellow);
}

#[test]
fn lookup_without_canonical_probe_finds_nothing() {
    // Even though a fallback-keyed entry exists, a probe that failed to
    // canonicalize is treated as unmatched on the read side.
    let reports = vec![StatusReport {
        canonical: None,
        raw: String::from("/raw/c.txt"),
        flags: StatusFlags { index_new: true, ..flags() },
    }];
    let cache = Some(GitStatusCache::new(&reports));
    let rec = status_of(&cache, &None);
    assert_eq!(rec.marker, ' ');
    assert_eq!(rec.color, Color::Reset);
}

#[test]
fn lookup_unknown_key_degrades_to_no_status() {
    let cache = Some(GitStatusCache::new(&Vec::new()));
    let rec = status_of(&cache, &Some(String::from("/nowhere")));
    assert_eq!(rec.marker, ' ');
    assert_eq!(rec.color, Color::Reset);
    let rec2 = status_of(&None, &Some(String::from("/repo/a.txt")));
    assert_eq!(rec2.marker, ' ');
}

#[test]
fn later_report_overwrites_earlier_key() {
    let reports = vec![
        StatusReport {
            canonical: Some(String::from("/repo/d.txt")),
            raw: String::from("d.txt"),
            flags: StatusFlags { wt_new: true, ..flags() },
        },
        StatusReport {
            canonical: Some(String::from("/repo/d.txt")),
            raw: String::from("d.txt"),
            flags: StatusFlags { index_new: true, ..flags() },
        },
    ];
    let cache = GitStatusCache::new(&reports);
    let rec = cache.get("/repo/d.txt").unwrap();
    assert_eq!(rec.marker, 'A');
    assert_eq!(rec.color, Color::Green);
}
