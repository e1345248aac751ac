//! Tree building, column widths, and rendering in all four view shapes.

use lsplus::display::DisplayRecord;
use lsplus::entry::{get_entries, RawEntry};
use lsplus::git::{GitStatusCache, StatusReport};
use lsplus::status::StatusFlags;
use lsplus::icons::{dir_icon, get_icon_for_file};
use lsplus::render::{render_long_view, render_simple_view, render_tree_view};
use lsplus::status::Color;
use lsplus::tree::{build_tree_nodes, TreeNode};
use lsplus::widths::{calculate_data_widths, column_widths, ColumnWidths};

fn raw(name: &str, is_dir: bool, len: u64) -> RawEntry {
    RawEntry {
        name: String::from(name),
        canonical: None,
        is_dir,
        len,
        mode: 0o644,
        uid: 0,
        gid: 0,
        modified: 0,
        children: Vec::new(),
    }
}

fn record(owner: &str, size: &str, name: &str, is_dir: bool) -> DisplayRecord {
    DisplayRecord {
        permissions: String::from("-rw-r--r--"),
        owner: String::from(owner),
        size: String::from(size),
        time: String::from("01-01-1970 00:00"),
        status_marker: ' ',
        git: String::from(" "),
        icon: String::from(get_icon_for_file(name)),
        name: String::from(name),
        name_color: Color::White,
        is_directory: is_dir,
    }
}

fn node(owner: &str, size: &str, name: &str, children: Vec<TreeNode>) -> TreeNode {
    TreeNode { info: record(owner, size, name, !children.is_empty()), children }
}

#[test]
fn flat_simple_hides_nothing_it_is_given_and_orders_directories_first() {
    // The parent holds `a.txt` (10 bytes) and an empty directory `b`; the
    // hidden-file policy has already excluded `.hidden` upstream.
    let files = get_entries(vec![raw("a.txt", false, 10), raw("b", true, 0)], false);
    let lines = render_simple_view(&files, &None);
    assert_eq!(lines.len(), 2);
    assert_eq!(lines[0].colored, format!("{}b/", dir_icon()));
    assert_eq!(lines[0].color, Color::Blue);
    assert_eq!(lines[1].colored, format!("{}a.txt", get_icon_for_file("a.txt")));
    assert_eq!(lines[1].color, Color::White);
    assert!(lines[0].plain.ends_with(' '));
}

#[test]
fn flat_simple_with_hidden_entries_included() {
    // With the show-all policy the hidden file flows through; ordering is
    // still directory first, then `.hidden` before `a.txt` byte-wise.
    let files = get_entries(
        vec![raw("a.txt", false, 10), raw("b", true, 0), raw(".hidden", false, 5)],
        false,
    );
    let lines = render_simple_view(&files, &None);
    assert_eq!(lines.len(), 3);
    assert_eq!(lines[0].colored, format!("{}b/", dir_icon()));
    assert_eq!(lines[1].colored, format!("{}.hidden", get_icon_for_file(".hidden")));
    assert_eq!(lines[2].colored, format!("{}a.txt", get_icon_for_file("a.txt")));
}

#[test]
fn depth_bound_cuts_the_nested_file() {
    // One subdirectory holding one file, listed with a depth bound of one:
    // the nested file never appears, and the only entry uses the closing
    // connector.
    let mut sub = raw("sub", true, 0);
    sub.children.push(raw("file.txt", false, 3));
    let nodes = build_tree_nodes(vec![sub], 0, 1, false, &None);
    assert_eq!(nodes.len(), 1);
    assert!(nodes[0].children.is_empty());
    let lines = render_tree_view("root", &nodes, false);
    assert_eq!(lines.len(), 2);
    assert_eq!(lines[0].plain, "root");
    assert!(lines[1].plain.starts_with("└── "));
    assert!(!lines.iter().any(|l| l.colored.contains("file.txt")));
}

#[test]
fn zero_depth_builds_nothing() {
    let nodes = build_tree_nodes(vec![raw("a", true, 0)], 0, 0, false, &None);
    assert!(nodes.is_empty());
}

#[test]
fn tree_connectors_and_continuations() {
    let mut sub = raw("sub", true, 0);
    sub.children.push(raw("inner.txt", false, 1));
    let nodes = build_tree_nodes(vec![sub, raw("z.txt", false, 2)], 0, 5, false, &None);
    // Directory first, file second; the nested file sits under the
    // non-last sibling, so its prefix continues with the bar glyph.
    let lines = render_tree_view("root", &nodes, false);
    assert_eq!(lines.len(), 4);
    assert!(lines[1].plain.starts_with("├── "));
    assert!(lines[1].colored.contains("sub/"));
    assert!(lines[2].plain.starts_with("│   └── "));
    assert!(lines[2].colored.contains("inner.txt"));
    assert!(lines[3].plain.starts_with("└── "));
    assert!(lines[3].colored.contains("z.txt"));
}

#[test]
fn last_sibling_descendants_get_blank_continuation() {
    let mut sub = raw("sub", true, 0);
    sub.children.push(raw("inner.txt", false, 1));
    // `a.txt` sorts after the directory, so the directory is NOT last here;
    // make the directory last by giving it a file sibling that sorts first —
    // impossible (directories first), so test with the directory alone.
    let nodes = build_tree_nodes(vec![sub], 0, 5, false, &None);
    let lines = render_tree_view("root", &nodes, false);
    assert_eq!(lines.len(), 3);
    assert!(lines[1].plain.starts_with("└── "));
    assert!(lines[2].plain.starts_with("    └── "));
}

#[test]
fn status_marker_and_color_flow_into_the_tree() {
    let reports = vec![StatusReport {
        canonical: Some(String::from("/x/new.txt")),
        raw: String::from("new.txt"),
        flags: StatusFlags { wt_new: true, ..StatusFlags::none() },
    }];
    let cache = Some(GitStatusCache::new(&reports));
    let mut e = raw("new.txt", false, 1);
    e.canonical = Some(String::from("/x/new.txt"));
    let nodes = build_tree_nodes(vec![e], 0, 2, false, &cache);
    assert_eq!(nodes[0].info.status_marker, '?');
    assert_eq!(nodes[0].info.name_color, Color::Cyan);
    assert!(nodes[0].info.git.contains('?'));
    let lines = render_tree_view("root", &nodes, false);
    assert!(lines[1].plain.contains('?'));
}

#[test]
fn tree_levels_stay_sorted_at_every_depth() {
    let mut sub = raw("m", true, 0);
    sub.children.push(raw("z.txt", false, 1));
    sub.children.push(raw("adir", true, 0));
    sub.children.push(raw("b.txt", false, 1));
    let nodes = build_tree_nodes(vec![raw("t.txt", false, 1), sub], 0, 3, false, &None);
    assert_eq!(nodes[0].info.name, "m");
    assert_eq!(nodes[1].info.name, "t.txt");
    let inner: Vec<&str> = nodes[0].children.iter().map(|n| n.info.name.as_str()).collect();
    assert_eq!(inner, vec!["adir", "b.txt", "z.txt"]);
}

#[test]
fn flat_widths_are_the_maxima_of_the_list() {
    let ds = vec![
        record("ab", "1 MB", "x.txt", false),
        record("longowner grp", "10 B", "y.txt", false),
        record("o g", "123.45 kB", "z.txt", false),
    ];
    let w = column_widths(&ds);
    assert_eq!(w.owner, "longowner grp".len());
    assert_eq!(w.size, "123.45 kB".len());
}

#[test]
fn tree_widths_span_all_depths() {
    // The widest owner sits at depth zero, the widest size at depth two:
    // one frozen pair of widths covers both.
    let deep = node("o", "123456 B", "deep.txt", Vec::new());
    let mid = node("mid o", "1 B", "mid", vec![deep]);
    let top = node("the widest owner", "2 B", "top", vec![mid]);
    let forest = vec![top, node("x", "9 B", "leaf.txt", Vec::new())];
    let mut w = ColumnWidths { owner: 0, size: 0 };
    calculate_data_widths(&forest, &mut w);
    assert_eq!(w.owner, "the widest owner".len());
    assert_eq!(w.size, "123456 B".len());
}

#[test]
fn width_accumulation_never_narrows() {
    let forest = vec![node("o", "1 B", "a.txt", Vec::new())];
    let mut w = ColumnWidths { owner: 40, size: 1 };
    calculate_data_widths(&forest, &mut w);
    assert_eq!(w.owner, 40);
    assert_eq!(w.size, 3);
}

#[test]
fn long_view_header_and_rows_align() {
    let files = get_entries(vec![raw("a.txt", false, 10), raw("b", true, 0)], false);
    let lines = render_long_view(&files, &None);
    assert_eq!(lines.len(), 4);
    assert_eq!(lines[0].color, Color::Green);
    assert!(lines[0].colored.starts_with("Permissions "));
    assert!(lines[0].colored.ends_with("Name"));
    assert!(lines[1].colored.starts_with("----------- "));
    // The directory row comes first and carries the placeholder size.
    assert!(lines[2].colored.ends_with("b/"));
    assert!(lines[2].plain.contains(" \u{2014} "));
    assert!(lines[3].colored.ends_with("a.txt"));
    assert!(lines[3].plain.contains("10 B"));
    assert!(lines[2].plain.starts_with("d"));
    assert!(lines[3].plain.starts_with("-rw-r--r--"));
}

#[test]
fn long_view_of_nothing_is_nothing() {
    let lines = render_long_view(&Vec::new(), &None);
    assert!(lines.is_empty());
}

#[test]
fn tree_long_view_places_fields_before_the_prefix() {
    let nodes = build_tree_nodes(vec![raw("a.txt", false, 10)], 0, 2, false, &None);
    let lines = render_tree_view("root", &nodes, true);
    assert_eq!(lines.len(), 4);
    assert_eq!(lines[0].plain, "root");
    assert_eq!(lines[1].color, Color::Green);
    assert!(lines[3].plain.starts_with("-rw-r--r--"));
    assert!(lines[3].plain.ends_with("└── "));
    assert!(lines[3].colored.ends_with("a.txt"));
}
