//! Sorting, size resolution, and the single-level listing.

use lsplus::entry::{calculate_dir_size, display_size, get_entries, sort_entries, RawEntry};
use lsplus::text::{pad_left, pad_right, str_lex_le, u32_to_decimal};

fn raw(name: &str, is_dir: bool, len: u64) -> RawEntry {
    RawEntry {
        name: String::from(name),
        canonical: None,
        is_dir,
        len,
        mode: 0o644,
        uid: 0,
        gid: 0,
        modified: 0,
        children: Vec::new(),
    }
}

#[test]
fn directories_sort_before_files() {
    let v = vec![raw("zeta.txt", false, 1), raw("alpha", true, 0), raw("beta.txt", false, 2)];
    let r = sort_entries(v);
    let names: Vec<&str> = r.iter().map(|e| e.name.as_str()).collect();
    assert_eq!(names, vec!["alpha", "beta.txt", "zeta.txt"]);
    assert!(r[0].is_dir);
}

#[test]
fn names_sort_lexicographically_within_kind() {
    let v = vec![
        raw("c", false, 0),
        raw("a", false, 0),
        raw("b", true, 0),
        raw("A", true, 0),
        raw(".hidden", false, 0),
    ];
    let r = sort_entries(v);
    let names: Vec<&str> = r.iter().map(|e| e.name.as_str()).collect();
    // Directories first ('A' < 'b'), then files ('.' < 'a' < 'c').
    assert_eq!(names, vec!["A", "b", ".hidden", "a", "c"]);
}

#[test]
fn lexicographic_order_is_byte_order_on_ascii() {
    assert!(str_lex_le(".hidden", "a.txt"));
    assert!(!str_lex_le("a.txt", ".hidden"));
    assert!(str_lex_le("abc", "abd"));
    assert!(str_lex_le("ab", "abc"));
    assert!(!str_lex_le("abc", "ab"));
    assert!(str_lex_le("same", "same"));
}

#[test]
fn dir_size_is_exact_sum() {
    let lens = vec![1u64, 2, 3, 10];
    assert_eq!(calculate_dir_size(&lens), 16);
    assert_eq!(calculate_dir_size(&Vec::new()), 0);
}

#[test]
fn dir_size_saturates_at_max() {
    let lens = vec![u64::MAX, 5];
    assert_eq!(calculate_dir_size(&lens), u64::MAX);
    let lens2 = vec![u64::MAX - 1, 1];
    assert_eq!(calculate_dir_size(&lens2), u64::MAX);
}

#[test]
fn size_column_formats_counts_and_placeholders() {
    // A directory without size computation shows the placeholder em dash;
    // the formatter turns real counts into decimal-unit text.
    assert_eq!(display_size(true, false, 12345), "\u{2014}");
    assert_eq!(display_size(false, false, 1_000_000), "1 MB");
    assert_eq!(display_size(false, false, 10), "10 B");
    assert_eq!(display_size(true, true, 2_000), "2 kB");
}

#[test]
fn get_entries_resolves_sizes_and_orders() {
    let v = vec![raw("a.txt", false, 10), raw("b", true, 0)];
    let files = get_entries(v, false);
    assert_eq!(files.len(), 2);
    assert_eq!(files[0].name, "b");
    assert!(files[0].is_dir);
    assert_eq!(files[0].size_display, "\u{2014}");
    assert_eq!(files[1].name, "a.txt");
    assert_eq!(files[1].size_display, "10 B");
}

#[test]
fn get_entries_with_size_computation_formats_directory_totals() {
    let mut d = raw("b", true, 15);
    d.len = 15;
    let files = get_entries(vec![d], true);
    assert_eq!(files[0].size_display, "15 B");
}

#[test]
fn decimal_rendering_of_identifiers() {
    assert_eq!(u32_to_decimal(0), "0");
    assert_eq!(u32_to_decimal(7), "7");
    assert_eq!(u32_to_decimal(1040), "1040");
    assert_eq!(u32_to_decimal(u32::MAX), "4294967295");
}

#[test]
fn padding_aligns_fields() {
    assert_eq!(pad_right("ab", 5), "ab   ");
    assert_eq!(pad_right("abcdef", 3), "abcdef");
    assert_eq!(pad_left("42", 5), "   42");
    assert_eq!(pad_left("123456", 2), "123456");
}
