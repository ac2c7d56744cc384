use dirpanel::item::{format_item, format_items, last_segment, u64_to_decimal, DirectoryItem};

#[test]
fn file_label_has_icon_and_segment() {
    let item = DirectoryItem::File { path: String::from("/home/u/a.txt"), size_kb: 4 };
    let entry = format_item(&item);
    assert_eq!(entry.label, "📄 a.txt");
    assert_eq!(entry.size_label, "4KB");
    assert!(!entry.emphasized);
}

#[test]
fn directory_label_has_icon_and_empty_size() {
    let item = DirectoryItem::Directory { path: String::from("/home/u/docs") };
    let entry = format_item(&item);
    assert_eq!(entry.label, "📁 docs");
    assert_eq!(entry.size_label, "");
    assert!(!entry.emphasized);
}

#[test]
fn last_segment_takes_text_after_final_slash() {
    assert_eq!(last_segment("/home/u/a.txt"), "a.txt");
    assert_eq!(last_segment("a/b/c"), "c");
    assert_eq!(last_segment("/x"), "x");
}

#[test]
fn last_segment_without_slash_is_whole_path() {
    assert_eq!(last_segment("abc"), "abc");
}

#[test]
fn last_segment_degrades_on_malformed_paths() {
    assert_eq!(last_segment(""), "");
    assert_eq!(last_segment("a/"), "");
    assert_eq!(last_segment("/"), "");
}

#[test]
fn decimal_rendering_is_exact() {
    assert_eq!(u64_to_decimal(0), "0");
    assert_eq!(u64_to_decimal(7), "7");
    assert_eq!(u64_to_decimal(10), "10");
    assert_eq!(u64_to_decimal(120), "120");
    assert_eq!(u64_to_decimal(18446744073709551615), "18446744073709551615");
}

#[test]
fn formatting_preserves_input_order() {
    let items = vec![
        DirectoryItem::File { path: String::from("/d/zeta"), size_kb: 1 },
        DirectoryItem::Directory { path: String::from("/d/alpha") },
        DirectoryItem::File { path: String::from("/d/mid"), size_kb: 22 },
    ];
    let entries = format_items(&items);
    assert_eq!(entries.len(), 3);
    assert_eq!(entries[0].label, "📄 zeta");
    assert_eq!(entries[0].size_label, "1KB");
    assert_eq!(entries[1].label, "📁 alpha");
    assert_eq!(entries[1].size_label, "");
    assert_eq!(entries[2].label, "📄 mid");
    assert_eq!(entries[2].size_label, "22KB");
}
