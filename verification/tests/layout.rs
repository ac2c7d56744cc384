use dirpanel::columns::{column_count, layout_columns, mark_selected, rows_per_column};
use dirpanel::item::{format_items, DirectoryItem};
use dirpanel::rect::Rect;

fn files(n: u64) -> Vec<DirectoryItem> {
    let mut items = Vec::new();
    let mut i: u64 = 0;
    while i < n {
        items.push(DirectoryItem::File { path: format!("/d/f{}", i), size_kb: i });
        i += 1;
    }
    items
}

#[test]
fn single_column_for_two_entries() {
    // Two entries in a ten-row panel: eight usable rows, one column.
    let items = vec![
        DirectoryItem::Directory { path: String::from("/home/u/docs") },
        DirectoryItem::File { path: String::from("/home/u/a.txt"), size_kb: 4 },
    ];
    let entries = format_items(&items);
    let cols = layout_columns(&entries, Rect { x: 0, y: 0, width: 40, height: 10 }, &None);
    assert_eq!(cols.len(), 1);
    assert_eq!(cols[0].entries.len(), 2);
    assert_eq!(cols[0].entries[0].label, "📁 docs");
    assert_eq!(cols[0].entries[0].size_label, "");
    assert_eq!(cols[0].entries[1].label, "📄 a.txt");
    assert_eq!(cols[0].entries[1].size_label, "4KB");
}

#[test]
fn three_columns_for_twenty_five_entries() {
    // Height 12 leaves 10 usable rows; 25 entries need 3 columns that
    // window the entries column-major: [0..10), [10..20), [20..25).
    let entries = format_items(&files(25));
    let area = Rect { x: 0, y: 0, width: 92, height: 12 };
    let cols = layout_columns(&entries, area, &None);
    assert_eq!(cols.len(), 3);
    assert_eq!(cols[0].entries.len(), 10);
    assert_eq!(cols[1].entries.len(), 10);
    assert_eq!(cols[2].entries.len(), 5);
    assert_eq!(cols[0].entries[0].label, "📄 f0");
    assert_eq!(cols[1].entries[0].label, "📄 f10");
    assert_eq!(cols[2].entries[0].label, "📄 f20");
    assert_eq!(cols[2].entries[4].label, "📄 f24");
    // Each column takes roughly a third of the 90-cell interior.
    for col in &cols {
        assert!(col.rect.width >= 27 && col.rect.width <= 33);
    }
}

#[test]
fn column_rectangles_stay_inside_the_interior() {
    let entries = format_items(&files(25));
    let area = Rect { x: 0, y: 0, width: 92, height: 12 };
    let cols = layout_columns(&entries, area, &None);
    // The interior is inset by one cell on every side of the border.
    for col in &cols {
        assert!(col.rect.x >= 1);
        assert!(col.rect.x + col.rect.width <= 91);
        assert_eq!(col.rect.y, 1);
        assert_eq!(col.rect.height, 10);
    }
    // Distinct columns sit at increasing positions, never overlap, and
    // the last one is extended to the interior's far edge: no remainder
    // gap is left.
    assert!(cols[0].rect.x < cols[1].rect.x);
    assert!(cols[1].rect.x < cols[2].rect.x);
    assert!(cols[0].rect.x + cols[0].rect.width <= cols[1].rect.x);
    assert!(cols[1].rect.x + cols[1].rect.width <= cols[2].rect.x);
    assert!(cols[0].rect.x + cols[0].rect.width <= cols[2].rect.x);
    assert_eq!(cols[2].rect.x + cols[2].rect.width, 91);
}

#[test]
fn size_rectangles_are_narrowed_by_two_cells() {
    let entries = format_items(&files(25));
    let cols = layout_columns(&entries, Rect { x: 0, y: 0, width: 92, height: 12 }, &None);
    for col in &cols {
        assert_eq!(col.size_rect.x, col.rect.x);
        assert_eq!(col.size_rect.y, col.rect.y);
        assert_eq!(col.size_rect.height, col.rect.height);
        assert_eq!(col.size_rect.width, col.rect.width - 2);
    }
}

#[test]
fn concatenated_columns_reconstruct_the_listing() {
    let entries = format_items(&files(25));
    let cols = layout_columns(&entries, Rect { x: 0, y: 0, width: 92, height: 12 }, &None);
    let mut rebuilt: Vec<String> = Vec::new();
    for col in &cols {
        for entry in &col.entries {
            rebuilt.push(entry.label.clone());
        }
    }
    let expected: Vec<String> = entries.iter().map(|e| e.label.clone()).collect();
    assert_eq!(rebuilt, expected);
}

#[test]
fn exactly_one_entry_is_emphasized() {
    let entries = format_items(&files(25));
    let cols = layout_columns(&entries, Rect { x: 0, y: 0, width: 92, height: 12 }, &Some(12));
    let mut emphasized: Vec<String> = Vec::new();
    for col in &cols {
        for entry in &col.entries {
            if entry.emphasized {
                emphasized.push(entry.label.clone());
            }
        }
    }
    assert_eq!(emphasized, vec![String::from("📄 f12")]);
    // The selected flat index 12 falls in column 1 at offset 2.
    assert!(cols[1].entries[2].emphasized);
}

#[test]
fn out_of_range_selection_emphasizes_nothing() {
    let entries = format_items(&files(5));
    let cols = layout_columns(&entries, Rect { x: 0, y: 0, width: 40, height: 12 }, &Some(9));
    let total: usize = cols.iter().map(|c| c.entries.iter().filter(|e| e.emphasized).count()).sum();
    assert_eq!(total, 0);
}

#[test]
fn mark_selected_keeps_labels() {
    let entries = format_items(&files(3));
    let marked = mark_selected(&entries, &Some(1));
    assert_eq!(marked.len(), 3);
    assert_eq!(marked[1].label, entries[1].label);
    assert_eq!(marked[1].size_label, entries[1].size_label);
    assert!(!marked[0].emphasized);
    assert!(marked[1].emphasized);
    assert!(!marked[2].emphasized);
}

#[test]
fn empty_listing_yields_no_columns() {
    let entries = format_items(&Vec::new());
    let cols = layout_columns(&entries, Rect { x: 0, y: 0, width: 40, height: 10 }, &None);
    assert_eq!(cols.len(), 0);
}

#[test]
fn column_count_rounds_up() {
    assert_eq!(column_count(25, 10), 3);
    assert_eq!(column_count(0, 10), 0);
    assert_eq!(column_count(10, 10), 1);
    assert_eq!(column_count(11, 10), 2);
}

#[test]
fn column_count_never_drops_as_entries_grow() {
    let mut previous = 0;
    for n in 0..40 {
        let count = column_count(n, 10);
        assert!(count >= previous);
        previous = count;
    }
}

#[test]
fn tiny_viewport_clamps_to_one_row_per_column() {
    assert_eq!(rows_per_column(0), 1);
    assert_eq!(rows_per_column(2), 1);
    assert_eq!(rows_per_column(3), 1);
    assert_eq!(rows_per_column(10), 8);
    let entries = format_items(&files(3));
    let cols = layout_columns(&entries, Rect { x: 0, y: 0, width: 40, height: 2 }, &None);
    assert_eq!(cols.len(), 3);
    for col in &cols {
        assert_eq!(col.entries.len(), 1);
    }
}
