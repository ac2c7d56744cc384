use dirpanel::footer::{footer_text, select_footer, FooterState};
use dirpanel::frame::plan_frame;
use dirpanel::item::DirectoryItem;
use dirpanel::rect::Rect;

fn viewport() -> Rect {
    Rect { x: 0, y: 0, width: 80, height: 24 }
}

#[test]
fn footer_state_follows_the_error_field() {
    assert_eq!(select_footer(&Some(String::from("boom"))), FooterState::Error);
    assert_eq!(select_footer(&None), FooterState::Command);
}

#[test]
fn footer_text_prefers_the_error_message() {
    assert_eq!(footer_text(&Some(String::from("boom")), "ls"), "boom");
    assert_eq!(footer_text(&None, "ls"), "ls");
}

#[test]
fn error_is_shown_once_then_cleared() {
    let items: Vec<DirectoryItem> = Vec::new();
    let mut error = Some(String::from("cannot remove file"));

    // First cycle: the error is rendered and marked for clearing.
    let plan = plan_frame(viewport(), "/home/u", &items, &None, "ls", &error);
    assert_eq!(plan.footer, FooterState::Error);
    assert_eq!(plan.footer_text, "cannot remove file");
    assert!(plan.clear_error);
    if plan.clear_error {
        error = None;
    }

    // Second cycle: the field is clear and the command buffer returns.
    let plan = plan_frame(viewport(), "/home/u", &items, &None, "ls", &error);
    assert_eq!(plan.footer, FooterState::Command);
    assert_eq!(plan.footer_text, "ls");
    assert!(!plan.clear_error);
}

#[test]
fn title_holds_the_current_path() {
    let items: Vec<DirectoryItem> = Vec::new();
    let plan = plan_frame(viewport(), "/home/u", &items, &None, "", &None);
    assert_eq!(plan.title, "Contents─/home/u");
}

#[test]
fn viewport_splits_into_content_and_three_row_footer() {
    let items: Vec<DirectoryItem> = Vec::new();
    let plan = plan_frame(viewport(), "/", &items, &None, "", &None);
    assert_eq!(plan.content.width, 80);
    assert_eq!(plan.footer_rect.width, 80);
    assert_eq!(plan.content.y, 0);
    assert_eq!(plan.footer_rect.height, 3);
    assert_eq!(plan.content.height, 21);
    assert_eq!(plan.footer_rect.y, 21);
}

#[test]
fn smallest_viewport_with_both_regions_splits_exactly() {
    let items: Vec<DirectoryItem> = Vec::new();
    let plan = plan_frame(Rect { x: 0, y: 0, width: 20, height: 6 }, "/", &items, &None, "", &None);
    assert_eq!(plan.content.height, 3);
    assert_eq!(plan.content.y, 0);
    assert_eq!(plan.footer_rect.height, 3);
    assert_eq!(plan.footer_rect.y, 3);
}

#[test]
fn planned_columns_come_from_the_listing() {
    let items = vec![
        DirectoryItem::Directory { path: String::from("/home/u/docs") },
        DirectoryItem::File { path: String::from("/home/u/a.txt"), size_kb: 4 },
    ];
    let plan = plan_frame(viewport(), "/home/u", &items, &Some(1), "", &None);
    assert_eq!(plan.columns.len(), 1);
    assert_eq!(plan.columns[0].entries.len(), 2);
    assert_eq!(plan.columns[0].entries[0].label, "📁 docs");
    assert!(!plan.columns[0].entries[0].emphasized);
    assert_eq!(plan.columns[0].entries[1].label, "📄 a.txt");
    assert!(plan.columns[0].entries[1].emphasized);
}
