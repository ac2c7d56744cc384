use crate::columns::{
    column_count_of, column_slice, layout_columns, marked_models, rows_per_column_of, Column,
    MAX_PANEL_WIDTH,
};
use crate::footer::{
    clears_error, footer_state_of, footer_text, footer_text_of, select_footer, FooterState,
};
use crate::item::{entry_model_of, format_items, models_of, DirectoryItem};
use crate::rect::{spans_disjoint, Rect};
use crate::split::{split_area, SplitConstraint};
use vstd::prelude::*;
use vstd::string::StringExecFns;

verus! {

/// Everything one draw cycle puts on the terminal, computed up front: the
/// two regions of the vertical split, the panel title, the laid-out
/// columns, and the footer's state and text, with the flag that tells the
/// caller to clear the error field once the frame has been shown.
pub struct FramePlan {
    pub content: Rect,
    pub footer_rect: Rect,
    pub title: String,
    pub columns: Vec<Column>,
    pub footer: FooterState,
    pub footer_text: String,
    pub clear_error: bool,
}

/// The formatted models of a directory listing.
pub open spec fn formatted_models(items: Seq<DirectoryItem>) -> Seq<crate::item::EntryModel> {
    items.map_values(|it: DirectoryItem| entry_model_of(it@))
}

/// Plans one draw cycle: splits the viewport vertically into the content
/// panel above the three-row footer, formats the listing, lays it out in
/// columns with the selection marked, titles the panel with the current
/// path, and selects the footer's state and text from the error field.
/// Whenever the viewport has the six rows the two regions ask for, the
/// split is exact: a fixed three-row footer flush with the bottom edge,
/// and everything above it as content; smaller viewports still give two
/// regions inside the viewport, the lower one ending at its bottom edge.
pub fn plan_frame(
    viewport: Rect,
    current_dir: &str,
    items: &Vec<DirectoryItem>,
    selected: &Option<usize>,
    command: &str,
    error: &Option<String>,
) -> (p: FramePlan)
    requires
        viewport.width <= MAX_PANEL_WIDTH,
    ensures
        p.content.width == viewport.width,
        p.footer_rect.width == viewport.width,
        p.content.x == viewport.x,
        p.footer_rect.x == viewport.x,
        p.content.y >= viewport.y,
        p.content.y + p.content.height <= viewport.y + viewport.height,
        p.footer_rect.y >= viewport.y,
        p.footer_rect.y + p.footer_rect.height == (if viewport.y + viewport.height <= u16::MAX {
            viewport.y + viewport.height as int
        } else {
            u16::MAX as int
        }),
        (viewport.height >= 6 && viewport.y + viewport.height <= u16::MAX) ==> {
            &&& p.content.y == viewport.y
            &&& p.content.height == viewport.height - 3
            &&& p.footer_rect.height == 3
            &&& p.footer_rect.y == viewport.y + viewport.height - 3
            &&& p.content.y + p.content.height == p.footer_rect.y
        },
        p.title@ == "Contents─"@ + current_dir@,
        ({
            let formatted = formatted_models(items@);
            let rows = rows_per_column_of(p.content.height as int);
            let count = column_count_of(formatted.len() as int, rows);
            let marked = marked_models(formatted, *selected);
            &&& p.columns@.len() == count
            &&& forall|i: int|
                0 <= i < count ==> models_of(#[trigger] p.columns@[i].entries@) == column_slice(
                    marked,
                    rows,
                    i,
                )
            &&& forall|i: int|
                0 <= i < count ==> (#[trigger] p.columns@[i].size_rect)
                    == p.columns@[i].rect.narrowed_spec()
            &&& forall|i: int, j: int|
                0 <= i < j < count ==> #[trigger] spans_disjoint(
                    p.columns@[i].rect,
                    p.columns@[j].rect,
                )
            &&& forall|i: int|
                0 <= i < count ==> {
                    let inner = p.content.inner_spec();
                    &&& (#[trigger] p.columns@[i].rect).x >= inner.x
                    &&& p.columns@[i].rect.x + p.columns@[i].rect.width <= inner.x + inner.width
                    &&& p.columns@[i].rect.y == inner.y
                    &&& p.columns@[i].rect.height == inner.height
                }
            &&& (formatted.len() > 0 ==> ({
                let inner = p.content.inner_spec();
                let last = p.columns@[count - 1].rect;
                last.x + last.width == if inner.x + inner.width <= u16::MAX {
                    inner.x + inner.width
                } else {
                    u16::MAX as int
                }
            }))
        }),
        p.footer == footer_state_of(error.deep_view()),
        p.footer_text@ == footer_text_of(error.deep_view(), command@),
        p.clear_error == clears_error(error.deep_view()),
{
    let mut frame_rules: Vec<SplitConstraint> = Vec::new();
    frame_rules.push(SplitConstraint::Min(3));
    frame_rules.push(SplitConstraint::Length(3));
    proof {
        assert(frame_rules@ =~= seq![SplitConstraint::Min(3u16), SplitConstraint::Length(3u16)]);
    }
    let regions = split_area(viewport, false, &frame_rules);
    let content = regions[0];
    let footer_rect = regions[1];

    let mut title = String::from_str("Contents─");
    title.append(current_dir);

    let formatted = format_items(items);
    proof {
        assert(models_of(formatted@) =~= formatted_models(items@));
    }
    let columns = layout_columns(&formatted, content, selected);

    let footer = select_footer(error);
    let shown = footer_text(error, command);
    let clear_error = error.is_some();

    FramePlan { content, footer_rect, title, columns, footer, footer_text: shown, clear_error }
}

} // verus!
