use crate::rect::Rect;
use tui::layout::{Constraint as TuiConstraint, Direction, Layout, Rect as TuiRect};
use vstd::prelude::*;

verus! {

/// One sizing rule handed to the layout partitioner for one sub-rectangle:
/// a percentage of the area, a fixed length, or a minimum length.
#[derive(Clone, Copy, Debug, PartialEq, Eq, Structural)]
pub enum SplitConstraint {
    Percentage(u16),
    Length(u16),
    Min(u16),
}

/// Relies on tui::layout::Layout::split: it returns one sub-rectangle per
/// constraint; every sub-rectangle lies within the area; along the axis
/// that is not split, position and extent are kept; and the last
/// sub-rectangle is extended to the far edge of the area (clipped to 16
/// bits), so no remainder is left unassigned. For a vertical split into a
/// minimum-height region above a fixed-length region that both fit, the
/// constraint system has a unique solution — the fixed region flush with
/// the bottom edge, the rest above it — and that solution is stated.
/// Elsewhere the solver may place slack on any region, and which optimum
/// it returns can vary from run to run, so nothing is claimed of the
/// solved positions beyond these bounds. The percentage arithmetic
/// multiplies the percentage by the split axis's extent in 16 bits, so
/// the precondition keeps that product representable.
#[verifier::external_body]
pub(crate) fn split_area(area: Rect, horizontal: bool, constraints: &Vec<SplitConstraint>) -> (r:
    Vec<Rect>)
    requires
        forall|i: int|
            0 <= i < constraints@.len() ==> ((#[trigger] constraints@[i])
                matches SplitConstraint::Percentage(p) ==> p as int * (if horizontal {
                area.width as int
            } else {
                area.height as int
            }) <= u16::MAX as int),
    ensures
        r@.len() == constraints@.len(),
        forall|i: int|
            0 <= i < r@.len() ==> {
                &&& r@[i].x >= area.x
                &&& r@[i].y >= area.y
                &&& r@[i].x + r@[i].width <= area.x + area.width
                &&& r@[i].y + r@[i].height <= area.y + area.height
                &&& (!horizontal ==> r@[i].x == area.x && r@[i].width == area.width)
                &&& (horizontal ==> r@[i].y == area.y && r@[i].height == area.height)
            },
        r@.len() > 0 && horizontal ==> r@.last().x + r@.last().width == (
        if area.x + area.width <= u16::MAX {
            area.x + area.width
        } else {
            u16::MAX as int
        }),
        r@.len() > 0 && !horizontal ==> r@.last().y + r@.last().height == (
        if area.y + area.height <= u16::MAX {
            area.y + area.height
        } else {
            u16::MAX as int
        }),
        (!horizontal && constraints@.len() == 2 && area.y + area.height <= u16::MAX) ==> (
        constraints@[0] matches SplitConstraint::Min(top_min) ==> (
        constraints@[1] matches SplitConstraint::Length(bottom_len) ==> (top_min + bottom_len
            <= area.height ==> {
            &&& r@[0].y == area.y
            &&& r@[0].height == area.height - bottom_len
            &&& r@[1].y == area.y + area.height - bottom_len
            &&& r@[1].height == bottom_len
        }))),
{
    let rules: Vec<TuiConstraint> = constraints.iter().map(|c| match c {
        SplitConstraint::Percentage(p) => TuiConstraint::Percentage(*p),
        SplitConstraint::Length(v) => TuiConstraint::Length(*v),
        SplitConstraint::Min(v) => TuiConstraint::Min(*v),
    }).collect();
    let dir = if horizontal { Direction::Horizontal } else { Direction::Vertical };
    let target = TuiRect { x: area.x, y: area.y, width: area.width, height: area.height };
    let chunks = Layout::default().direction(dir).constraints(rules).split(target);
    chunks.into_iter().map(|c| Rect { x: c.x, y: c.y, width: c.width, height: c.height }).collect()
}

} // verus!
