use vstd::prelude::*;

use crate::tree::{Layout, Rect};

verus! {

/// The two split axes a container can be balanced along. Every other
/// orientation has no axis and is skipped entirely.
#[derive(Clone, Copy, PartialEq, Eq, Structural, Debug)]
pub enum Axis {
    Horizontal,
    Vertical,
}

/// The extent of `r` along `a`: width on the horizontal axis, height on the
/// vertical one.
pub open spec fn spec_size_along(a: Axis, r: Rect) -> int {
    match a {
        Axis::Horizontal => r.width as int,
        Axis::Vertical => r.height as int,
    }
}

/// The position of `r` along `a`: x on the horizontal axis, y on the
/// vertical one.
pub open spec fn spec_pos_along(a: Axis, r: Rect) -> int {
    match a {
        Axis::Horizontal => r.x as int,
        Axis::Vertical => r.y as int,
    }
}

/// The balance axis of a layout: the horizontal one for a horizontal split,
/// the vertical one for a vertical split, and none for anything else.
pub open spec fn spec_axis_of(l: Layout) -> Option<Axis> {
    match l {
        Layout::SplitH => Some(Axis::Horizontal),
        Layout::SplitV => Some(Axis::Vertical),
        Layout::Other => None,
    }
}

/// Resolve a layout to its balance axis; `None` marks a container that must
/// be skipped.
pub fn axis_of(l: Layout) -> (r: Option<Axis>)
    ensures
        r == spec_axis_of(l),
{
    match l {
        Layout::SplitH => Some(Axis::Horizontal),
        Layout::SplitV => Some(Axis::Vertical),
        Layout::Other => None,
    }
}

/// The extent of `r` along `a`.
pub fn size_along(a: Axis, r: &Rect) -> (s: i32)
    ensures
        s as int == spec_size_along(a, *r),
{
    match a {
        Axis::Horizontal => r.width,
        Axis::Vertical => r.height,
    }
}

/// The position of `r` along `a`.
pub fn pos_along(a: Axis, r: &Rect) -> (p: i32)
    ensures
        p as int == spec_pos_along(a, *r),
{
    match a {
        Axis::Horizontal => r.x,
        Axis::Vertical => r.y,
    }
}

/// The label of the growth direction along `a`, as the window manager's
/// resize command expects it.
pub fn grow_label(a: Axis) -> (r: &'static str)
    ensures
        a == Axis::Horizontal ==> r@ == "right"@,
        a == Axis::Vertical ==> r@ == "down"@,
{
    match a {
        Axis::Horizontal => "right",
        Axis::Vertical => "down",
    }
}

} // verus!
