//! Logical window geometry: the fixed-height tab-bar strip at the top of the
//! window and the content area handed to each tab's rendering surface.
//!
//! All values are in logical units; the host converts physical pixels with the
//! display scale factor before calling into the registry.

use vstd::prelude::*;

verus! {

/// Logical height of the tab-bar strip reserved at the top of the window
/// while at least one tab exists.
pub const TAB_BAR_HEIGHT: u32 = 40;

/// A width and height in logical units.
#[derive(Clone, Copy, PartialEq, Eq, Structural, Debug)]
pub struct LogicalSize {
    pub width: u32,
    pub height: u32,
}

/// A rectangle in logical units, positioned from the top-left corner of the
/// window's content area.
#[derive(Clone, Copy, PartialEq, Eq, Structural, Debug)]
pub struct LogicalRect {
    pub x: u32,
    pub y: u32,
    pub width: u32,
    pub height: u32,
}

/// The content rectangle for a tab surface in a window of size `win`: the
/// full width, below the tab-bar strip, with whatever height remains.
pub open spec fn spec_content_rect(win: LogicalSize) -> LogicalRect {
    LogicalRect {
        x: 0,
        y: TAB_BAR_HEIGHT,
        width: win.width,
        height: if win.height >= TAB_BAR_HEIGHT {
            (win.height - TAB_BAR_HEIGHT) as u32
        } else {
            0
        },
    }
}

/// The size of the tab-bar strip while tabs exist: the window's full width at
/// the fixed strip height.
pub open spec fn spec_strip_size(win: LogicalSize) -> LogicalSize {
    LogicalSize { width: win.width, height: TAB_BAR_HEIGHT }
}

/// Computes the viewport rectangle for a new tab surface: a strip of logical
/// height [`TAB_BAR_HEIGHT`] is reserved at the top of the window for the tab
/// bar and the remainder is given to the tab's content area.
pub fn content_rect(win: LogicalSize) -> (r: LogicalRect)
    ensures
        r == spec_content_rect(win),
{
    let height: u32 = if win.height >= TAB_BAR_HEIGHT {
        win.height - TAB_BAR_HEIGHT
    } else {
        0
    };
    LogicalRect { x: 0, y: TAB_BAR_HEIGHT, width: win.width, height }
}

/// Computes the size of the tab-bar strip for a window of size `win` while at
/// least one tab exists.
pub fn strip_size(win: LogicalSize) -> (r: LogicalSize)
    ensures
        r == spec_strip_size(win),
{
    LogicalSize { width: win.width, height: TAB_BAR_HEIGHT }
}

} // verus!
