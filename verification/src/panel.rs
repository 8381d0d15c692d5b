//! The rounded panel behind the text, as shapes to fill.

use vstd::prelude::*;

verus! {

/// Corner radius of the standard panel, in pixels.
pub const CORNER_RADIUS: u32 = 10;

/// A rectangle of pixels: its top left pixel and its size.
#[derive(Clone, Copy, Debug, PartialEq, Eq, Structural)]
pub struct Rect {
    pub left: i32,
    pub top: i32,
    pub width: u32,
    pub height: u32,
}

/// A disc of pixels: its centre and its radius.
#[derive(Clone, Copy, Debug, PartialEq, Eq, Structural)]
pub struct Disc {
    pub x: i32,
    pub y: i32,
    pub radius: i32,
}

/// The shapes that fill a rectangle with rounded corners: a disc in each
/// corner and two bands that cross.
#[derive(Clone, Copy, Debug, PartialEq, Eq, Structural)]
pub struct RoundedPanel {
    pub top_left: Disc,
    pub top_right: Disc,
    pub bottom_left: Disc,
    pub bottom_right: Disc,
    /// The band of full width, between the upper and the lower corners.
    pub wide_band: Rect,
    /// The band of full height, between the left and the right corners.
    pub tall_band: Rect,
}

impl Rect {
    /// The column of the rightmost pixel.
    pub open spec fn right(self) -> int {
        self.left + self.width - 1
    }

    /// The row of the lowest pixel.
    pub open spec fn bottom(self) -> int {
        self.top + self.height - 1
    }
}

/// Whether a rectangle can have corners of a radius: each side is longer
/// than two radii, and the rectangle lies within the range of a pixel
/// coordinate.
pub open spec fn can_round(rect: Rect, radius: u32) -> bool {
    &&& rect.width > 2 * radius
    &&& rect.height > 2 * radius
    &&& rect.right() <= i32::MAX
    &&& rect.bottom() <= i32::MAX
}

/// The shapes of a rectangle with corners of a radius.
pub open spec fn rounded(rect: Rect, radius: u32) -> RoundedPanel {
    let r = radius as i32;
    RoundedPanel {
        top_left: Disc { x: (rect.left + r) as i32, y: (rect.top + r) as i32, radius: r },
        top_right: Disc { x: (rect.right() - r) as i32, y: (rect.top + r) as i32, radius: r },
        bottom_left: Disc { x: (rect.left + r) as i32, y: (rect.bottom() - r) as i32, radius: r },
        bottom_right: Disc {
            x: (rect.right() - r) as i32,
            y: (rect.bottom() - r) as i32,
            radius: r,
        },
        wide_band: Rect {
            left: rect.left,
            top: (rect.top + r) as i32,
            width: rect.width,
            height: (rect.height - 2 * r) as u32,
        },
        tall_band: Rect {
            left: (rect.left + r) as i32,
            top: rect.top,
            width: (rect.width - 2 * r) as u32,
            height: rect.height,
        },
    }
}

/// Breaks a rectangle with rounded corners into the shapes that fill it,
/// where it can have such corners.
pub fn rounded_panel(rect: Rect, radius: u32) -> (r: Option<RoundedPanel>)
    ensures
        can_round(rect, radius) <==> r is Some,
        r matches Some(panel) ==> panel == rounded(rect, radius),
{
    if rect.width as u64 <= 2 * (radius as u64) || rect.height as u64 <= 2 * (radius as u64) {
        return None;
    }
    let right: i64 = rect.left as i64 + rect.width as i64 - 1;
    let bottom: i64 = rect.top as i64 + rect.height as i64 - 1;
    if right > i32::MAX as i64 || bottom > i32::MAX as i64 {
        return None;
    }
    let r: i64 = radius as i64;
    Some(
        RoundedPanel {
            top_left: Disc {
                x: (rect.left as i64 + r) as i32,
                y: (rect.top as i64 + r) as i32,
                radius: r as i32,
            },
            top_right: Disc { x: (right - r) as i32, y: (rect.top as i64 + r) as i32, radius: r as i32 },
            bottom_left: Disc {
                x: (rect.left as i64 + r) as i32,
                y: (bottom - r) as i32,
                radius: r as i32,
            },
            bottom_right: Disc { x: (right - r) as i32, y: (bottom - r) as i32, radius: r as i32 },
            wide_band: Rect {
                left: rect.left,
                top: (rect.top as i64 + r) as i32,
                width: rect.width,
                height: rect.height - 2 * radius,
            },
            tall_band: Rect {
                left: (rect.left as i64 + r) as i32,
                top: rect.top,
                width: rect.width - 2 * radius,
                height: rect.height,
            },
        },
    )
}

} // verus!
