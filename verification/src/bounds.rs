//! Content bounds of the stock folder icon, per icon size.
//!
//! A folder icon does not fill its whole canvas; the content bounds describe
//! the "imprintable surface" where the folder visual actually sits. The
//! lookup is partial: a size combination outside the table is reported as
//! undefined, never assumed silently, so that a caller can turn it into an
//! explicit error.

use vstd::prelude::*;

use crate::icons::RectPx;

verus! {

/// The content-bounds table, keyed by the icon width. Only the widths listed
/// here are defined; every other combination is undefined.
pub open spec fn spec_content_bounds(width: u32, height: u32) -> Option<RectPx> {
    if width == 16 {
        Some(RectPx { x: 0, y: 4, width: 16, height: 9 })
    } else if width == 20 {
        Some(RectPx { x: 1, y: 6, width: 18, height: 10 })
    } else if width == 24 {
        Some(RectPx { x: 1, y: 6, width: 22, height: 13 })
    } else if width == 32 {
        Some(RectPx { x: 2, y: 8, width: 28, height: 17 })
    } else if width == 40 {
        Some(RectPx { x: 2, y: 10, width: 38, height: 22 })
    } else if width == 48 {
        Some(RectPx { x: 3, y: 11, width: 42, height: 27 })
    } else if width == 64 {
        Some(RectPx { x: 4, y: 16, width: 56, height: 36 })
    } else if width == 256 {
        Some(RectPx { x: 16, y: 62, width: 224, height: 144 })
    } else {
        None
    }
}

/// Returns the content bounds for a stock folder icon of the given pixel
/// dimensions, or `None` when the combination is not in the table.
///
/// The table is keyed by the width alone; the height is accepted for API
/// consistency with the dimension pair that callers hold.
pub fn get_folder_icon_content_bounds(width: u32, _height: u32) -> (r: Option<RectPx>)
    ensures
        r == spec_content_bounds(width, _height),
{
    match width {
        16 => Some(RectPx::new(0, 4, 16, 9)),
        20 => Some(RectPx::new(1, 6, 18, 10)),
        24 => Some(RectPx::new(1, 6, 22, 13)),
        32 => Some(RectPx::new(2, 8, 28, 17)),
        40 => Some(RectPx::new(2, 10, 38, 22)),
        48 => Some(RectPx::new(3, 11, 42, 27)),
        64 => Some(RectPx::new(4, 16, 56, 36)),
        256 => Some(RectPx::new(16, 62, 224, 144)),
        _ => None,
    }
}

} // verus!
