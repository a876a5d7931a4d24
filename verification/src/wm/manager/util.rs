//! Geometry helpers used when placing clients on screen.
use vstd::prelude::*;

use crate::wm::data_types::Region;

verus! {

/// The gap to leave around a client: none for gapless layouts.
pub open spec fn effective_gap(gapless: bool, gap_px: u32) -> int {
    if gapless {
        0
    } else {
        gap_px as int
    }
}

/// The region a tiled client is drawn in: the layout's region shrunk by the gap
/// on the top and left and by the gap and border on every side.
pub open spec fn padded(region: Region, gapless: bool, gap_px: u32, border_px: u32) -> Region {
    let g = effective_gap(gapless, gap_px);
    let padding = 2 * (border_px + g);
    Region {
        x: (region.x + g) as u32,
        y: (region.y + g) as u32,
        w: (region.w - padding) as u32,
        h: (region.h - padding) as u32,
    }
}

/// Padding `region` is defined: nothing overflows and the padding fits inside it.
pub open spec fn padding_fits(region: Region, gapless: bool, gap_px: u32, border_px: u32) -> bool {
    let g = effective_gap(gapless, gap_px);
    &&& 2 * (border_px + g) <= u32::MAX
    &&& region.x + g <= u32::MAX
    &&& region.y + g <= u32::MAX
    &&& 2 * (border_px + g) <= region.w
    &&& 2 * (border_px + g) <= region.h
}

/// Shrink `region` to leave room for the gap between clients and the client border.
pub fn pad_region(region: &Region, gapless: bool, gap_px: u32, border_px: u32) -> (r: Region)
    requires
        padding_fits(*region, gapless, gap_px, border_px),
    ensures
        r == padded(*region, gapless, gap_px, border_px),
{
    let gpx = if gapless {
        0
    } else {
        gap_px
    };
    let padding = 2 * (border_px + gpx);
    let (x, y, w, h) = region.values();
    Region::new(x + gpx, y + gpx, w - padding, h - padding)
}

/// Where a floating client is placed: its requested position moved onto the
/// screen if it starts above or to the left of it, then shrunk to leave room
/// for the border.
pub open spec fn floating_position(default_position: Region, screen_region: Region, border_px: u32) -> Region {
    let x = if default_position.x < screen_region.x {
        screen_region.x
    } else {
        default_position.x
    };
    let y = if default_position.y < screen_region.y {
        screen_region.y
    } else {
        default_position.y
    };
    Region {
        x: (x + border_px) as u32,
        y: (y + border_px) as u32,
        w: (default_position.w - 2 * border_px) as u32,
        h: (default_position.h - 2 * border_px) as u32,
    }
}

/// Compute the position of a floating client from the geometry the client asked
/// for (`default_position`) and the region of the screen it is shown on.
pub fn position_floating_client(default_position: Region, screen_region: Region, border_px: u32) -> (r: Region)
    requires
        default_position.x + border_px <= u32::MAX,
        default_position.y + border_px <= u32::MAX,
        screen_region.x + border_px <= u32::MAX,
        screen_region.y + border_px <= u32::MAX,
        2 * border_px <= default_position.w,
        2 * border_px <= default_position.h,
    ensures
        r == floating_position(default_position, screen_region, border_px),
{
    let (mut x, mut y, w, h) = default_position.values();
    let (sx, sy, _, _) = screen_region.values();
    x = if x < sx {
        sx
    } else {
        x
    };
    y = if y < sy {
        sy
    } else {
        y
    };
    Region::new(x + border_px, y + border_px, w - (2 * border_px), h - (2 * border_px))
}

} // verus!
