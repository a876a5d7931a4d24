//! Information on connected displays
use vstd::prelude::*;

use crate::wm::data_types::{Point, Region};

verus! {

/// Display information for a connected screen
#[derive(Debug, PartialEq, Eq, Clone, Copy, Structural)]
pub struct Screen {
    /// The current workspace index being displayed
    pub wix: usize,
    /// The full region covered by this screen
    pub true_region: Region,
    /// The region left for clients once any bar is accounted for
    pub effective_region: Region,
}

/// The space left on a screen of region `r` once a bar of `bar_height` pixels is
/// reserved at its top or bottom.
pub open spec fn effective_for(r: Region, bar_height: u32, top_bar: bool) -> Region {
    if top_bar {
        Region { x: r.x, y: (r.y + bar_height) as u32, w: r.w, h: (r.h - bar_height) as u32 }
    } else {
        Region { x: r.x, y: r.y, w: r.w, h: (r.h - bar_height) as u32 }
    }
}

/// Reserving a bar of `bar_height` pixels is defined for a screen of region `r`.
pub open spec fn bar_fits(r: Region, bar_height: u32, top_bar: bool) -> bool {
    &&& bar_height <= r.h
    &&& top_bar ==> r.y + bar_height <= u32::MAX
}

impl Screen {
    /// The full region covered by this screen.
    pub open spec fn true_region(&self) -> Region {
        self.true_region
    }

    /// The region of this screen left for clients once any bar is accounted for.
    pub open spec fn effective_region(&self) -> Region {
        self.effective_region
    }

    /// Create a new screen instance directly
    pub fn new(region: Region, wix: usize) -> (r: Screen)
        ensures
            r.true_region() == region,
            r.effective_region() == region,
            r.wix == wix,
    {
        Screen { true_region: region, effective_region: region, wix }
    }

    /// Cache the current effective region of this screen based on whether or not a bar is
    /// displayed and if that bar is positioned at the top or bottom of the screen.
    pub fn update_effective_region(&mut self, bar_height: u32, top_bar: bool)
        requires
            bar_fits(old(self).true_region(), bar_height, top_bar),
        ensures
            final(self).true_region() == old(self).true_region(),
            final(self).wix == old(self).wix,
            final(self).effective_region() == effective_for(
                old(self).true_region(),
                bar_height,
                top_bar,
            ),
    {
        let (x, y, w, h) = self.true_region.values();
        self.effective_region = if top_bar {
            Region::new(x, y + bar_height, w, h - bar_height)
        } else {
            Region::new(x, y, w, h - bar_height)
        }
    }

    /// The available space for displaying clients on this screen. If 'effective_only' then the
    /// returned Region will account for space taken up by a bar.
    pub fn region(&self, effective_only: bool) -> (r: Region)
        ensures
            r == if effective_only {
                self.effective_region()
            } else {
                self.true_region()
            },
    {
        if effective_only {
            self.effective_region
        } else {
            self.true_region
        }
    }

    /// Determine whether or not an absolute coordinate Point (relative to the root window) is
    /// located on this screen.
    pub fn contains(&self, p: Point) -> (r: bool)
        requires
            self.true_region().x + self.true_region().w <= u32::MAX,
            self.true_region().y + self.true_region().h <= u32::MAX,
        ensures
            r == crate::wm::data_types::region_contains_point(self.true_region(), p),
    {
        let (x1, y1, w, h) = self.true_region.values();
        let (x2, y2) = (x1 + w, y1 + h);

        p.x >= x1 && p.x < x2 && p.y >= y1 && p.y < y2
    }
}

} // verus!
