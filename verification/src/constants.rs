//! The fixed measures of the picker's grid and of its thumbnails.

use vstd::prelude::*;

verus! {

/// Thumbnails in one row of the grid.
pub const IMAGES_PER_ROW: usize = 4;

/// Box that a thumbnail is fitted into, in pixels.
pub const THUMBNAIL_WIDTH: u32 = 320;

pub const THUMBNAIL_HEIGHT: u32 = 150;

/// Height of one grid row, spacing included, in pixels.
pub const ROW_HEIGHT: u32 = 155;

/// Height of the scrollable area that key navigation assumes, in pixels.
pub const VIEWPORT_HEIGHT: u32 = 600;

/// Items loaded ahead of and behind what is on screen.
pub const LOAD_BUFFER: usize = 10;

/// How far outside the load window a loaded thumbnail is kept.  It is larger
/// than `LOAD_BUFFER` so that scrolling back and forth by a few pixels does
/// not drop and reload the same thumbnails.
pub const UNLOAD_SLACK: usize = LOAD_BUFFER + 10;

/// End of the load window before the first scroll event: the first items
/// that arrive are loaded at once.
pub const INITIAL_WINDOW: usize = 20;

/// Records that may wait between the scan and the view.
pub const RELAY_CAPACITY: usize = 500;

} // verus!
