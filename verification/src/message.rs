//! What the view is told, and what it asks for in return.

use crate::ui::window::Viewport;
use crate::wallpaper_image::WallpaperImage;
use vstd::prelude::*;

verus! {

/// The named keys that the view reacts to; every other named key is `Other`.
#[derive(Debug, Clone, Copy, PartialEq, Eq, Structural)]
pub enum Named {
    ArrowUp,
    ArrowDown,
    ArrowLeft,
    ArrowRight,
    Enter,
    Escape,
    Other,
}

/// A key of the keyboard.
#[derive(Debug, Clone, PartialEq, Eq)]
pub enum Key {
    Named(Named),
    Character(String),
    Unidentified,
}

/// An event for the view.  `H` is the type of a thumbnail in memory.
#[derive(Debug, Clone)]
pub enum Message<H> {
    /// The scan found a wallpaper.
    WallpaperDiscovered(WallpaperImage<H>),
    /// The grid was scrolled.
    ScrolledTo(Viewport),
    /// Thumbnails inside the load window are to be requested.
    LoadVisibleThumbnails,
    /// The thumbnail of the record at this index was read.
    ThumbnailLoaded(usize, H),
    /// The thumbnail of the record at this index could not be read.
    ThumbnailFailed(usize),
    /// The pointer entered the cell at this index, or left a cell.
    ImageHovered(Option<usize>),
    /// A key was released.
    KeyPressed(Key),
    /// The selected wallpaper is to be applied.
    WallpaperSelected,
    /// The selection moved and should be brought on screen.
    ScrollToVisible,
}

/// A thumbnail to read from the cache for the record at `index`.
#[derive(Debug, Clone, PartialEq, Eq)]
pub struct ThumbnailRequest {
    pub index: usize,
    pub thumbnail_path: String,
}

/// What the caller is to do after an update.
#[derive(Debug, Clone, PartialEq, Eq)]
pub enum Command {
    /// Nothing.
    Idle,
    /// Send `Message::LoadVisibleThumbnails`.
    LoadVisibleThumbnails,
    /// Read these thumbnails and answer each with
    /// `Message::ThumbnailLoaded` or `Message::ThumbnailFailed`.
    LoadThumbnails(Vec<ThumbnailRequest>),
    /// Send `Message::ScrollToVisible`.
    ScrollToVisible,
    /// Scroll the grid to this offset.
    ScrollTo { offset_y: u32 },
    /// Send `Message::WallpaperSelected`.
    WallpaperSelected,
    /// Make this file the current wallpaper.
    ApplyWallpaper { img_path: String },
    /// Leave the program.
    Exit,
}

} // verus!
