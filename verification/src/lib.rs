//! Core of a wallpaper picker: the thumbnail cache scan, the windowed
//! loading of thumbnails while a grid is scrolled, and keyboard navigation
//! over that grid.
//!
//! Everything here works on plain values.  Reading directories, decoding
//! images and drawing widgets are left to the program that links this crate.

pub mod config;
pub mod constants;
pub mod file_name;
pub mod message;
pub mod thumbnail;
pub mod ui;
pub mod util;
pub mod wallpaper;
pub mod wallpaper_image;
