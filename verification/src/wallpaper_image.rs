//! One wallpaper as the view holds it, and the life cycle of its thumbnail.

use vstd::prelude::*;

verus! {

/// Where a record's thumbnail is: not in memory, being read, or in memory
/// as a handle of type `H`.
#[derive(Debug, Clone, PartialEq, Eq)]
pub enum Thumbnail<H> {
    Unloaded,
    Loading,
    Resident(H),
}

/// A wallpaper found by the scan.
#[derive(Debug, Clone, PartialEq, Eq)]
pub struct WallpaperImage<H> {
    /// File name, extension included.
    pub name: String,
    /// The wallpaper itself.
    pub img_path: String,
    /// Its thumbnail in the cache directory.
    pub thumbnail_path: String,
    pub thumbnail: Thumbnail<H>,
}

impl<H> WallpaperImage<H> {
    /// This record once a load pass has seen it: an unloaded thumbnail is
    /// being read, any other is left alone.
    pub open spec fn requested(self) -> Self {
        match self.thumbnail {
            Thumbnail::Unloaded => WallpaperImage { thumbnail: Thumbnail::Loading, ..self },
            _ => self,
        }
    }

    /// This record once its thumbnail has been read.
    pub open spec fn loaded(self, handle: H) -> Self {
        WallpaperImage { thumbnail: Thumbnail::Resident(handle), ..self }
    }

    /// This record once reading its thumbnail has failed: it may be
    /// requested again.  A thumbnail that is in memory stays.
    pub open spec fn load_failed(self) -> Self {
        match self.thumbnail {
            Thumbnail::Loading => WallpaperImage { thumbnail: Thumbnail::Unloaded, ..self },
            _ => self,
        }
    }

    /// This record once it has scrolled far away: a thumbnail in memory is
    /// dropped.  One that is being read is not interrupted.
    pub open spec fn unloaded(self) -> Self {
        match self.thumbnail {
            Thumbnail::Resident(_) => WallpaperImage { thumbnail: Thumbnail::Unloaded, ..self },
            _ => self,
        }
    }

    /// A record as the scan delivers it, with no thumbnail in memory.
    pub fn new(name: String, img_path: String, thumbnail_path: String) -> (image: Self)
        ensures
            image == (WallpaperImage::<H> {
                name,
                img_path,
                thumbnail_path,
                thumbnail: Thumbnail::<H>::Unloaded,
            }),
    {
        WallpaperImage { name, img_path, thumbnail_path, thumbnail: Thumbnail::Unloaded }
    }

    /// Whether the thumbnail can be drawn.
    pub fn is_visible(&self) -> (visible: bool)
        ensures
            visible == (self.thumbnail is Resident),
    {
        match &self.thumbnail {
            Thumbnail::Resident(_) => true,
            _ => false,
        }
    }

    /// Whether the thumbnail has been requested and has not arrived.
    pub fn is_loading(&self) -> (loading: bool)
        ensures
            loading == (self.thumbnail is Loading),
    {
        match &self.thumbnail {
            Thumbnail::Loading => true,
            _ => false,
        }
    }

    /// The thumbnail, while it is in memory.
    pub fn thumbnail_handle(&self) -> (handle: Option<&H>)
        ensures
            match handle {
                Some(h) => self.thumbnail == Thumbnail::Resident(*h),
                None => !(self.thumbnail is Resident),
            },
    {
        match &self.thumbnail {
            Thumbnail::Resident(h) => Some(h),
            _ => None,
        }
    }

    /// Marks an unloaded thumbnail as being read; says whether it did.
    pub fn request(&mut self) -> (started: bool)
        ensures
            *final(self) == old(self).requested(),
            started == (old(self).thumbnail is Unloaded),
    {
        match &self.thumbnail {
            Thumbnail::Unloaded => {
                self.thumbnail = Thumbnail::Loading;
                true
            },
            _ => false,
        }
    }

    /// Takes the thumbnail that was read.
    pub fn finish_load(&mut self, handle: H)
        ensures
            *final(self) == old(self).loaded(handle),
    {
        self.thumbnail = Thumbnail::Resident(handle);
    }

    /// Records that the thumbnail could not be read.
    pub fn fail_load(&mut self)
        ensures
            *final(self) == old(self).load_failed(),
    {
        let loading = self.is_loading();
        if loading {
            self.thumbnail = Thumbnail::Unloaded;
        }
    }

    /// Drops the thumbnail from memory.
    pub fn unload(&mut self)
        ensures
            *final(self) == old(self).unloaded(),
    {
        let resident = self.is_visible();
        if resident {
            self.thumbnail = Thumbnail::Unloaded;
        }
    }
}

} // verus!
