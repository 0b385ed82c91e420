//! The picker's configuration: where the wallpapers and the thumbnail cache
//! lie, which link names the current wallpaper, and what to run after a
//! change.
//!
//! A configuration is built from defaults and from what the user's file
//! sets.  Reading and parsing that file is the caller's part; the paths that
//! it names are anchored here.

use crate::util::{get_absolute_path, resolves_to};
use vstd::prelude::*;

verus! {

/// Every setting may be absent.
#[derive(Debug, Clone, PartialEq, Eq)]
pub struct AppConfig {
    /// Directory that is scanned for wallpapers.
    pub wallpaper_path: Option<String>,
    /// Link that points at the chosen wallpaper.
    pub current_wallpaper: Option<String>,
    /// Shell command to run after the link has changed.
    pub post_script: Option<String>,
    /// Directory of the thumbnail cache.
    pub cache_path: Option<String>,
}

/// What applying a wallpaper comes to: `link` is made to point at `target`,
/// then `post_script` is run, if there is one.
#[derive(Debug, Clone, PartialEq, Eq)]
pub struct WallpaperChange {
    pub link: String,
    pub target: String,
    pub post_script: Option<String>,
}

/// A setting after an overlay: the overlay's value where it has one.
pub open spec fn overlaid<T>(base: Option<T>, over: Option<T>) -> Option<T> {
    if over is Some {
        over
    } else {
        base
    }
}

/// A path setting after a merge: untouched where the other configuration
/// does not set it; else the anchored form of the other's path, or nothing
/// where that path could not be anchored.
pub open spec fn merged_path(
    base: Option<String>,
    other: Option<String>,
    merged: Option<String>,
) -> bool {
    match other {
        None => merged == base,
        Some(path) => match merged {
            Some(found) => resolves_to(path@, found@),
            None => true,
        },
    }
}

/// The script to run after a change: the configured one, unless it is
/// empty.
pub open spec fn script_to_run(post_script: Option<String>) -> Option<Seq<char>> {
    match post_script {
        Some(script) => if script@.len() > 0 {
            Some(script@)
        } else {
            None
        },
        None => None,
    }
}

/// Anchors the path of an overlay.  `None` says that the overlay does not
/// set the path, `Some(None)` that it sets one that could not be anchored.
fn anchored(path: &Option<String>) -> (found: Option<Option<String>>)
    ensures
        path is None <==> found is None,
        match (path, found) {
            (Some(given), Some(Some(resolved))) => resolves_to(given@, resolved@),
            _ => true,
        },
{
    match path {
        Some(given) => Some(get_absolute_path(given.as_str()).ok()),
        None => None,
    }
}

impl Default for AppConfig {
    /// The configuration of a user who has set nothing: the usual
    /// directories below the home directory, as far as it can be found, and
    /// an empty script.
    fn default() -> (config: Self)
        ensures
            config.post_script.deep_view() == Some(Seq::<char>::empty()),
            config.wallpaper_path matches Some(path) ==> resolves_to(
                "~/Pictures/wallpapers"@,
                path@,
            ),
            config.current_wallpaper matches Some(path) ==> resolves_to(
                "~/.config/wallity/.current_wallpaper"@,
                path@,
            ),
            config.cache_path matches Some(path) ==> resolves_to(
                "~/.cache/wallity/thumbnails"@,
                path@,
            ),
    {
        AppConfig::with_paths(
            get_absolute_path("~/Pictures/wallpapers").ok(),
            get_absolute_path("~/.config/wallity/.current_wallpaper").ok(),
            get_absolute_path("~/.cache/wallity/thumbnails").ok(),
        )
    }
}

impl AppConfig {
    /// A configuration that sets nothing.
    pub fn empty() -> (config: Self)
        ensures
            config == (AppConfig {
                wallpaper_path: None,
                current_wallpaper: None,
                post_script: None,
                cache_path: None,
            }),
    {
        AppConfig { wallpaper_path: None, current_wallpaper: None, post_script: None, cache_path: None }
    }

    /// The default configuration for these three paths: they are taken as
    /// they are, and the script is empty.
    pub fn with_paths(
        wallpaper_path: Option<String>,
        current_wallpaper: Option<String>,
        cache_path: Option<String>,
    ) -> (config: Self)
        ensures
            config.wallpaper_path == wallpaper_path,
            config.current_wallpaper == current_wallpaper,
            config.cache_path == cache_path,
            config.post_script.deep_view() == Some(Seq::<char>::empty()),
    {
        AppConfig {
            wallpaper_path,
            current_wallpaper,
            post_script: Some(String::new()),
            cache_path,
        }
    }

    /// Lays settings over this configuration.  For each path, `None` keeps
    /// the path of `self` and `Some(p)` replaces it by `p`, which may be
    /// nothing; a script replaces the script of `self`.
    pub fn overlay(
        self,
        wallpaper_path: Option<Option<String>>,
        current_wallpaper: Option<Option<String>>,
        post_script: Option<String>,
        cache_path: Option<Option<String>>,
    ) -> (merged: Self)
        ensures
            merged.wallpaper_path == (match wallpaper_path {
                Some(path) => path,
                None => self.wallpaper_path,
            }),
            merged.current_wallpaper == (match current_wallpaper {
                Some(path) => path,
                None => self.current_wallpaper,
            }),
            merged.post_script == overlaid(self.post_script, post_script),
            merged.cache_path == (match cache_path {
                Some(path) => path,
                None => self.cache_path,
            }),
    {
        let mut merged = self;
        match wallpaper_path {
            Some(path) => {
                merged.wallpaper_path = path;
            },
            None => {},
        }
        match current_wallpaper {
            Some(path) => {
                merged.current_wallpaper = path;
            },
            None => {},
        }
        if post_script.is_some() {
            merged.post_script = post_script;
        }
        match cache_path {
            Some(path) => {
                merged.cache_path = path;
            },
            None => {},
        }
        merged
    }

    /// Lays `other` over this configuration.  Every path that `other` sets
    /// is anchored first; one that cannot be anchored clears the setting.
    pub fn merge(self, other: AppConfig) -> (merged: Self)
        ensures
            merged_path(self.wallpaper_path, other.wallpaper_path, merged.wallpaper_path),
            merged_path(self.current_wallpaper, other.current_wallpaper, merged.current_wallpaper),
            merged.post_script == overlaid(self.post_script, other.post_script),
            merged_path(self.cache_path, other.cache_path, merged.cache_path),
    {
        let wallpaper_path = anchored(&other.wallpaper_path);
        let current_wallpaper = anchored(&other.current_wallpaper);
        let cache_path = anchored(&other.cache_path);
        self.overlay(wallpaper_path, current_wallpaper, other.post_script, cache_path)
    }

    /// These defaults with the user's configuration laid over them.  `None`
    /// stands for a file that is missing or cannot be parsed: the defaults
    /// stay as they are.
    pub fn with_user_config(self, user: Option<AppConfig>) -> (config: Self)
        ensures
            match user {
                None => config == self,
                Some(given) => {
                    &&& merged_path(self.wallpaper_path, given.wallpaper_path, config.wallpaper_path)
                    &&& merged_path(
                        self.current_wallpaper,
                        given.current_wallpaper,
                        config.current_wallpaper,
                    )
                    &&& config.post_script == overlaid(self.post_script, given.post_script)
                    &&& merged_path(self.cache_path, given.cache_path, config.cache_path)
                },
            },
    {
        match user {
            Some(given) => self.merge(given),
            None => self,
        }
    }

    /// What applying the wallpaper at `img_path` comes to, or `None` where
    /// no link is configured.
    pub fn wallpaper_change(&self, img_path: &str) -> (change: Option<WallpaperChange>)
        ensures
            match (self.current_wallpaper, change) {
                (None, None) => true,
                (Some(link), Some(planned)) => {
                    &&& planned.link == link
                    &&& planned.target@ == img_path@
                    &&& planned.post_script.deep_view() == script_to_run(self.post_script)
                },
                _ => false,
            },
    {
        match &self.current_wallpaper {
            None => None,
            Some(link) => {
                let post_script = match &self.post_script {
                    Some(script) => if script.as_str().is_empty() {
                        None
                    } else {
                        Some(script.clone())
                    },
                    None => None,
                };
                Some(
                    WallpaperChange {
                        link: link.clone(),
                        target: String::from_str(img_path),
                        post_script,
                    },
                )
            },
        }
    }
}

} // verus!
