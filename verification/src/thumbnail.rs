//! The thumbnail cache: a flat directory that holds one `stem.jpeg` for each
//! wallpaper, named by the wallpaper's stem.

use crate::file_name::{
    chars_of, extension, extension_of, file_stem, lemma_split_of_joined, same_text, stem_of,
};
use vstd::prelude::*;

verus! {

/// The extension of every file that the cache holds.
pub open spec fn cache_extension() -> Seq<char> {
    seq!['j', 'p', 'e', 'g']
}

/// Whether a file of this name in the cache directory is a thumbnail.  The
/// extension is compared as it stands: `a.JPEG` is not one.
pub open spec fn is_thumbnail_name(name: Seq<char>) -> bool {
    extension_of(name) == Some(cache_extension())
}

/// The stems of the thumbnails among `names`, each once, in the order of
/// their first appearance.
pub open spec fn thumbnail_stems(names: Seq<Seq<char>>) -> Seq<Seq<char>>
    decreases names.len(),
{
    if names.len() == 0 {
        Seq::empty()
    } else {
        let earlier = thumbnail_stems(names.drop_last());
        let name = names.last();
        if is_thumbnail_name(name) && !earlier.contains(stem_of(name)) {
            earlier.push(stem_of(name))
        } else {
            earlier
        }
    }
}

/// `dir` without the slashes at its end.
pub open spec fn without_trailing_slashes(dir: Seq<char>) -> Seq<char>
    decreases dir.len(),
{
    if dir.len() > 0 && dir.last() == '/' {
        without_trailing_slashes(dir.drop_last())
    } else {
        dir
    }
}

/// The name of the thumbnail for a wallpaper with this stem.
pub open spec fn thumbnail_name_of(stem: Seq<char>) -> Seq<char> {
    stem + seq!['.'] + cache_extension()
}

/// Where the thumbnail for `stem` lies below `cache_dir`.
pub open spec fn thumbnail_path_of(cache_dir: Seq<char>, stem: Seq<char>) -> Seq<char> {
    without_trailing_slashes(cache_dir) + seq!['/'] + thumbnail_name_of(stem)
}

/// `thumbnail_stems` is the set of the thumbnails' stems: it holds a stem
/// exactly if one of the names is a thumbnail with that stem, and it holds
/// none twice.
pub proof fn lemma_thumbnail_stems(names: Seq<Seq<char>>)
    ensures
        thumbnail_stems(names).no_duplicates(),
        forall|stem: Seq<char>| #[trigger]
            thumbnail_stems(names).contains(stem) <==> exists|i: int|
                0 <= i < names.len() && is_thumbnail_name(#[trigger] names[i]) && stem_of(names[i])
                    == stem,
    decreases names.len(),
{
    if names.len() > 0 {
        let head = names.drop_last();
        let name = names.last();
        let earlier = thumbnail_stems(head);
        let all = thumbnail_stems(names);
        lemma_thumbnail_stems(head);
        assert forall|stem: Seq<char>| #[trigger] all.contains(stem) implies exists|i: int|
            0 <= i < names.len() && is_thumbnail_name(#[trigger] names[i]) && stem_of(names[i])
                == stem by {
            if earlier.contains(stem) {
                let i = choose|i: int|
                    0 <= i < head.len() && is_thumbnail_name(#[trigger] head[i]) && stem_of(head[i])
                        == stem;
                assert(names[i] == head[i]);
            } else {
                let k = choose|k: int| 0 <= k < all.len() && all[k] == stem;
                assert(k == earlier.len());
                assert(names[names.len() - 1] == name);
            }
        }
        assert forall|stem: Seq<char>|
            (exists|i: int|
                0 <= i < names.len() && is_thumbnail_name(#[trigger] names[i]) && stem_of(names[i])
                    == stem) implies #[trigger] all.contains(stem) by {
            let i = choose|i: int|
                0 <= i < names.len() && is_thumbnail_name(#[trigger] names[i]) && stem_of(names[i])
                    == stem;
            if i < head.len() {
                assert(head[i] == names[i]);
                assert(earlier.contains(stem));
                let k = choose|k: int| 0 <= k < earlier.len() && earlier[k] == stem;
                assert(all[k] == stem);
            } else if earlier.contains(stem) {
                let k = choose|k: int| 0 <= k < earlier.len() && earlier[k] == stem;
                assert(all[k] == stem);
            } else {
                assert(all[earlier.len() as int] == stem);
            }
        }
    }
}

/// A thumbnail's name gives back the stem that it was made for.
pub proof fn lemma_thumbnail_name_keeps_stem(stem: Seq<char>)
    requires
        stem.len() > 0,
    ensures
        is_thumbnail_name(thumbnail_name_of(stem)),
        stem_of(thumbnail_name_of(stem)) == stem,
{
    lemma_split_of_joined(stem, cache_extension());
}

/// Whether `list` holds `text`.
pub fn contains_text(list: &Vec<String>, text: &String) -> (found: bool)
    ensures
        found == list.deep_view().contains(text@),
{
    let mut i: usize = 0;
    while i < list.len()
        invariant
            i <= list.len(),
            forall|j: int| 0 <= j < i ==> list.deep_view()[j] != text@,
        decreases list.len() - i,
    {
        if list[i] == *text {
            assert(list.deep_view()[i as int] == text@);
            return true;
        }
        i += 1;
    }
    false
}

/// Whether a file of this name in the cache directory is a thumbnail.
pub fn is_thumbnail(name: &str) -> (thumbnail: bool)
    ensures
        thumbnail == is_thumbnail_name(name@),
{
    proof {
        reveal_strlit("jpeg");
        assert("jpeg"@ =~= cache_extension());
    }
    match extension(name) {
        Some(found) => same_text(found.as_str(), "jpeg"),
        None => false,
    }
}

/// The cache index: the stems of the thumbnails among the names of a
/// listing of the cache directory.  A listing with no thumbnail in it, such
/// as that of a directory that does not exist yet, gives an empty index.
pub fn list_thumbnails(names: &Vec<String>) -> (stems: Vec<String>)
    ensures
        stems.deep_view() == thumbnail_stems(names.deep_view()),
{
    let mut stems: Vec<String> = Vec::new();
    let mut i: usize = 0;
    assert(names.deep_view().take(0) =~= Seq::empty());
    while i < names.len()
        invariant
            i <= names.len(),
            stems.deep_view() == thumbnail_stems(names.deep_view().take(i as int)),
        decreases names.len() - i,
    {
        let ghost before = stems.deep_view();
        proof {
            let head = names.deep_view().take(i + 1);
            assert(head.drop_last() =~= names.deep_view().take(i as int));
            assert(head.last() == names[i as int]@);
        }
        let name = names[i].as_str();
        if is_thumbnail(name) {
            let stem = file_stem(name);
            if !contains_text(&stems, &stem) {
                stems.push(stem);
                assert(stems.deep_view() =~= before.push(stem@));
            }
        }
        i += 1;
    }
    assert(names.deep_view().take(names.len() as int) =~= names.deep_view());
    stems
}

/// The cache index of a cache directory that may be missing.  `None` stands
/// for no configured directory, or one that could not be listed: the index
/// is empty then, as before the first scan.
pub fn list_thumbnails_of(listing: Option<&Vec<String>>) -> (stems: Vec<String>)
    ensures
        match listing {
            Some(names) => stems.deep_view() == thumbnail_stems(names.deep_view()),
            None => stems@.len() == 0,
        },
{
    match listing {
        Some(names) => list_thumbnails(names),
        None => Vec::new(),
    }
}

/// `dir` without the slashes at its end.
pub fn trim_trailing_slashes(dir: &str) -> (trimmed: &str)
    ensures
        trimmed@ == without_trailing_slashes(dir@),
{
    let chars = chars_of(dir);
    let mut end: usize = chars.len();
    assert(dir@.take(end as int) =~= dir@);
    while end > 0 && chars[end - 1] == '/'
        invariant
            end <= chars.len(),
            chars@ == dir@,
            without_trailing_slashes(dir@) == without_trailing_slashes(dir@.take(end as int)),
        decreases end,
    {
        proof {
            let head = dir@.take(end as int);
            assert(head.last() == dir@[end - 1]);
            assert(head.drop_last() =~= dir@.take(end - 1));
        }
        end -= 1;
    }
    proof {
        let head = dir@.take(end as int);
        if end > 0 {
            assert(head.last() == dir@[end - 1]);
        }
        assert(dir@.subrange(0, end as int) =~= head);
    }
    dir.substring_char(0, end)
}

/// Where the thumbnail for `stem` lies below `cache_dir`.
pub fn thumbnail_path(cache_dir: &str, stem: &str) -> (path: String)
    ensures
        path@ == thumbnail_path_of(cache_dir@, stem@),
{
    proof {
        reveal_strlit("/");
        reveal_strlit(".jpeg");
        assert(".jpeg"@ =~= seq!['.'] + cache_extension());
        assert("/"@ =~= seq!['/']);
    }
    let mut path = String::from_str(trim_trailing_slashes(cache_dir));
    path.append("/");
    path.append(stem);
    path.append(".jpeg");
    assert(path@ =~= thumbnail_path_of(cache_dir@, stem@));
    path
}

} // verus!
