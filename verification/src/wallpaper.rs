//! One scan of the wallpaper directory against the thumbnail cache.
//!
//! The caller lists both directories and hands over the file names.
//! [`plan_scan`] sorts the wallpapers into those whose thumbnail is in the
//! cache and those for which one has to be made, and finds the cache's
//! orphans: thumbnails whose wallpaper is gone.  The caller then delivers
//! the first group at once, makes the missing thumbnails and delivers each
//! wallpaper whose thumbnail could be made, and deletes the orphans.

use crate::file_name::{file_stem, is_wallpaper, is_wallpaper_name, lemma_name_splits, stem_of};
use crate::thumbnail::{
    contains_text, is_thumbnail_name, lemma_thumbnail_name_keeps_stem, thumbnail_name_of,
    thumbnail_path, thumbnail_path_of,
};
use crate::wallpaper_image::WallpaperImage;
use vstd::prelude::*;

verus! {

/// Picks the wallpapers whose thumbnail is in the cache.
pub open spec fn is_hit(cache: Seq<Seq<char>>) -> spec_fn(Seq<char>) -> bool {
    |name: Seq<char>| is_wallpaper_name(name) && cache.contains(stem_of(name))
}

/// Picks the wallpapers whose thumbnail is not in the cache.
pub open spec fn is_miss(cache: Seq<Seq<char>>) -> spec_fn(Seq<char>) -> bool {
    |name: Seq<char>| is_wallpaper_name(name) && !cache.contains(stem_of(name))
}

/// Whether one of `names` is a wallpaper with this stem.
pub open spec fn is_valid_stem(names: Seq<Seq<char>>, stem: Seq<char>) -> bool {
    exists|i: int|
        0 <= i < names.len() && is_wallpaper_name(#[trigger] names[i]) && stem_of(names[i]) == stem
}

/// Picks the cached stems that no wallpaper has.
pub open spec fn is_orphan(names: Seq<Seq<char>>) -> spec_fn(Seq<char>) -> bool {
    |stem: Seq<char>| !is_valid_stem(names, stem)
}

/// The wallpapers among `names` that have a thumbnail, in listing order.
pub open spec fn hits(names: Seq<Seq<char>>, cache: Seq<Seq<char>>) -> Seq<Seq<char>> {
    names.filter(is_hit(cache))
}

/// The wallpapers among `names` that lack a thumbnail, in listing order.
pub open spec fn misses(names: Seq<Seq<char>>, cache: Seq<Seq<char>>) -> Seq<Seq<char>> {
    names.filter(is_miss(cache))
}

/// The stems in `cache` whose wallpaper is not among `names`.
pub open spec fn orphans(names: Seq<Seq<char>>, cache: Seq<Seq<char>>) -> Seq<Seq<char>> {
    cache.filter(is_orphan(names))
}

/// The items whose flag in `kept` is set, in order.  An item without a flag
/// counts as not kept.
pub open spec fn retained(items: Seq<Seq<char>>, kept: Seq<bool>) -> Seq<Seq<char>>
    decreases items.len(),
{
    if items.len() == 0 {
        Seq::empty()
    } else {
        let earlier = retained(items.drop_last(), kept);
        if items.len() - 1 < kept.len() && kept[items.len() - 1] {
            earlier.push(items.last())
        } else {
            earlier
        }
    }
}

/// What a scan delivers when `generated[k]` says whether the thumbnail of
/// the `k`-th wallpaper without one could be made: first every wallpaper
/// with a thumbnail, then every wallpaper whose thumbnail was made.
pub open spec fn emission(
    with_thumbnails: Seq<Seq<char>>,
    without_thumbnails: Seq<Seq<char>>,
    generated: Seq<bool>,
) -> Seq<Seq<char>> {
    with_thumbnails + retained(without_thumbnails, generated)
}

/// [`emission`] for the listings themselves.
pub open spec fn emitted(
    names: Seq<Seq<char>>,
    cache: Seq<Seq<char>>,
    generated: Seq<bool>,
) -> Seq<Seq<char>> {
    emission(hits(names, cache), misses(names, cache), generated)
}

/// Whether one of the first `count` wallpapers of `missing` has this stem
/// and had its thumbnail made.
pub open spec fn made_among(
    missing: Seq<Seq<char>>,
    generated: Seq<bool>,
    count: int,
    stem: Seq<char>,
) -> bool {
    exists|k: int|
        0 <= k < count && k < generated.len() && generated[k] && stem_of(#[trigger] missing[k])
            == stem
}

/// Whether the cache holds a thumbnail for `stem` once a plan is carried
/// out and every deletion has succeeded: one that was in `cache` and is not
/// in `gone`, or one that was made for a wallpaper of `missing`.
pub open spec fn held_after(
    cache: Seq<Seq<char>>,
    gone: Seq<Seq<char>>,
    missing: Seq<Seq<char>>,
    generated: Seq<bool>,
    stem: Seq<char>,
) -> bool {
    ||| cache.contains(stem) && !gone.contains(stem)
    ||| made_among(missing, generated, missing.len() as int, stem)
}

/// [`held_after`] for the listings themselves.
pub open spec fn cached_after(
    names: Seq<Seq<char>>,
    cache: Seq<Seq<char>>,
    generated: Seq<bool>,
    stem: Seq<char>,
) -> bool {
    held_after(cache, orphans(names, cache), misses(names, cache), generated, stem)
}

/// Whether each of the first `count` thumbnails could be made.
pub open spec fn all_made(count: int, generated: Seq<bool>) -> bool {
    forall|k: int| 0 <= k < count ==> k < generated.len() && #[trigger] generated[k]
}

/// `dir` with `name` below it, as a path.
pub open spec fn joined(dir: Seq<char>, name: Seq<char>) -> Seq<char> {
    if dir.len() == 0 {
        name
    } else if dir.last() == '/' {
        dir + name
    } else {
        dir + seq!['/'] + name
    }
}

/// No two wallpapers among `names` have the same stem.
pub open spec fn distinct_stems(names: Seq<Seq<char>>) -> bool {
    forall|i: int, j: int|
        0 <= i < j < names.len() && is_wallpaper_name(#[trigger] names[i]) && is_wallpaper_name(
            #[trigger] names[j],
        ) ==> stem_of(names[i]) != stem_of(names[j])
}

/// What a scan has to do.
#[derive(Debug, Clone, PartialEq, Eq)]
pub struct ScanPlan {
    /// Names of the wallpapers to deliver at once.
    pub with_thumbnails: Vec<String>,
    /// Names of the wallpapers to deliver once their thumbnail is made.
    pub without_thumbnails: Vec<String>,
    /// Stems of the thumbnails to delete.
    pub orphans: Vec<String>,
}

/// Plans a scan from the names of the regular files in the wallpaper
/// directory and the cache index.  With an empty listing nothing is
/// delivered and every cached thumbnail is an orphan; for a directory that
/// cannot be read, see [`plan_scan_of`].
pub fn plan_scan(names: &Vec<String>, cache: &Vec<String>) -> (plan: ScanPlan)
    ensures
        plan.with_thumbnails.deep_view() == hits(names.deep_view(), cache.deep_view()),
        plan.without_thumbnails.deep_view() == misses(names.deep_view(), cache.deep_view()),
        plan.orphans.deep_view() == orphans(names.deep_view(), cache.deep_view()),
{
    let ghost all = names.deep_view();
    let ghost index = cache.deep_view();
    let mut with_thumbnails: Vec<String> = Vec::new();
    let mut without_thumbnails: Vec<String> = Vec::new();
    let mut valid: Vec<String> = Vec::new();
    let mut i: usize = 0;
    proof {
        assert(all.take(0) =~= Seq::empty());
        reveal(Seq::filter);
    }
    while i < names.len()
        invariant
            i <= names.len(),
            all == names.deep_view(),
            index == cache.deep_view(),
            with_thumbnails.deep_view() == hits(all.take(i as int), index),
            without_thumbnails.deep_view() == misses(all.take(i as int), index),
            forall|stem: Seq<char>| #[trigger]
                valid.deep_view().contains(stem) <==> is_valid_stem(all.take(i as int), stem),
        decreases names.len() - i,
    {
        let ghost seen = all.take(i as int);
        let ghost next = all.take(i + 1);
        let ghost name_view = names[i as int]@;
        let ghost with_before = with_thumbnails.deep_view();
        let ghost without_before = without_thumbnails.deep_view();
        let ghost valid_before = valid.deep_view();
        proof {
            assert(next =~= seen.push(name_view));
            seen.lemma_filter_push(name_view, is_hit(index));
            seen.lemma_filter_push(name_view, is_miss(index));
        }
        let name = names[i].as_str();
        if is_wallpaper(name) {
            let stem = file_stem(name);
            if contains_text(cache, &stem) {
                with_thumbnails.push(names[i].clone());
                assert(with_thumbnails.deep_view() =~= with_before.push(name_view));
            } else {
                without_thumbnails.push(names[i].clone());
                assert(without_thumbnails.deep_view() =~= without_before.push(name_view));
            }
            valid.push(stem);
            assert(valid.deep_view() =~= valid_before.push(stem@));
        }
        proof {
            let added = is_wallpaper_name(name_view);
            let now = valid.deep_view();
            assert(now == if added {
                valid_before.push(stem_of(name_view))
            } else {
                valid_before
            });
            assert forall|stem: Seq<char>| #[trigger] now.contains(stem) implies is_valid_stem(
                next,
                stem,
            ) by {
                let v = choose|v: int| 0 <= v < now.len() && now[v] == stem;
                if v < valid_before.len() {
                    assert(valid_before[v] == stem);
                    assert(valid_before.contains(stem));
                    let k = choose|k: int|
                        0 <= k < seen.len() && is_wallpaper_name(#[trigger] seen[k]) && stem_of(
                            seen[k],
                        ) == stem;
                    assert(next[k] == seen[k]);
                } else {
                    assert(next[i as int] == name_view);
                }
            }
            assert forall|stem: Seq<char>| is_valid_stem(next, stem) implies #[trigger] now.contains(
                stem,
            ) by {
                let k = choose|k: int|
                    0 <= k < next.len() && is_wallpaper_name(#[trigger] next[k]) && stem_of(next[k])
                        == stem;
                if k < i {
                    assert(seen[k] == next[k]);
                    assert(is_valid_stem(seen, stem));
                    assert(valid_before.contains(stem));
                    let v = choose|v: int| 0 <= v < valid_before.len() && valid_before[v] == stem;
                    assert(now[v] == stem);
                } else {
                    assert(next[k] == name_view);
                    assert(now[valid_before.len() as int] == stem);
                }
            }
        }
        i += 1;
    }
    assert(all.take(names.len() as int) =~= all);
    let mut orphaned: Vec<String> = Vec::new();
    let mut j: usize = 0;
    assert(index.take(0) =~= Seq::empty());
    while j < cache.len()
        invariant
            j <= cache.len(),
            all == names.deep_view(),
            index == cache.deep_view(),
            forall|stem: Seq<char>| #[trigger]
                valid.deep_view().contains(stem) <==> is_valid_stem(all, stem),
            orphaned.deep_view() == orphans(all, index.take(j as int)),
        decreases cache.len() - j,
    {
        let ghost seen = index.take(j as int);
        let ghost stem_view = cache[j as int]@;
        let ghost before = orphaned.deep_view();
        proof {
            assert(index.take(j + 1) =~= seen.push(stem_view));
            seen.lemma_filter_push(stem_view, is_orphan(all));
        }
        if !contains_text(&valid, &cache[j]) {
            orphaned.push(cache[j].clone());
            assert(orphaned.deep_view() =~= before.push(stem_view));
        }
        j += 1;
    }
    assert(index.take(cache.len() as int) =~= index);
    ScanPlan { with_thumbnails, without_thumbnails, orphans: orphaned }
}

/// Plans a scan of a wallpaper directory that may be unreadable.  `None`
/// stands for a directory that could not be listed: there is nothing to
/// show, and the cache is left as it is, for the wallpapers may be back at
/// the next scan.  `Some(names)` is planned as [`plan_scan`] does.
pub fn plan_scan_of(listing: Option<&Vec<String>>, cache: &Vec<String>) -> (plan: ScanPlan)
    ensures
        match listing {
            Some(names) => {
                &&& plan.with_thumbnails.deep_view() == hits(names.deep_view(), cache.deep_view())
                &&& plan.without_thumbnails.deep_view() == misses(
                    names.deep_view(),
                    cache.deep_view(),
                )
                &&& plan.orphans.deep_view() == orphans(names.deep_view(), cache.deep_view())
            },
            None => {
                &&& plan.with_thumbnails@.len() == 0
                &&& plan.without_thumbnails@.len() == 0
                &&& plan.orphans@.len() == 0
            },
        },
{
    match listing {
        Some(names) => plan_scan(names, cache),
        None => ScanPlan {
            with_thumbnails: Vec::new(),
            without_thumbnails: Vec::new(),
            orphans: Vec::new(),
        },
    }
}

/// Joins a directory and a file name with one slash between them.
pub fn join_path(dir: &str, name: &str) -> (path: String)
    ensures
        path@ == joined(dir@, name@),
{
    proof {
        reveal_strlit("/");
        assert("/"@ =~= seq!['/']);
    }
    let length = dir.unicode_len();
    let mut path = String::from_str(dir);
    if length > 0 && dir.get_char(length - 1) != '/' {
        path.append("/");
    }
    path.append(name);
    assert(path@ =~= joined(dir@, name@));
    path
}

/// The record that the view gets for the wallpaper `name`: the wallpaper
/// lies in `wallpaper_dir`, its thumbnail in `cache_dir` under the
/// wallpaper's stem, and no thumbnail is in memory yet.
pub fn wallpaper_record<H>(name: &str, wallpaper_dir: &str, cache_dir: &str) -> (image:
    WallpaperImage<H>)
    ensures
        image.name@ == name@,
        image.img_path@ == joined(wallpaper_dir@, name@),
        image.thumbnail_path@ == thumbnail_path_of(cache_dir@, stem_of(name@)),
        image.thumbnail is Unloaded,
{
    let stem = file_stem(name);
    WallpaperImage::new(
        String::from_str(name),
        join_path(wallpaper_dir, name),
        thumbnail_path(cache_dir, stem.as_str()),
    )
}

impl ScanPlan {
    /// The names that the scan delivers, in order, when `generated[k]` says
    /// whether the thumbnail for `without_thumbnails[k]` could be made.  A
    /// wallpaper whose thumbnail could not be made is left out.
    pub fn emitted(&self, generated: &Vec<bool>) -> (names: Vec<String>)
        ensures
            names.deep_view() == emission(
                self.with_thumbnails.deep_view(),
                self.without_thumbnails.deep_view(),
                generated@,
            ),
    {
        let ghost first = self.with_thumbnails.deep_view();
        let ghost second = self.without_thumbnails.deep_view();
        let mut names: Vec<String> = Vec::new();
        let mut i: usize = 0;
        while i < self.with_thumbnails.len()
            invariant
                i <= self.with_thumbnails.len(),
                first == self.with_thumbnails.deep_view(),
                names.deep_view() == first.take(i as int),
            decreases self.with_thumbnails.len() - i,
        {
            let ghost before = names.deep_view();
            names.push(self.with_thumbnails[i].clone());
            assert(names.deep_view() =~= before.push(first[i as int]));
            assert(first.take(i + 1) =~= first.take(i as int).push(first[i as int]));
            i += 1;
        }
        assert(first.take(first.len() as int) =~= first);
        let mut k: usize = 0;
        assert(second.take(0) =~= Seq::empty());
        while k < self.without_thumbnails.len()
            invariant
                k <= self.without_thumbnails.len(),
                second == self.without_thumbnails.deep_view(),
                names.deep_view() == first + retained(second.take(k as int), generated@),
            decreases self.without_thumbnails.len() - k,
        {
            let ghost before = names.deep_view();
            proof {
                let next = second.take(k + 1);
                assert(next.drop_last() =~= second.take(k as int));
                assert(next.last() == second[k as int]);
            }
            if k < generated.len() && generated[k] {
                names.push(self.without_thumbnails[k].clone());
                assert(names.deep_view() =~= before.push(second[k as int]));
                assert(before.push(second[k as int]) =~= first + retained(
                    second.take(k as int),
                    generated@,
                ).push(second[k as int]));
            }
            k += 1;
        }
        assert(second.take(second.len() as int) =~= second);
        names
    }

    /// The stems of the thumbnails that the cache holds once this plan is
    /// carried out on a cache with the index `cache`: those that were there
    /// and are no orphans, and those that were made.  Each stem stands once.
    /// A deletion that fails leaves more behind than this.
    pub fn cache_after(&self, cache: &Vec<String>, generated: &Vec<bool>) -> (stems: Vec<String>)
        ensures
            stems.deep_view().no_duplicates(),
            forall|stem: Seq<char>| #[trigger]
                stems.deep_view().contains(stem) <==> held_after(
                    cache.deep_view(),
                    self.orphans.deep_view(),
                    self.without_thumbnails.deep_view(),
                    generated@,
                    stem,
                ),
    {
        let ghost index = cache.deep_view();
        let ghost gone = self.orphans.deep_view();
        let ghost missing = self.without_thumbnails.deep_view();
        let mut stems: Vec<String> = Vec::new();
        let mut j: usize = 0;
        while j < cache.len()
            invariant
                j <= cache.len(),
                index == cache.deep_view(),
                gone == self.orphans.deep_view(),
                stems.deep_view().no_duplicates(),
                forall|stem: Seq<char>| #[trigger]
                    stems.deep_view().contains(stem) <==> index.take(j as int).contains(stem)
                        && !gone.contains(stem),
            decreases cache.len() - j,
        {
            let ghost before = stems.deep_view();
            let ghost seen = index.take(j as int);
            let ghost next = index.take(j + 1);
            let ghost entry = cache[j as int]@;
            assert(next =~= seen.push(entry));
            if !contains_text(&self.orphans, &cache[j]) && !contains_text(&stems, &cache[j]) {
                stems.push(cache[j].clone());
                assert(stems.deep_view() =~= before.push(entry));
            }
            proof {
                let now = stems.deep_view();
                assert forall|stem: Seq<char>| #[trigger] now.contains(stem) implies next.contains(
                    stem,
                ) && !gone.contains(stem) by {
                    let v = choose|v: int| 0 <= v < now.len() && now[v] == stem;
                    if v < before.len() {
                        assert(before[v] == stem);
                        assert(before.contains(stem));
                        let c = choose|c: int| 0 <= c < seen.len() && seen[c] == stem;
                        assert(next[c] == stem);
                    } else {
                        assert(next[j as int] == stem);
                    }
                }
                assert forall|stem: Seq<char>|
                    next.contains(stem) && !gone.contains(stem) implies #[trigger] now.contains(
                    stem,
                ) by {
                    let c = choose|c: int| 0 <= c < next.len() && next[c] == stem;
                    if c < j {
                        assert(seen[c] == stem);
                        assert(seen.contains(stem));
                    }
                    if before.contains(stem) {
                        let v = choose|v: int| 0 <= v < before.len() && before[v] == stem;
                        assert(now[v] == stem);
                    } else {
                        assert(now[before.len() as int] == stem);
                    }
                }
            }
            j += 1;
        }
        assert(index.take(cache.len() as int) =~= index);
        let mut k: usize = 0;
        while k < self.without_thumbnails.len()
            invariant
                k <= self.without_thumbnails.len(),
                index == cache.deep_view(),
                gone == self.orphans.deep_view(),
                missing == self.without_thumbnails.deep_view(),
                stems.deep_view().no_duplicates(),
                forall|stem: Seq<char>| #[trigger]
                    stems.deep_view().contains(stem) <==> (index.contains(stem) && !gone.contains(
                        stem,
                    )) || made_among(missing, generated@, k as int, stem),
            decreases self.without_thumbnails.len() - k,
        {
            let ghost before = stems.deep_view();
            let ghost made = stem_of(missing[k as int]);
            let ghost added = k < generated.len() && generated[k as int];
            if k < generated.len() && generated[k] {
                let stem = file_stem(self.without_thumbnails[k].as_str());
                if !contains_text(&stems, &stem) {
                    stems.push(stem);
                    assert(stems.deep_view() =~= before.push(made));
                }
            }
            proof {
                let now = stems.deep_view();
                assert forall|stem: Seq<char>| #[trigger] now.contains(stem) implies (
                index.contains(stem) && !gone.contains(stem)) || made_among(
                    missing,
                    generated@,
                    k + 1,
                    stem,
                ) by {
                    let v = choose|v: int| 0 <= v < now.len() && now[v] == stem;
                    if v < before.len() {
                        assert(before[v] == stem);
                        assert(before.contains(stem));
                        if made_among(missing, generated@, k as int, stem) {
                            let m = choose|m: int|
                                0 <= m < k && m < generated@.len() && generated@[m] && stem_of(
                                    #[trigger] missing[m],
                                ) == stem;
                            assert(stem_of(missing[m]) == stem);
                        }
                    } else {
                        assert(stem_of(missing[k as int]) == stem);
                    }
                }
                assert forall|stem: Seq<char>|
                    (index.contains(stem) && !gone.contains(stem)) || made_among(
                        missing,
                        generated@,
                        k + 1,
                        stem,
                    ) implies #[trigger] now.contains(stem) by {
                    let old_case = (index.contains(stem) && !gone.contains(stem)) || made_among(
                        missing,
                        generated@,
                        k as int,
                        stem,
                    );
                    if !old_case {
                        let m = choose|m: int|
                            0 <= m < k + 1 && m < generated@.len() && generated@[m] && stem_of(
                                #[trigger] missing[m],
                            ) == stem;
                        if m < k {
                            assert(stem_of(missing[m]) == stem);
                            assert(made_among(missing, generated@, k as int, stem));
                        }
                        assert(m == k);
                        assert(added && made == stem);
                    }
                    if before.contains(stem) {
                        let v = choose|v: int| 0 <= v < before.len() && before[v] == stem;
                        assert(now[v] == stem);
                    } else {
                        assert(now[before.len() as int] == stem);
                    }
                }
            }
            k += 1;
        }
        stems
    }
}

/// Tells names apart by their stems.
spec fn by_stem() -> spec_fn(Seq<char>) -> Seq<char> {
    |name: Seq<char>| stem_of(name)
}

/// Tells names apart by themselves.
spec fn by_name() -> spec_fn(Seq<char>) -> Seq<char> {
    |name: Seq<char>| name
}

/// What `filter` keeps satisfies the predicate and comes from the sequence.
proof fn lemma_filter_members(s: Seq<Seq<char>>, p: spec_fn(Seq<char>) -> bool)
    ensures
        s.filter(p).len() <= s.len(),
        forall|k: int|
            0 <= k < s.filter(p).len() ==> p(#[trigger] s.filter(p)[k]) && s.contains(
                s.filter(p)[k],
            ),
{
    broadcast use vstd::seq_lib::group_filter_ensures;

    assert forall|k: int| 0 <= k < s.filter(p).len() implies p(#[trigger] s.filter(p)[k])
        && s.contains(s.filter(p)[k]) by {
        let item = s.filter(p)[k];
        assert(s.filter(p).contains(item));
        s.lemma_filter_contains_rev(p, item);
    }
}

/// Filtering keeps keys apart that were apart among the items it picks.
proof fn lemma_filter_keeps_apart(
    s: Seq<Seq<char>>,
    p: spec_fn(Seq<char>) -> bool,
    key: spec_fn(Seq<char>) -> Seq<char>,
)
    requires
        forall|i: int, j: int|
            #![trigger s[i], s[j]]
            0 <= i < j < s.len() && p(s[i]) && p(s[j]) ==> key(s[i]) != key(s[j]),
    ensures
        forall|a: int, b: int|
            #![trigger s.filter(p)[a], s.filter(p)[b]]
            0 <= a < b < s.filter(p).len() ==> key(s.filter(p)[a]) != key(s.filter(p)[b]),
    decreases s.len(),
{
    if s.len() == 0 {
        lemma_filter_members(s, p);
    } else {
        let head = s.drop_last();
        let last = s.last();
        assert(s =~= head.push(last));
        head.lemma_filter_push(last, p);
        assert forall|i: int, j: int|
            #![trigger head[i], head[j]]
            0 <= i < j < head.len() && p(head[i]) && p(head[j]) implies key(head[i])
            != key(head[j]) by {
            assert(head[i] == s[i] && head[j] == s[j]);
        }
        lemma_filter_keeps_apart(head, p, key);
        lemma_filter_members(head, p);
        let kept = head.filter(p);
        assert forall|a: int, b: int|
            #![trigger s.filter(p)[a], s.filter(p)[b]]
            0 <= a < b < s.filter(p).len() implies key(s.filter(p)[a]) != key(
            s.filter(p)[b],
        ) by {
            if b < kept.len() {
                assert(s.filter(p)[a] == kept[a] && s.filter(p)[b] == kept[b]);
            } else {
                assert(s.filter(p)[a] == kept[a]);
                assert(head.contains(kept[a]));
                let m = choose|m: int| 0 <= m < head.len() && head[m] == kept[a];
                assert(s[m] == kept[a]);
                assert(s[s.len() - 1] == last);
            }
        }
    }
}

/// What `retained` keeps are items whose flag is set, and it keeps each of
/// them.
proof fn lemma_retained_members(items: Seq<Seq<char>>, kept: Seq<bool>)
    ensures
        retained(items, kept).len() <= items.len(),
        forall|k: int|
            0 <= k < retained(items, kept).len() ==> exists|m: int|
                0 <= m < items.len() && m < kept.len() && kept[m] && #[trigger] items[m]
                    == #[trigger] retained(items, kept)[k],
        forall|m: int|
            0 <= m < items.len() && m < kept.len() && kept[m] ==> retained(items, kept).contains(
                #[trigger] items[m],
            ),
    decreases items.len(),
{
    if items.len() > 0 {
        let head = items.drop_last();
        let last_index = items.len() - 1;
        let all = retained(items, kept);
        let earlier = retained(head, kept);
        lemma_retained_members(head, kept);
        assert forall|k: int| 0 <= k < all.len() implies exists|m: int|
            0 <= m < items.len() && m < kept.len() && kept[m] && #[trigger] items[m]
                == #[trigger] all[k] by {
            if k < earlier.len() {
                let m = choose|m: int|
                    0 <= m < head.len() && m < kept.len() && kept[m] && #[trigger] head[m]
                        == earlier[k];
                assert(items[m] == all[k]);
            } else {
                assert(items[last_index] == all[k]);
            }
        }
        assert forall|m: int|
            0 <= m < items.len() && m < kept.len() && kept[m] implies all.contains(
            #[trigger] items[m],
        ) by {
            if m < last_index {
                assert(head[m] == items[m]);
                assert(earlier.contains(head[m]));
                let k = choose|k: int| 0 <= k < earlier.len() && earlier[k] == head[m];
                assert(all[k] == items[m]);
            } else {
                assert(all[earlier.len() as int] == items[m]);
            }
        }
    }
}

/// Dropping items keeps keys apart that were apart.
proof fn lemma_retained_keeps_apart(
    items: Seq<Seq<char>>,
    kept: Seq<bool>,
    key: spec_fn(Seq<char>) -> Seq<char>,
)
    requires
        forall|i: int, j: int|
            #![trigger items[i], items[j]]
            0 <= i < j < items.len() ==> key(items[i]) != key(items[j]),
    ensures
        forall|a: int, b: int|
            #![trigger retained(items, kept)[a], retained(items, kept)[b]]
            0 <= a < b < retained(items, kept).len() ==> key(retained(items, kept)[a])
                != key(retained(items, kept)[b]),
    decreases items.len(),
{
    if items.len() > 0 {
        let head = items.drop_last();
        let all = retained(items, kept);
        let earlier = retained(head, kept);
        assert forall|i: int, j: int|
            #![trigger head[i], head[j]]
            0 <= i < j < head.len() implies key(head[i]) != key(head[j]) by {
            assert(head[i] == items[i] && head[j] == items[j]);
        }
        lemma_retained_keeps_apart(head, kept, key);
        lemma_retained_members(head, kept);
        assert forall|a: int, b: int|
            #![trigger all[a], all[b]]
            0 <= a < b < all.len() implies key(all[a]) != key(all[b]) by {
            if b < earlier.len() {
                assert(all[a] == earlier[a] && all[b] == earlier[b]);
            } else {
                assert(all[a] == earlier[a]);
                let m = choose|m: int|
                    0 <= m < head.len() && m < kept.len() && kept[m] && #[trigger] head[m]
                        == earlier[a];
                assert(items[m] == earlier[a]);
                assert(items[items.len() - 1] == all[b]);
            }
        }
    }
}

/// Every wallpaper goes to one group of the plan only.
proof fn lemma_groups_fit(names: Seq<Seq<char>>, cache: Seq<Seq<char>>)
    ensures
        hits(names, cache).len() + misses(names, cache).len() <= names.len(),
    decreases names.len(),
{
    if names.len() == 0 {
        lemma_filter_members(names, is_hit(cache));
        lemma_filter_members(names, is_miss(cache));
    } else {
        let head = names.drop_last();
        let last = names.last();
        assert(names =~= head.push(last));
        head.lemma_filter_push(last, is_hit(cache));
        head.lemma_filter_push(last, is_miss(cache));
        lemma_groups_fit(head, cache);
    }
}

/// A scan delivers only wallpapers that were listed, none that has no
/// supported extension, and no more records than files were listed.
pub proof fn lemma_emitted_are_listed(
    names: Seq<Seq<char>>,
    cache: Seq<Seq<char>>,
    generated: Seq<bool>,
)
    ensures
        emitted(names, cache, generated).len() <= names.len(),
        forall|k: int|
            0 <= k < emitted(names, cache, generated).len() ==> names.contains(
                #[trigger] emitted(names, cache, generated)[k],
            ) && is_wallpaper_name(emitted(names, cache, generated)[k]),
{
    let first = hits(names, cache);
    let second = misses(names, cache);
    let all = emitted(names, cache, generated);
    lemma_groups_fit(names, cache);
    lemma_filter_members(names, is_hit(cache));
    lemma_filter_members(names, is_miss(cache));
    lemma_retained_members(second, generated);
    assert forall|k: int| 0 <= k < all.len() implies names.contains(#[trigger] all[k])
        && is_wallpaper_name(all[k]) by {
        if k < first.len() {
            assert(all[k] == first[k]);
        } else {
            let late = retained(second, generated);
            assert(all[k] == late[k - first.len()]);
            let m = choose|m: int|
                0 <= m < second.len() && m < generated.len() && generated[m] && #[trigger] second[m]
                    == late[k - first.len()];
            assert(names.contains(second[m]));
        }
    }
}

/// If no two listed wallpapers share a stem, no two delivered records do.
pub proof fn lemma_emitted_stems_distinct(
    names: Seq<Seq<char>>,
    cache: Seq<Seq<char>>,
    generated: Seq<bool>,
)
    requires
        distinct_stems(names),
    ensures
        forall|a: int, b: int|
            #![trigger emitted(names, cache, generated)[a], emitted(names, cache, generated)[b]]
            0 <= a < b < emitted(names, cache, generated).len() ==> stem_of(
                emitted(names, cache, generated)[a],
            ) != stem_of(emitted(names, cache, generated)[b]),
{
    let first = hits(names, cache);
    let second = misses(names, cache);
    let late = retained(second, generated);
    let all = emitted(names, cache, generated);
    lemma_filter_keeps_apart(names, is_hit(cache), by_stem());
    lemma_filter_keeps_apart(names, is_miss(cache), by_stem());
    lemma_filter_members(names, is_hit(cache));
    lemma_filter_members(names, is_miss(cache));
    lemma_retained_keeps_apart(second, generated, by_stem());
    lemma_retained_members(second, generated);
    assert forall|a: int, b: int|
        #![trigger all[a], all[b]]
        0 <= a < b < all.len() implies stem_of(all[a]) != stem_of(all[b]) by {
        if b < first.len() {
            assert(all[a] == first[a] && all[b] == first[b]);
        } else if a >= first.len() {
            assert(all[a] == late[a - first.len()] && all[b] == late[b - first.len()]);
        } else {
            assert(all[a] == first[a] && all[b] == late[b - first.len()]);
            let m = choose|m: int|
                0 <= m < second.len() && m < generated.len() && generated[m] && #[trigger] second[m]
                    == late[b - first.len()];
            assert(is_miss(cache)(second[m]));
            assert(is_hit(cache)(first[a]));
        }
    }
}

/// Every wallpaper that had a thumbnail is delivered before any wallpaper
/// whose thumbnail had to be made.
pub proof fn lemma_hits_come_first(
    names: Seq<Seq<char>>,
    cache: Seq<Seq<char>>,
    generated: Seq<bool>,
    i: int,
    j: int,
)
    requires
        0 <= i < emitted(names, cache, generated).len(),
        0 <= j < emitted(names, cache, generated).len(),
        cache.contains(stem_of(emitted(names, cache, generated)[i])),
        !cache.contains(stem_of(emitted(names, cache, generated)[j])),
    ensures
        i < hits(names, cache).len() <= j,
{
    let first = hits(names, cache);
    let second = misses(names, cache);
    let late = retained(second, generated);
    let all = emitted(names, cache, generated);
    lemma_filter_members(names, is_hit(cache));
    lemma_filter_members(names, is_miss(cache));
    lemma_retained_members(second, generated);
    if i >= first.len() {
        assert(all[i] == late[i - first.len()]);
        let m = choose|m: int|
            0 <= m < second.len() && m < generated.len() && generated[m] && #[trigger] second[m]
                == late[i - first.len()];
        assert(is_miss(cache)(second[m]));
    }
    if j < first.len() {
        assert(all[j] == first[j]);
        assert(is_hit(cache)(first[j]));
    }
}

/// Once a scan is over and its orphans are deleted, the cache holds no
/// thumbnail without a wallpaper, and it still holds every thumbnail whose
/// wallpaper is there.  If every missing thumbnail could be made, the
/// cache's stems are exactly the stems of the wallpapers.
pub proof fn lemma_cache_matches_wallpapers(
    names: Seq<Seq<char>>,
    cache: Seq<Seq<char>>,
    generated: Seq<bool>,
)
    ensures
        forall|stem: Seq<char>| #[trigger]
            cached_after(names, cache, generated, stem) ==> is_valid_stem(names, stem),
        forall|stem: Seq<char>|
            cache.contains(stem) && is_valid_stem(names, stem) ==> #[trigger] cached_after(
                names,
                cache,
                generated,
                stem,
            ),
        all_made(misses(names, cache).len() as int, generated) ==> forall|stem: Seq<char>| #[trigger]
            cached_after(names, cache, generated, stem) <==> is_valid_stem(names, stem),
{
    let second = misses(names, cache);
    let gone = orphans(names, cache);
    lemma_filter_members(names, is_miss(cache));
    lemma_filter_members(cache, is_orphan(names));
    broadcast use vstd::seq_lib::group_filter_ensures;

    assert forall|stem: Seq<char>| #[trigger]
        cached_after(names, cache, generated, stem) implies is_valid_stem(names, stem) by {
        if cache.contains(stem) && !gone.contains(stem) {
            let c = choose|c: int| 0 <= c < cache.len() && cache[c] == stem;
            if !is_valid_stem(names, stem) {
                assert(is_orphan(names)(cache[c]));
                assert(gone.contains(cache[c]));
            }
        } else {
            let k = choose|k: int|
                0 <= k < second.len() && k < generated.len() && generated[k] && stem_of(
                    #[trigger] second[k],
                ) == stem;
            assert(is_miss(cache)(second[k]));
            assert(names.contains(second[k]));
            let m = choose|m: int| 0 <= m < names.len() && names[m] == second[k];
            assert(is_wallpaper_name(names[m]));
        }
    }
    assert forall|stem: Seq<char>|
        cache.contains(stem) && is_valid_stem(names, stem) implies #[trigger] cached_after(
        names,
        cache,
        generated,
        stem,
    ) by {
        if gone.contains(stem) {
            let g = choose|g: int| 0 <= g < gone.len() && gone[g] == stem;
            assert(is_orphan(names)(gone[g]));
        }
    }
    if all_made(second.len() as int, generated) {
        assert forall|stem: Seq<char>| is_valid_stem(names, stem) implies #[trigger] cached_after(
            names,
            cache,
            generated,
            stem,
        ) by {
            if !cache.contains(stem) {
                let m = choose|m: int|
                    0 <= m < names.len() && is_wallpaper_name(#[trigger] names[m]) && stem_of(
                        names[m],
                    ) == stem;
                assert(is_miss(cache)(names[m]));
                assert(second.contains(names[m]));
                let k = choose|k: int| 0 <= k < second.len() && second[k] == names[m];
                assert(generated[k]);
                assert(stem_of(second[k]) == stem);
            }
        }
    }
}

/// A wallpaper whose thumbnail could not be made is not delivered, and the
/// cache holds no thumbnail for it, provided no other listed wallpaper has
/// its stem.
pub proof fn lemma_failed_is_absent(
    names: Seq<Seq<char>>,
    cache: Seq<Seq<char>>,
    generated: Seq<bool>,
    k: int,
)
    requires
        distinct_stems(names),
        0 <= k < misses(names, cache).len(),
        !(k < generated.len() && generated[k]),
    ensures
        !emitted(names, cache, generated).contains(misses(names, cache)[k]),
        !cached_after(names, cache, generated, stem_of(misses(names, cache)[k])),
{
    let first = hits(names, cache);
    let second = misses(names, cache);
    let late = retained(second, generated);
    let all = emitted(names, cache, generated);
    let failed = second[k];
    lemma_filter_keeps_apart(names, is_miss(cache), by_stem());
    lemma_filter_members(names, is_hit(cache));
    lemma_filter_members(names, is_miss(cache));
    lemma_retained_members(second, generated);
    assert(is_miss(cache)(failed));
    if all.contains(failed) {
        let e = choose|e: int| 0 <= e < all.len() && all[e] == failed;
        if e < first.len() {
            assert(all[e] == first[e]);
            assert(is_hit(cache)(first[e]));
        } else {
            assert(all[e] == late[e - first.len()]);
            let m = choose|m: int|
                0 <= m < second.len() && m < generated.len() && generated[m] && #[trigger] second[m]
                    == late[e - first.len()];
            assert(m != k);
            if m < k {
                assert(stem_of(second[m]) != stem_of(second[k]));
            } else {
                assert(stem_of(second[k]) != stem_of(second[m]));
            }
        }
    }
    if cached_after(names, cache, generated, stem_of(failed)) {
        let m = choose|m: int|
            0 <= m < second.len() && m < generated.len() && generated[m] && stem_of(
                #[trigger] second[m],
            ) == stem_of(failed);
        if m < k {
            assert(stem_of(second[m]) != stem_of(second[k]));
        } else if k < m {
            assert(stem_of(second[k]) != stem_of(second[m]));
        }
    }
}

/// Every wallpaper that had a thumbnail is delivered, and so is every
/// wallpaper whose thumbnail could be made, whatever became of the others.
pub proof fn lemma_made_is_delivered(
    names: Seq<Seq<char>>,
    cache: Seq<Seq<char>>,
    generated: Seq<bool>,
)
    ensures
        forall|h: int|
            0 <= h < hits(names, cache).len() ==> emitted(names, cache, generated).contains(
                #[trigger] hits(names, cache)[h],
            ),
        forall|k: int|
            0 <= k < misses(names, cache).len() && k < generated.len() && generated[k] ==> emitted(
                names,
                cache,
                generated,
            ).contains(#[trigger] misses(names, cache)[k]),
{
    let first = hits(names, cache);
    let second = misses(names, cache);
    let late = retained(second, generated);
    let all = emitted(names, cache, generated);
    lemma_retained_members(second, generated);
    assert forall|h: int| 0 <= h < first.len() implies all.contains(#[trigger] first[h]) by {
        assert(all[h] == first[h]);
    }
    assert forall|k: int|
        0 <= k < second.len() && k < generated.len() && generated[k] implies all.contains(
        #[trigger] second[k],
    ) by {
        assert(late.contains(second[k]));
        let e = choose|e: int| 0 <= e < late.len() && late[e] == second[k];
        assert(all[first.len() + e] == second[k]);
    }
}

/// A wallpaper whose thumbnail could not be made is not delivered, provided
/// no name is listed twice.
pub proof fn lemma_failed_is_left_out(
    names: Seq<Seq<char>>,
    cache: Seq<Seq<char>>,
    generated: Seq<bool>,
    k: int,
)
    requires
        names.no_duplicates(),
        0 <= k < misses(names, cache).len(),
        !(k < generated.len() && generated[k]),
    ensures
        !emitted(names, cache, generated).contains(misses(names, cache)[k]),
{
    let first = hits(names, cache);
    let second = misses(names, cache);
    let late = retained(second, generated);
    let all = emitted(names, cache, generated);
    let failed = second[k];
    lemma_filter_keeps_apart(names, is_miss(cache), by_name());
    lemma_filter_members(names, is_hit(cache));
    lemma_filter_members(names, is_miss(cache));
    lemma_retained_members(second, generated);
    assert(is_miss(cache)(failed));
    if all.contains(failed) {
        let e = choose|e: int| 0 <= e < all.len() && all[e] == failed;
        if e < first.len() {
            assert(all[e] == first[e]);
            assert(is_hit(cache)(first[e]));
        } else {
            assert(all[e] == late[e - first.len()]);
            let m = choose|m: int|
                0 <= m < second.len() && m < generated.len() && generated[m] && #[trigger] second[m]
                    == late[e - first.len()];
            if m < k {
                assert(by_name()(second[m]) != by_name()(second[k]));
            } else if k < m {
                assert(by_name()(second[k]) != by_name()(second[m]));
            }
        }
    }
}

/// The thumbnail that is made for a wallpaper is found again under the
/// wallpaper's stem when the cache is listed.
pub proof fn lemma_thumbnail_is_found_again(name: Seq<char>)
    requires
        is_wallpaper_name(name),
    ensures
        is_thumbnail_name(thumbnail_name_of(stem_of(name))),
        stem_of(thumbnail_name_of(stem_of(name))) == stem_of(name),
{
    lemma_name_splits(name);
    lemma_thumbnail_name_keeps_stem(stem_of(name));
}

/// A cache that holds exactly the stems of the listed wallpapers leaves a
/// scan nothing to make and nothing to delete: scanning again after a scan
/// that made every thumbnail changes nothing.
pub proof fn lemma_settled_cache_needs_no_work(names: Seq<Seq<char>>, cache: Seq<Seq<char>>)
    requires
        forall|stem: Seq<char>| #[trigger] cache.contains(stem) <==> is_valid_stem(names, stem),
    ensures
        misses(names, cache).len() == 0,
        orphans(names, cache).len() == 0,
{
    let second = misses(names, cache);
    let gone = orphans(names, cache);
    lemma_filter_members(names, is_miss(cache));
    lemma_filter_members(cache, is_orphan(names));
    if second.len() > 0 {
        assert(is_miss(cache)(second[0]));
        assert(names.contains(second[0]));
        let m = choose|m: int| 0 <= m < names.len() && names[m] == second[0];
        assert(is_wallpaper_name(names[m]));
        assert(is_valid_stem(names, stem_of(second[0])));
    }
    if gone.len() > 0 {
        assert(is_orphan(names)(gone[0]));
        assert(cache.contains(gone[0]));
    }
}

} // verus!
