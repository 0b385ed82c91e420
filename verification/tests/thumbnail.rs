use wallity::thumbnail::{
    contains_text, is_thumbnail, list_thumbnails, list_thumbnails_of, thumbnail_path,
    trim_trailing_slashes,
};

fn names(list: &[&str]) -> Vec<String> {
    list.iter().map(|s| s.to_string()).collect()
}

#[test]
fn test_list_thumbnails_from_path() {
    let listing = names(&["thumb1.jpeg", "thumb2.jpeg", "not_a_thumb.txt"]);

    let thumbnails = list_thumbnails(&listing);
    assert_eq!(thumbnails.len(), 2);
    assert!(thumbnails.contains(&String::from("thumb1")));
    assert!(thumbnails.contains(&String::from("thumb2")));
    assert!(!thumbnails.contains(&String::from("not_a_thumb")));
}

#[test]
fn empty_listing_gives_empty_index() {
    assert_eq!(list_thumbnails(&Vec::new()), Vec::<String>::new());
}

#[test]
fn index_keeps_listing_order_and_no_duplicates() {
    let listing = names(&["b.jpeg", "a.jpeg", "b.jpeg", "c.png", "a.jpeg"]);
    assert_eq!(list_thumbnails(&listing), names(&["b", "a"]));
}

#[test]
fn cache_extension_is_case_sensitive() {
    let listing = names(&["a.JPEG", "b.Jpeg", "c.jpg", "d.jpeg"]);
    assert_eq!(list_thumbnails(&listing), names(&["d"]));
    assert!(!is_thumbnail("a.JPEG"));
    assert!(!is_thumbnail("c.jpg"));
    assert!(is_thumbnail("d.jpeg"));
}

#[test]
fn names_without_extension_are_no_thumbnails() {
    assert!(!is_thumbnail("jpeg"));
    assert!(!is_thumbnail(".jpeg"));
    assert!(is_thumbnail("x.y.jpeg"));
    assert_eq!(list_thumbnails(&names(&["x.y.jpeg"])), names(&["x.y"]));
}

#[test]
fn thumbnail_path_joins_dir_stem_and_extension() {
    assert_eq!(thumbnail_path("/cache", "a"), "/cache/a.jpeg");
    assert_eq!(thumbnail_path("/home/u/.cache/wallity/thumbnails", "my wall"),
        "/home/u/.cache/wallity/thumbnails/my wall.jpeg");
}

#[test]
fn thumbnail_path_drops_trailing_slashes_of_dir() {
    assert_eq!(thumbnail_path("/cache/", "a"), "/cache/a.jpeg");
    assert_eq!(thumbnail_path("/cache///", "a"), "/cache/a.jpeg");
    assert_eq!(thumbnail_path("/", "a"), "/a.jpeg");
    assert_eq!(thumbnail_path("", "a"), "/a.jpeg");
}

#[test]
fn trimming_slashes() {
    assert_eq!(trim_trailing_slashes("/a/b//"), "/a/b");
    assert_eq!(trim_trailing_slashes("/a/b"), "/a/b");
    assert_eq!(trim_trailing_slashes("///"), "");
    assert_eq!(trim_trailing_slashes(""), "");
}

#[test]
fn thumbnail_is_listed_under_its_stem() {
    let path = thumbnail_path("/cache", "holiday.2024");
    let name = path.rsplit('/').next().unwrap().to_string();
    assert_eq!(list_thumbnails(&vec![name]), names(&["holiday.2024"]));
}

#[test]
fn contains_text_finds_exact_entries() {
    let list = names(&["a", "bc", ""]);
    assert!(contains_text(&list, &String::from("a")));
    assert!(contains_text(&list, &String::from("bc")));
    assert!(contains_text(&list, &String::new()));
    assert!(!contains_text(&list, &String::from("b")));
    assert!(!contains_text(&list, &String::from("A")));
    assert!(!contains_text(&Vec::new(), &String::from("a")));
}

#[test]
fn missing_cache_directory_gives_empty_index() {
    assert_eq!(list_thumbnails_of(None), Vec::<String>::new());
}

#[test]
fn listed_cache_directory_is_indexed() {
    let listing = names(&["b.jpeg", "x.png", "a.jpeg"]);
    assert_eq!(list_thumbnails_of(Some(&listing)), names(&["b", "a"]));
    assert_eq!(list_thumbnails_of(Some(&Vec::new())), Vec::<String>::new());
}
