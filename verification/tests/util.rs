use std::path::Path;
use wallity::util::{get_absolute_path, resolution, ResolveError};

#[test]
fn test_get_absolute_path() {
    // Test with a regular relative path
    let path = "src/main.rs";
    let resolved = get_absolute_path(path).unwrap();
    assert!(Path::new(&resolved).is_absolute());
    assert!(Path::new(&resolved).ends_with("src/main.rs"));

    // Test with tilde
    let tilde_path = "~/some_file";
    let resolved = get_absolute_path(tilde_path).unwrap();
    assert!(Path::new(&resolved).is_absolute());
    // We don't necessarily know the exact home dir, but it should be absolute and contain "some_file"
    assert!(resolved.contains("some_file"));
}

#[test]
fn absolute_path_is_left_alone() {
    assert_eq!(get_absolute_path("/etc/wallity/../walls").unwrap(), "/etc/wallity/../walls");
    assert_eq!(get_absolute_path("/").unwrap(), "/");
}

#[test]
fn relative_path_is_anchored_at_working_directory() {
    let resolved = get_absolute_path("some/dir").unwrap();
    assert!(resolved.starts_with('/'));
    assert!(resolved.ends_with("/some/dir"));
    assert_ne!(resolved, "some/dir");
    let base = get_absolute_path("").unwrap();
    assert_eq!(Path::new(&resolved), Path::new(&base).join("some/dir"));
}

#[test]
fn tilde_is_replaced() {
    let resolved = get_absolute_path("~/x/y").unwrap();
    assert!(!resolved.starts_with('~'));
    assert!(resolved.ends_with("x/y"));
}

#[test]
fn home_relative_path_ends_with_what_it_names_below_home() {
    let home = get_absolute_path("~").unwrap();
    assert!(!home.is_empty());
    assert!(get_absolute_path("~///x/y").unwrap().ends_with("x/y"));
    assert!(!get_absolute_path("~///x/y").unwrap().ends_with("//x/y"));
    assert_eq!(
        Path::new(&get_absolute_path("~/x//y").unwrap()),
        Path::new(&home).join("x//y")
    );
    assert_eq!(Path::new(&get_absolute_path("~/").unwrap()), Path::new(&home));
}

#[test]
fn path_named_like_another_users_home_is_relative() {
    let resolved = get_absolute_path("~user/x").unwrap();
    assert!(resolved.starts_with('/'));
    assert!(resolved.ends_with("/~user/x"));
}

#[test]
fn resolution_keeps_a_found_path() {
    assert_eq!(resolution("a", Ok(String::from("/cwd/a"))), Ok(String::from("/cwd/a")));
}

#[test]
fn resolution_names_the_path_that_failed() {
    let failure = std::io::Error::new(std::io::ErrorKind::NotFound, "homedir not found");
    let error = resolution("~/walls", Err(failure)).unwrap_err();
    assert_eq!(error.path, "~/walls");
    assert_eq!(error.cause, "homedir not found");
    assert_eq!(error.message(), "Failed to resolve path: ~/walls");
}

#[test]
fn error_message_holds_the_path() {
    let error = ResolveError { path: String::from("x y"), cause: String::new() };
    assert_eq!(error.message(), "Failed to resolve path: x y");
}
