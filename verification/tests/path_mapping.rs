use synker::error::StorageError;
use synker::filesystem::FileSystemService;
use synker::path::{confirm_contained, relativize, resolve, resolve_lineage};

fn ok(text: &str) -> Result<String, StorageError> {
    Ok(text.to_string())
}

#[test]
fn resolve_joins_onto_the_root() {
    assert_eq!(resolve("/srv/store", "/docs/a.txt"), ok("/srv/store/docs/a.txt"));
    assert_eq!(resolve("/srv/store", "docs/a.txt"), ok("/srv/store/docs/a.txt"));
}

#[test]
fn resolve_strips_leading_separators() {
    assert_eq!(resolve("/srv/store", "///docs"), ok("/srv/store/docs"));
}

#[test]
fn resolve_maps_the_empty_path_to_the_root() {
    assert_eq!(resolve("/srv/store", ""), ok("/srv/store"));
    assert_eq!(resolve("/srv/store", "/"), ok("/srv/store"));
}

#[test]
fn resolve_drops_trailing_and_doubled_separators() {
    assert_eq!(resolve("/srv/store", "/docs/"), ok("/srv/store/docs"));
    assert_eq!(resolve("/srv/store", "/docs//a.txt///"), ok("/srv/store/docs/a.txt"));
}

#[test]
fn resolve_drops_current_directory_segments() {
    assert_eq!(resolve("/srv/store", "/./docs/./a.txt"), ok("/srv/store/docs/a.txt"));
}

#[test]
fn resolve_steps_back_within_the_root() {
    assert_eq!(resolve("/srv/store", "/docs/../a.txt"), ok("/srv/store/a.txt"));
    assert_eq!(resolve("/srv/store", "/docs/sub/../../a.txt"), ok("/srv/store/a.txt"));
    assert_eq!(resolve("/srv/store", "/docs/.."), ok("/srv/store"));
}

#[test]
fn resolve_refuses_escape() {
    assert_eq!(resolve("/srv/store", "/../etc/passwd"), Err(StorageError::PathEscape));
    assert_eq!(resolve("/srv/store", ".."), Err(StorageError::PathEscape));
    assert_eq!(resolve("/srv/store", "/docs/../../store/a"), Err(StorageError::PathEscape));
    assert_eq!(resolve("/srv/store", "/a/b/../../../x"), Err(StorageError::PathEscape));
}

#[test]
fn resolve_keeps_absolute_looking_paths_under_the_root() {
    assert_eq!(resolve("/srv/store", "//etc/passwd"), ok("/srv/store/etc/passwd"));
    assert_eq!(resolve("/srv/store", "/srv/store/x"), ok("/srv/store/srv/store/x"));
}

#[test]
fn resolve_keeps_names_that_only_look_like_dots() {
    assert_eq!(resolve("/srv/store", "/.../a"), ok("/srv/store/.../a"));
    assert_eq!(resolve("/srv/store", "/..a/.b"), ok("/srv/store/..a/.b"));
}

#[test]
fn resolve_adds_no_separator_behind_one() {
    assert_eq!(resolve("/", "/a/b"), ok("/a/b"));
    assert_eq!(resolve("/srv/store/", "/a"), ok("/srv/store/a"));
    assert_eq!(resolve("", "/a/b"), ok("a/b"));
}

#[test]
fn resolve_handles_names_beyond_ascii() {
    assert_eq!(resolve("/srv/store", "/żółw/日本.txt"), ok("/srv/store/żółw/日本.txt"));
}

#[test]
fn lineage_runs_from_the_location_up_to_the_root() {
    assert_eq!(
        resolve_lineage("/srv/store", "/docs/sub/a.txt"),
        Ok(vec![
            "/srv/store/docs/sub/a.txt".to_string(),
            "/srv/store/docs/sub".to_string(),
            "/srv/store/docs".to_string(),
            "/srv/store".to_string(),
        ])
    );
    assert_eq!(
        resolve_lineage("/srv/store", "/a/../b"),
        Ok(vec!["/srv/store/b".to_string(), "/srv/store".to_string()])
    );
    assert_eq!(resolve_lineage("/srv/store", "/"), Ok(vec!["/srv/store".to_string()]));
    assert_eq!(resolve_lineage("/", "/a"), Ok(vec!["/a".to_string(), "/".to_string()]));
    assert_eq!(resolve_lineage("/srv/store", "/../x"), Err(StorageError::PathEscape));
}

#[test]
fn relativize_maps_back() {
    assert_eq!(relativize("/srv/store", "/srv/store/docs/a.txt"), ok("/docs/a.txt"));
    assert_eq!(relativize("/srv/store", "/srv/store"), ok("/"));
    assert_eq!(relativize("/srv/store", "/srv/store/"), ok("/"));
    assert_eq!(relativize("/", "/a/b"), ok("/a/b"));
}

#[test]
fn relativize_normalizes_what_follows_the_root() {
    assert_eq!(relativize("/srv/store", "/srv/store/docs/../a.txt"), ok("/a.txt"));
    assert_eq!(relativize("/srv/store", "/srv/store//docs/./a.txt/"), ok("/docs/a.txt"));
}

#[test]
fn relativize_refuses_what_is_not_under_the_root() {
    assert_eq!(relativize("/srv/store", "/srv/storex/a"), Err(StorageError::InvalidPath));
    assert_eq!(relativize("/srv/store", "/srv"), Err(StorageError::InvalidPath));
    assert_eq!(relativize("/srv/store", "/etc/passwd"), Err(StorageError::InvalidPath));
    assert_eq!(relativize("/srv/store", "/srv/store/../x"), Err(StorageError::InvalidPath));
    assert_eq!(relativize("/srv/store", ""), Err(StorageError::InvalidPath));
}

#[test]
fn containment_on_concrete_paths() {
    let root = "/srv/store";
    let paths = [
        "/a", "/a/../b", "/../a", "/a/../../b", "..", "/./..", "//etc/passwd", "/a/b/c/../../..",
        "/a/b/c/../../../..", "/..a", "/a/..", "../../..", "/a//..//..//b",
    ];
    for path in paths {
        match resolve(root, path) {
            Ok(location) => {
                assert!(location == root || location.starts_with("/srv/store/"));
                assert!(!location.split('/').any(|segment| segment == ".."));
                assert!(relativize(root, &location).is_ok());
            }
            Err(error) => assert_eq!(error, StorageError::PathEscape),
        }
    }
}

#[test]
fn resolve_and_relativize_are_inverse() {
    let root = "/srv/store";
    for path in ["/", "/a", "/a/b.txt", "/deep/er/still/x"] {
        let location = resolve(root, path).unwrap();
        assert_eq!(relativize(root, &location), ok(path));
    }
    let location = resolve(root, "docs//./a/../b/").unwrap();
    let shown = relativize(root, &location).unwrap();
    assert_eq!(shown, "/docs/b");
    assert_eq!(resolve(root, &shown), Ok(location));
}

#[test]
fn nested_paths_lie_under_their_directory() {
    let root = "/srv/store";
    let holder = resolve(root, "/docs/2024").unwrap();
    let nested = resolve(root, "/docs/2024/reports/q1.txt").unwrap();
    assert_eq!(resolve(&holder, "reports/q1.txt"), Ok(nested.clone()));
    assert_eq!(relativize(&holder, &nested), ok("/reports/q1.txt"));
}

#[test]
fn service_paths_follow_the_mapping() {
    let service = FileSystemService::new("/srv/store", 10);
    assert_eq!(service.base_path(), "/srv/store");
    assert_eq!(service.max_file_size(), 10);
    assert_eq!(service.get_absolute_path("/a/b"), ok("/srv/store/a/b"));
    assert_eq!(service.get_absolute_path("/a/../../b"), Err(StorageError::PathEscape));
    assert_eq!(service.get_relative_path("/srv/store/a/b"), ok("/a/b"));
    assert_eq!(service.get_relative_path("/srv/other/a"), Err(StorageError::InvalidPath));
}

#[test]
fn canonical_locations_are_tested_against_the_canonical_root() {
    assert_eq!(confirm_contained("/srv/store", "/srv/store/docs/a.txt"), Ok(()));
    assert_eq!(confirm_contained("/srv/store", "/srv/store"), Ok(()));
    assert_eq!(confirm_contained("/srv/store", "/etc/passwd"), Err(StorageError::PathEscape));
    assert_eq!(confirm_contained("/srv/store", "/srv/store-old/a"), Err(StorageError::PathEscape));
}

#[test]
fn relativize_behind_the_empty_root() {
    assert_eq!(relativize("", "a/b"), ok("/a/b"));
    assert_eq!(relativize("", ""), ok("/"));
    assert_eq!(relativize("", "/etc/passwd"), Err(StorageError::InvalidPath));
    assert_eq!(relativize("", "../a"), Err(StorageError::InvalidPath));
}
