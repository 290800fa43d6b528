use synker::checksum::ChecksumStream;
use synker::error::StorageError;
use synker::filesystem::{EntryKind, FileSystemService, Step};
use synker::listing::sort_entries;
use synker::metadata::EntryStat;
use synker::types::Timestamp;

fn service() -> FileSystemService {
    FileSystemService::new("/srv/store", 16)
}

fn text(value: &str) -> String {
    value.to_string()
}

fn confirm(line: &[&str]) -> Step {
    Step::Confirm(line.iter().map(|location| location.to_string()).collect())
}

#[test]
fn test_file_operations() {
    let fs_service = FileSystemService::new("/tmp/store", 1024 * 1024);
    let now = Timestamp { seconds: 1_700_000_000, nanos: 0 };

    let test_data = b"Hello, World!";
    let steps = fs_service.save_file("/test.txt", test_data).unwrap();
    assert_eq!(
        steps,
        vec![
            confirm(&["/tmp/store/test.txt", "/tmp/store"]),
            Step::MakeDirectories(text("/tmp/store")),
            Step::Write(text("/tmp/store/test.txt")),
            Step::Describe(text("/tmp/store/test.txt")),
        ]
    );
    let stat = EntryStat {
        is_directory: false,
        len: test_data.len() as u64,
        created: Some(now),
        modified: Some(now),
    };
    let mut content = ChecksumStream::new();
    content.absorb(test_data);
    let metadata =
        fs_service.generate_file_metadata("/tmp/store/test.txt", &stat, content, 1).unwrap();
    assert_eq!(metadata.name, "test.txt");
    assert_eq!(metadata.size, test_data.len() as u64);

    let steps = fs_service.read_file("/test.txt", Some(EntryKind::File)).unwrap();
    assert_eq!(steps.last(), Some(&Step::Read(text("/tmp/store/test.txt"))));

    let steps = fs_service.create_directory("/testdir").unwrap();
    assert_eq!(steps.last(), Some(&Step::Describe(text("/tmp/store/testdir"))));
    let stat = EntryStat { is_directory: true, len: 0, created: Some(now), modified: Some(now) };
    let dir_metadata = fs_service
        .generate_file_metadata("/tmp/store/testdir", &stat, ChecksumStream::new(), 1)
        .unwrap();
    assert!(dir_metadata.is_directory);

    let steps = fs_service.list_directory("/", Some(EntryKind::Directory)).unwrap();
    assert_eq!(steps.last(), Some(&Step::List(text("/tmp/store"))));
    let entries = sort_entries(vec![metadata, dir_metadata]);
    assert!(entries.len() >= 2);
    assert_eq!(entries[0].name, "testdir");
    assert_eq!(entries[1].name, "test.txt");
}

#[test]
fn save_confirms_makes_the_directory_writes_and_describes() {
    assert_eq!(
        service().save_file("/docs/sub/a.txt", b"0123456789"),
        Ok(vec![
            confirm(&[
                "/srv/store/docs/sub/a.txt",
                "/srv/store/docs/sub",
                "/srv/store/docs",
                "/srv/store",
            ]),
            Step::MakeDirectories(text("/srv/store/docs/sub")),
            Step::Write(text("/srv/store/docs/sub/a.txt")),
            Step::Describe(text("/srv/store/docs/sub/a.txt")),
        ])
    );
}

#[test]
fn save_at_the_root_itself_makes_no_directory_outside() {
    assert_eq!(
        service().save_file("/", b"x"),
        Ok(vec![
            confirm(&["/srv/store"]),
            Step::Write(text("/srv/store")),
            Step::Describe(text("/srv/store")),
        ])
    );
}

#[test]
fn save_accepts_content_at_the_limit() {
    assert!(service().save_file("/a", &[0u8; 16]).is_ok());
    assert!(FileSystemService::new("/srv/store", 0).save_file("/a", b"").is_ok());
}

#[test]
fn save_refuses_one_byte_over_the_limit() {
    assert_eq!(service().save_file("/a", &[0u8; 17]), Err(StorageError::SizeExceeded));
    let outcome = FileSystemService::new("/srv/store", 0).save_file("/a", b"x");
    assert_eq!(outcome, Err(StorageError::SizeExceeded));
}

#[test]
fn save_tests_the_size_before_the_path() {
    assert_eq!(service().save_file("/../a", &[0u8; 17]), Err(StorageError::SizeExceeded));
    assert_eq!(service().save_file("/../a", &[0u8; 16]), Err(StorageError::PathEscape));
}

#[test]
fn read_goes_where_save_wrote() {
    let fs = service();
    for path in ["/a.txt", "docs/a.txt", "/docs//x/../a.txt/"] {
        let saved = fs.save_file(path, b"bytes").unwrap();
        let written = saved
            .iter()
            .find_map(|step| match step {
                Step::Write(location) => Some(location.clone()),
                _ => None,
            })
            .unwrap();
        let read = fs.read_file(path, Some(EntryKind::File)).unwrap();
        assert_eq!(read.len(), 2);
        assert_eq!(read[0], saved[0]);
        assert_eq!(read[1], Step::Read(written));
    }
}

#[test]
fn read_needs_the_target_to_exist() {
    assert_eq!(service().read_file("/a.txt", None), Err(StorageError::NotFound));
    assert_eq!(service().read_file("/../a.txt", None), Err(StorageError::PathEscape));
    assert_eq!(
        service().read_file("/../a.txt", Some(EntryKind::File)),
        Err(StorageError::PathEscape)
    );
}

#[test]
fn delete_removes_a_file_alone_and_a_directory_as_a_tree() {
    assert_eq!(
        service().delete_file("/docs/a.txt", Some(EntryKind::File)),
        Ok(vec![
            confirm(&["/srv/store/docs/a.txt", "/srv/store/docs", "/srv/store"]),
            Step::RemoveFile(text("/srv/store/docs/a.txt")),
        ])
    );
    assert_eq!(
        service().delete_file("/docs", Some(EntryKind::Directory)),
        Ok(vec![
            confirm(&["/srv/store/docs", "/srv/store"]),
            Step::RemoveTree(text("/srv/store/docs")),
        ])
    );
}

#[test]
fn delete_needs_the_target_to_exist() {
    assert_eq!(service().delete_file("/docs", None), Err(StorageError::NotFound));
    assert_eq!(
        service().delete_file("/docs/../..", Some(EntryKind::Directory)),
        Err(StorageError::PathEscape)
    );
}

#[test]
fn deleted_directory_is_gone_for_every_operation() {
    let fs = service();
    let steps = fs.delete_file("/docs", Some(EntryKind::Directory)).unwrap();
    let removed = match &steps[1] {
        Step::RemoveTree(location) => location.clone(),
        other => panic!("a directory is removed with all it holds, not by {:?}", other),
    };
    let nested = fs.get_absolute_path("/docs/deep/er/file.txt").unwrap();
    assert!(nested.starts_with(&format!("{}/", removed)));
    assert_eq!(fs.list_directory("/docs", None), Err(StorageError::NotFound));
    assert_eq!(fs.read_file("/docs/deep/er/file.txt", None), Err(StorageError::NotFound));
    assert_eq!(fs.get_file_metadata("/docs", None), Err(StorageError::NotFound));
}

#[test]
fn create_directory_confirms_makes_and_describes() {
    assert_eq!(
        service().create_directory("/a/b"),
        Ok(vec![
            confirm(&["/srv/store/a/b", "/srv/store/a", "/srv/store"]),
            Step::MakeDirectories(text("/srv/store/a/b")),
            Step::Describe(text("/srv/store/a/b")),
        ])
    );
    assert_eq!(service().create_directory("/a/../.."), Err(StorageError::PathEscape));
}

#[test]
fn move_renames_within_the_root() {
    assert_eq!(
        service().move_file("/a.txt", "/new/b.txt", Some(EntryKind::File)),
        Ok(vec![
            confirm(&["/srv/store/a.txt", "/srv/store"]),
            confirm(&["/srv/store/new/b.txt", "/srv/store/new", "/srv/store"]),
            Step::MakeDirectories(text("/srv/store/new")),
            Step::Rename { from: text("/srv/store/a.txt"), to: text("/srv/store/new/b.txt") },
        ])
    );
}

#[test]
fn move_then_read_finds_the_new_place_only() {
    let fs = service();
    let moved = fs.move_file("/a.txt", "/new/b.txt", Some(EntryKind::File)).unwrap();
    let arrived = match moved.last() {
        Some(Step::Rename { to, .. }) => to.clone(),
        other => panic!("a move ends in a rename, not in {:?}", other),
    };
    let read = fs.read_file("/new/b.txt", Some(EntryKind::File)).unwrap();
    assert_eq!(read.last(), Some(&Step::Read(arrived)));
    assert_eq!(fs.read_file("/a.txt", None), Err(StorageError::NotFound));
}

#[test]
fn move_needs_the_source_and_both_paths_inside() {
    let fs = service();
    assert_eq!(fs.move_file("/a", "/b", None), Err(StorageError::NotFound));
    assert_eq!(fs.move_file("/../a", "/b", Some(EntryKind::File)), Err(StorageError::PathEscape));
    assert_eq!(fs.move_file("/a", "/../b", Some(EntryKind::File)), Err(StorageError::PathEscape));
    assert_eq!(fs.move_file("/a", "/../b", None), Err(StorageError::PathEscape));
}

#[test]
fn copy_confirms_copies_and_describes() {
    let fs = service();
    assert_eq!(
        fs.copy_file("/a.txt", "/copies/a.txt", Some(EntryKind::File)),
        Ok(vec![
            confirm(&["/srv/store/a.txt", "/srv/store"]),
            confirm(&["/srv/store/copies/a.txt", "/srv/store/copies", "/srv/store"]),
            Step::MakeDirectories(text("/srv/store/copies")),
            Step::Copy { from: text("/srv/store/a.txt"), to: text("/srv/store/copies/a.txt") },
            Step::Describe(text("/srv/store/copies/a.txt")),
        ])
    );
    assert_eq!(fs.copy_file("/a.txt", "/b.txt", None), Err(StorageError::NotFound));
    assert_eq!(
        fs.copy_file("/a.txt", "/../b.txt", Some(EntryKind::File)),
        Err(StorageError::PathEscape)
    );
}

#[test]
fn list_needs_a_directory() {
    let fs = service();
    assert_eq!(
        fs.list_directory("/docs", Some(EntryKind::Directory)),
        Ok(vec![confirm(&["/srv/store/docs", "/srv/store"]), Step::List(text("/srv/store/docs"))])
    );
    assert_eq!(fs.list_directory("/docs", Some(EntryKind::File)), Err(StorageError::NotFound));
    assert_eq!(fs.list_directory("/docs", None), Err(StorageError::NotFound));
    assert_eq!(
        fs.list_directory("/..", Some(EntryKind::Directory)),
        Err(StorageError::PathEscape)
    );
}

#[test]
fn metadata_and_size_need_the_target_to_exist() {
    let fs = service();
    assert_eq!(
        fs.get_file_metadata("/a", Some(EntryKind::File)),
        Ok(vec![confirm(&["/srv/store/a", "/srv/store"]), Step::Describe(text("/srv/store/a"))])
    );
    assert_eq!(fs.get_file_metadata("/a", None), Err(StorageError::NotFound));
    assert_eq!(
        fs.get_directory_size("/a", Some(EntryKind::Directory)),
        Ok(vec![confirm(&["/srv/store/a", "/srv/store"]), Step::Measure(text("/srv/store/a"))])
    );
    assert_eq!(fs.get_directory_size("/a", None), Err(StorageError::NotFound));
    assert_eq!(fs.get_directory_size("/../a", None), Err(StorageError::PathEscape));
}

#[test]
fn watch_is_debounced_by_a_second() {
    assert_eq!(
        service().watch_directory("/docs"),
        Ok(vec![
            confirm(&["/srv/store/docs", "/srv/store"]),
            Step::Watch { location: text("/srv/store/docs"), debounce_millis: 1000 },
        ])
    );
    assert_eq!(service().watch_directory("/.."), Err(StorageError::PathEscape));
}

#[test]
fn every_operation_confirms_before_it_touches() {
    let fs = service();
    let found = Some(EntryKind::Directory);
    let plans = vec![
        fs.save_file("/a/b", b"x").unwrap(),
        fs.read_file("/a/b", found).unwrap(),
        fs.delete_file("/a/b", found).unwrap(),
        fs.create_directory("/a/b").unwrap(),
        fs.move_file("/a/b", "/c/d", found).unwrap(),
        fs.copy_file("/a/b", "/c/d", found).unwrap(),
        fs.list_directory("/a/b", found).unwrap(),
        fs.get_file_metadata("/a/b", found).unwrap(),
        fs.get_directory_size("/a/b", found).unwrap(),
        fs.watch_directory("/a/b").unwrap(),
    ];
    for plan in plans {
        let mut confirmed: Vec<String> = Vec::new();
        for step in plan {
            let touched = match step {
                Step::Confirm(line) => {
                    confirmed.extend(line);
                    Vec::new()
                }
                Step::Rename { from, to } | Step::Copy { from, to } => vec![from, to],
                Step::MakeDirectories(location)
                | Step::Write(location)
                | Step::Read(location)
                | Step::RemoveFile(location)
                | Step::RemoveTree(location)
                | Step::Describe(location)
                | Step::List(location)
                | Step::Measure(location)
                | Step::Watch { location, .. } => vec![location],
            };
            for location in touched {
                assert!(confirmed.contains(&location));
                assert!(location == "/srv/store" || location.starts_with("/srv/store/"));
            }
        }
    }
}

#[test]
fn available_space_is_unbounded() {
    assert_eq!(service().get_available_space(), u64::MAX);
}

#[test]
fn error_messages() {
    assert_eq!(StorageError::PathEscape.message(), "Path escapes the storage root");
    assert_eq!(StorageError::NotFound.message(), "File not found");
    assert_eq!(StorageError::SizeExceeded.message(), "File size exceeds maximum allowed size");
    assert_eq!(StorageError::IoFailure.message(), "Storage I/O failure");
    assert_eq!(StorageError::InvalidPath.message(), "Invalid path");
}

#[test]
fn error_statuses() {
    assert_eq!(StorageError::PathEscape.http_status(), 403);
    assert_eq!(StorageError::NotFound.http_status(), 404);
    assert_eq!(StorageError::SizeExceeded.http_status(), 413);
    assert_eq!(StorageError::IoFailure.http_status(), 500);
    assert_eq!(StorageError::InvalidPath.http_status(), 400);
}
