use synker::auth::{bearer_token, Claims};
use synker::requests::{
    assign_owner, child_path, initial_admin, share_access, ApiResponse, CreateFolderRequest,
    LoginResponse, ShareLink, ShareRefusal, SyncRequest, UploadRequest, UploadResponse,
};
use synker::types::{FileMetadata, FilePermissions, Timestamp};

fn record(owner_id: u128) -> FileMetadata {
    FileMetadata {
        id: 77,
        name: "a.txt".to_string(),
        path: "/docs/a.txt".to_string(),
        size: 12,
        mime_type: "text/plain".to_string(),
        checksum: "c0ffee".to_string(),
        created_at: Timestamp { seconds: 1, nanos: 0 },
        modified_at: Timestamp { seconds: 2, nanos: 0 },
        owner_id,
        is_directory: false,
        parent_id: None,
        permissions: FilePermissions::all(),
    }
}

#[test]
fn child_path_puts_one_separator_between() {
    assert_eq!(child_path("/docs", "a.txt"), "/docs/a.txt");
    assert_eq!(child_path("/docs/", "a.txt"), "/docs/a.txt");
    assert_eq!(child_path("/", "a.txt"), "/a.txt");
    assert_eq!(child_path("", "a.txt"), "/a.txt");
    assert_eq!(child_path("/docs", ""), "/docs/");
}

#[test]
fn upload_request_rules() {
    let request = UploadRequest { path: "/in".to_string(), overwrite: None };
    assert_eq!(request.file_path("x.bin"), "/in/x.bin");
    assert!(!request.may_overwrite());
    assert!(!UploadRequest { path: "/".to_string(), overwrite: Some(false) }.may_overwrite());
    assert!(UploadRequest { path: "/".to_string(), overwrite: Some(true) }.may_overwrite());
}

#[test]
fn upload_response_is_taken_from_the_record() {
    let answer = UploadResponse::for_record(&record(1));
    assert_eq!(answer.file_id, 77);
    assert_eq!(answer.path, "/docs/a.txt");
    assert_eq!(answer.size, 12);
    assert_eq!(answer.checksum, "c0ffee");
}

#[test]
fn folder_request_names_the_new_directory() {
    let request = CreateFolderRequest { path: "/docs/".to_string(), name: "new".to_string() };
    assert_eq!(request.folder_path(), "/docs/new");
}

#[test]
fn sync_cursor_defaults_to_a_day_back() {
    let now = Timestamp { seconds: 1_000_000, nanos: 9 };
    let request = SyncRequest { folders: Vec::new(), last_sync: None };
    assert_eq!(request.cursor(now), Timestamp { seconds: 1_000_000 - 86_400, nanos: 9 });
    let last = Timestamp { seconds: 5, nanos: 0 };
    let request = SyncRequest { folders: Vec::new(), last_sync: Some(last) };
    assert_eq!(request.cursor(now), last);
    let request = SyncRequest { folders: Vec::new(), last_sync: None };
    let early = Timestamp { seconds: i64::MIN + 10, nanos: 0 };
    assert_eq!(request.cursor(early), Timestamp { seconds: i64::MIN, nanos: 0 });
}

#[test]
fn only_the_owner_may_share() {
    assert_eq!(share_access(&Some(record(1)), 1), Ok(()));
    assert_eq!(share_access(&Some(record(1)), 2), Err(ShareRefusal::AccessDenied));
    assert_eq!(share_access(&None, 1), Err(ShareRefusal::FileNotFound));
    assert_eq!(ShareRefusal::AccessDenied.message(), "Access denied");
    assert_eq!(ShareRefusal::FileNotFound.message(), "File not found");
}

#[test]
fn owner_is_laid_over_the_record() {
    let mut entry = record(0);
    assign_owner(&mut entry, 9);
    assert_eq!(entry.owner_id, 9);
    assert_eq!(entry.id, 77);
    assert_eq!(entry.path, "/docs/a.txt");
}

#[test]
fn share_link_lasts_a_day_unless_told_otherwise() {
    let now = Timestamp { seconds: 1000, nanos: 3 };
    let link = ShareLink::issue(1, 2, 3, "token".to_string(), None, Some(5), now).unwrap();
    assert_eq!(link.id, 1);
    assert_eq!(link.file_id, 2);
    assert_eq!(link.created_by, 3);
    assert_eq!(link.share_token, "token");
    assert_eq!(link.expires_at, Some(Timestamp { seconds: 1000 + 86_400, nanos: 3 }));
    assert!(!link.password_protected);
    assert_eq!(link.download_count, 0);
    assert_eq!(link.max_downloads, Some(5));
    assert_eq!(link.created_at, now);
    let link = ShareLink::issue(1, 2, 3, "t".to_string(), Some(2), None, now).unwrap();
    assert_eq!(link.expires_at, Some(Timestamp { seconds: 1000 + 7200, nanos: 3 }));
    let link = ShareLink::issue(1, 2, 3, "t".to_string(), Some(-1), None, now).unwrap();
    assert_eq!(link.expires_at, Some(Timestamp { seconds: 1000 - 3600, nanos: 3 }));
    assert!(ShareLink::issue(1, 2, 3, "t".to_string(), Some(i64::MAX), None, now).is_none());
}

#[test]
fn login_response_expires_after_a_day() {
    let user = initial_admin("root", "hash".to_string(), 1, Timestamp { seconds: 0, nanos: 0 });
    let now = Timestamp { seconds: 500, nanos: 1 };
    let answer = LoginResponse::issued("tok".to_string(), user, now).unwrap();
    assert_eq!(answer.token, "tok");
    assert_eq!(answer.user.username, "root");
    assert_eq!(answer.expires_at, Timestamp { seconds: 500 + 86_400, nanos: 1 });
    let user = initial_admin("root", "hash".to_string(), 1, now);
    let late = Timestamp { seconds: i64::MAX - 10, nanos: 0 };
    assert!(LoginResponse::issued("tok".to_string(), user, late).is_none());
}

#[test]
fn first_administrator() {
    let now = Timestamp { seconds: 42, nanos: 0 };
    let user = initial_admin("admin", "hashed".to_string(), 8, now);
    assert_eq!(user.id, 8);
    assert_eq!(user.username, "admin");
    assert_eq!(user.email, Some("admin@localhost".to_string()));
    assert_eq!(user.password_hash, "hashed");
    assert_eq!(user.created_at, now);
    assert_eq!(user.last_login, None);
    assert!(user.is_active);
    assert_eq!(user.permissions, ["read", "write", "delete", "share", "admin"]);
}

#[test]
fn envelope_carries_data_or_a_reason() {
    let answer = ApiResponse::success(5u32);
    assert!(answer.success);
    assert_eq!(answer.data, Some(5));
    assert_eq!(answer.error, None);
    assert!(answer.timestamp.seconds > 1_600_000_000);
    let answer: ApiResponse<u32> = ApiResponse::error("Invalid credentials".to_string());
    assert!(!answer.success);
    assert_eq!(answer.data, None);
    assert_eq!(answer.error, Some("Invalid credentials".to_string()));
}

#[test]
fn claims_are_good_for_a_day() {
    let claims =
        Claims::issue("id".to_string(), "ann".to_string(), Some("device123".to_string()), 1000)
            .unwrap();
    assert_eq!(claims.sub, "id");
    assert_eq!(claims.username, "ann");
    assert_eq!(claims.device_id, Some("device123".to_string()));
    assert_eq!(claims.iat, 1000);
    assert_eq!(claims.exp, 1000 + 86_400);
    assert!(!claims.is_expired(1000));
    assert!(!claims.is_expired(1000 + 86_400));
    assert!(claims.is_expired(1000 + 86_401));
    assert!(Claims::issue("id".to_string(), "ann".to_string(), None, i64::MAX - 86_399).is_none());
    assert!(Claims::issue("id".to_string(), "ann".to_string(), None, i64::MAX - 86_400).is_some());
}

#[test]
fn bearer_token_follows_the_scheme() {
    assert_eq!(bearer_token("Bearer abc.def.ghi"), Some("abc.def.ghi".to_string()));
    assert_eq!(bearer_token("Bearer "), Some(String::new()));
    assert_eq!(bearer_token("Bearer"), None);
    assert_eq!(bearer_token("bearer abc"), None);
    assert_eq!(bearer_token("Basic abc"), None);
    assert_eq!(bearer_token(""), None);
    assert_eq!(bearer_token(" Bearer abc"), None);
}
