use synker::mycloud::{local_user, map_mycloud_permissions, sync_user_to_local, MyCloudUser};
use synker::types::Timestamp;

fn groups(names: &[&str]) -> Vec<String> {
    names.iter().map(|name| name.to_string()).collect()
}

#[test]
fn test_mycloud_user_mapping() {
    let mycloud_user = MyCloudUser {
        username: "testuser".to_string(),
        email: Some("test@example.com".to_string()),
        full_name: Some("Test User".to_string()),
        groups: vec!["users".to_string()],
        is_admin: false,
        is_active: true,
        last_login: None,
    };

    let user = sync_user_to_local(&mycloud_user, "password_hash");

    assert_eq!(user.username, "testuser");
    assert_eq!(user.email, Some("test@example.com".to_string()));
    assert!(user.permissions.contains(&"read".to_string()));
    assert!(user.permissions.contains(&"write".to_string()));
}

#[test]
fn permissions_of_each_group() {
    assert_eq!(
        map_mycloud_permissions(&groups(&["administrators"])),
        ["admin", "delete", "read", "share", "write"]
    );
    assert_eq!(map_mycloud_permissions(&groups(&["users"])), ["read", "share", "write"]);
    assert_eq!(map_mycloud_permissions(&groups(&["guests"])), ["read"]);
    assert_eq!(map_mycloud_permissions(&groups(&["family"])), ["read"]);
    assert!(map_mycloud_permissions(&groups(&[])).is_empty());
}

#[test]
fn permissions_of_several_groups_are_named_once_in_order() {
    assert_eq!(
        map_mycloud_permissions(&groups(&["guests", "users", "family", "users"])),
        ["read", "share", "write"]
    );
    assert_eq!(
        map_mycloud_permissions(&groups(&["users", "administrators", "guests"])),
        ["admin", "delete", "read", "share", "write"]
    );
    assert_eq!(map_mycloud_permissions(&groups(&["Users", "ADMINISTRATORS"])), ["read"]);
}

#[test]
fn local_user_takes_over_the_account() {
    let remote = MyCloudUser {
        username: "ann".to_string(),
        email: None,
        full_name: None,
        groups: groups(&["administrators"]),
        is_admin: true,
        is_active: false,
        last_login: Some(Timestamp { seconds: 77, nanos: 1 }),
    };
    let now = Timestamp { seconds: 1000, nanos: 0 };
    let user = local_user(&remote, "hash", 5, now);
    assert_eq!(user.id, 5);
    assert_eq!(user.username, "ann");
    assert_eq!(user.email, None);
    assert_eq!(user.password_hash, "hash");
    assert_eq!(user.created_at, now);
    assert_eq!(user.last_login, Some(Timestamp { seconds: 77, nanos: 1 }));
    assert!(!user.is_active);
    assert_eq!(user.permissions, ["admin", "delete", "read", "share", "write"]);
}

#[test]
fn synced_users_get_fresh_identifiers() {
    let remote = MyCloudUser {
        username: "ann".to_string(),
        email: None,
        full_name: None,
        groups: groups(&["users"]),
        is_admin: false,
        is_active: true,
        last_login: None,
    };
    let first = sync_user_to_local(&remote, "hash");
    let second = sync_user_to_local(&remote, "hash");
    assert_ne!(first.id, second.id);
    assert_eq!((first.id >> 76) & 0xf, 4);
    assert_eq!((first.id >> 62) & 0x3, 2);
    assert!(first.created_at.seconds > 1_600_000_000);
    assert_eq!(first.password_hash, "hash");
}
