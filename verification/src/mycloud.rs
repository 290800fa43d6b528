//! What the server takes over from a MyCloud device: its users and the
//! rights that their groups stand for.

use crate::metadata::{current_time, fresh_id, is_random_uuid};
use crate::types::{
    clone_optional_text, optional_text, text_views, Timestamp, User, UserView,
};
use vstd::prelude::*;

verus! {

/// A user as the device knows it.
#[derive(Debug)]
pub struct MyCloudUser {
    pub username: String,
    pub email: Option<String>,
    pub full_name: Option<String>,
    pub groups: Vec<String>,
    pub is_admin: bool,
    pub is_active: bool,
    pub last_login: Option<Timestamp>,
}

/// What the device answers to a login.
#[derive(Debug)]
pub struct MyCloudAuthResponse {
    pub success: bool,
    pub session_token: Option<String>,
    pub user: Option<MyCloudUser>,
    pub error: Option<String>,
}

/// A share of the device.
#[derive(Debug)]
pub struct MyCloudShare {
    pub name: String,
    pub path: String,
    pub permissions: Vec<String>,
    pub accessible_by: Vec<String>,
}

/// The rights that membership in `groups` stands for, in alphabetical
/// order and each named once.
///
/// Any group gives `read`. The groups `administrators` and `users` give
/// `share` and `write` as well, and `administrators` also gives `admin`
/// and `delete`.
pub open spec fn mapped_permissions(groups: Seq<Seq<char>>) -> Seq<Seq<char>> {
    let administrator = groups.contains("administrators"@);
    let member = administrator || groups.contains("users"@);
    let first = if administrator {
        seq!["admin"@, "delete"@]
    } else {
        Seq::<Seq<char>>::empty()
    };
    let second = if groups.len() > 0 {
        seq!["read"@]
    } else {
        Seq::<Seq<char>>::empty()
    };
    let third = if member {
        seq!["share"@, "write"@]
    } else {
        Seq::<Seq<char>>::empty()
    };
    first + second + third
}

/// The rights of a user who is in `groups` on the device.
pub fn map_mycloud_permissions(groups: &Vec<String>) -> (permissions: Vec<String>)
    ensures
        text_views(permissions@) == mapped_permissions(text_views(groups@)),
{
    let administrators = "administrators".to_string();
    let users = "users".to_string();
    let mut administrator = false;
    let mut member = false;
    let mut i: usize = 0;
    while i < groups.len()
        invariant
            i <= groups.len(),
            administrators@ == "administrators"@,
            users@ == "users"@,
            administrator == text_views(groups@).take(i as int).contains("administrators"@),
            member == text_views(groups@).take(i as int).contains("users"@),
        decreases groups.len() - i,
    {
        let ghost seen = text_views(groups@).take(i as int);
        let ghost next = text_views(groups@).take(i + 1);
        proof {
            assert(next =~= seen.push(groups@[i as int]@));
            assert forall|name: Seq<char>| next.contains(name) <==> (seen.contains(name) || name
                == groups@[i as int]@) by {
                if next.contains(name) {
                    let k = choose|k: int| 0 <= k < next.len() && next[k] == name;
                    if k < seen.len() {
                        assert(seen[k] == name);
                    }
                }
                if seen.contains(name) {
                    let k = choose|k: int| 0 <= k < seen.len() && seen[k] == name;
                    assert(next[k] == name);
                }
                if name == groups@[i as int]@ {
                    assert(next[i as int] == name);
                }
            }
        }
        if groups[i] == administrators {
            administrator = true;
        }
        if groups[i] == users {
            member = true;
        }
        i += 1;
    }
    proof {
        assert(text_views(groups@).take(i as int) =~= text_views(groups@));
    }
    let mut permissions: Vec<String> = Vec::new();
    if administrator {
        permissions.push("admin".to_string());
        permissions.push("delete".to_string());
    }
    if groups.len() > 0 {
        permissions.push("read".to_string());
    }
    if administrator || member {
        permissions.push("share".to_string());
        permissions.push("write".to_string());
    }
    proof {
        assert(text_views(permissions@) =~= mapped_permissions(text_views(groups@)));
    }
    permissions
}

/// The local account for a user of the device.
pub open spec fn local_account(
    username: Seq<char>,
    email: Option<Seq<char>>,
    groups: Seq<Seq<char>>,
    is_active: bool,
    last_login: Option<Timestamp>,
    password_hash: Seq<char>,
    id: u128,
    now: Timestamp,
) -> UserView {
    UserView {
        id,
        username,
        email,
        password_hash,
        created_at: now,
        last_login,
        is_active,
        permissions: mapped_permissions(groups),
    }
}

/// The local account for `remote`, with the identifier `id` and made at
/// `now`: the device's name, address, last login and standing, the given
/// password hash, and the rights of the user's groups.
pub fn local_user(remote: &MyCloudUser, password_hash: &str, id: u128, now: Timestamp) -> (user:
    User)
    ensures
        user@ == local_account(
            remote.username@,
            optional_text(remote.email),
            text_views(remote.groups@),
            remote.is_active,
            remote.last_login,
            password_hash@,
            id,
            now,
        ),
{
    User {
        id,
        username: remote.username.clone(),
        email: clone_optional_text(&remote.email),
        password_hash: password_hash.to_string(),
        created_at: now,
        last_login: remote.last_login,
        is_active: remote.is_active,
        permissions: map_mycloud_permissions(&remote.groups),
    }
}

/// The local account for `remote`, under a fresh identifier and made
/// now. All else in the account is fixed by the arguments.
pub fn sync_user_to_local(remote: &MyCloudUser, password_hash: &str) -> (user: User)
    ensures
        exists|id: u128, now: Timestamp|
            is_random_uuid(id) && now.seconds >= 0 && now.nanos < 1_000_000_000 && user@
                == #[trigger] local_account(
                remote.username@,
                optional_text(remote.email),
                text_views(remote.groups@),
                remote.is_active,
                remote.last_login,
                password_hash@,
                id,
                now,
            ),
{
    let id = fresh_id();
    let now = current_time();
    local_user(remote, password_hash, id, now)
}

} // verus!
