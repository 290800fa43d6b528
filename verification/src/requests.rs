//! What clients ask for, and the rules by which a request is read.

use crate::metadata::current_time;
use crate::text::chars_of;
use crate::types::{FileChange, FileMetadata, MetadataView, Timestamp, User, UserView};
use vstd::prelude::*;
use vstd::string::StringExecFns;

verus! {

/// A request to log in.
#[derive(Debug)]
pub struct LoginRequest {
    pub username: String,
    pub password: String,
    pub device_id: Option<String>,
    pub device_name: Option<String>,
}

/// A request to upload a file into the directory `path`.
#[derive(Debug)]
pub struct UploadRequest {
    pub path: String,
    pub overwrite: Option<bool>,
}

/// The answer to an upload.
#[derive(Debug)]
pub struct UploadResponse {
    pub file_id: u128,
    pub path: String,
    pub size: u64,
    pub checksum: String,
}

/// A request to make the directory `name` in the directory `path`.
#[derive(Debug)]
pub struct CreateFolderRequest {
    pub path: String,
    pub name: String,
}

/// A request for the changes since the last synchronization.
#[derive(Debug)]
pub struct SyncRequest {
    pub folders: Vec<String>,
    pub last_sync: Option<Timestamp>,
}

/// The path of the entry `name` in `directory`: the two with one
/// separator between them.
pub open spec fn child(directory: Seq<char>, name: Seq<char>) -> Seq<char> {
    if directory.len() > 0 && directory.last() == '/' {
        directory + name
    } else {
        directory.push('/') + name
    }
}

/// The client-visible path of the entry `name` in `directory`.
pub fn child_path(directory: &str, name: &str) -> (path: String)
    ensures
        path@ == child(directory@, name@),
{
    let chars = chars_of(directory);
    let mut path = directory.to_string();
    if !(chars.len() > 0 && chars[chars.len() - 1] == '/') {
        path.append("/");
        proof {
            reveal_strlit("/");
            assert("/"@ =~= seq!['/']);
            assert(directory@ + "/"@ =~= directory@.push('/'));
        }
    }
    path.append(name);
    path
}

/// How far back a client is brought up to date that names no cursor, in
/// seconds: one day.
pub const DEFAULT_SYNC_WINDOW_SECONDS: i64 = 86_400;

impl UploadRequest {
    /// The path that a file called `filename` is uploaded to.
    pub fn file_path(&self, filename: &str) -> (path: String)
        ensures
            path@ == child(self.path@, filename@),
    {
        child_path(self.path.as_str(), filename)
    }

    /// Whether a file that is already there may be replaced: only where
    /// the request says so.
    pub fn may_overwrite(&self) -> (yes: bool)
        ensures
            yes == (self.overwrite == Some(true)),
    {
        match self.overwrite {
            Some(yes) => yes,
            None => false,
        }
    }
}

impl UploadResponse {
    /// The answer for a file that was stored with the record `stored`.
    pub fn for_record(stored: &FileMetadata) -> (answer: UploadResponse)
        ensures
            answer.file_id == stored.id,
            answer.path@ == stored.path@,
            answer.size == stored.size,
            answer.checksum@ == stored.checksum@,
    {
        UploadResponse {
            file_id: stored.id,
            path: stored.path.clone(),
            size: stored.size,
            checksum: stored.checksum.clone(),
        }
    }
}

impl CreateFolderRequest {
    /// The path of the directory to make.
    pub fn folder_path(&self) -> (path: String)
        ensures
            path@ == child(self.path@, self.name@),
    {
        child_path(self.path.as_str(), self.name.as_str())
    }
}

impl SyncRequest {
    /// The cursor of the request at `now`: the time of the last
    /// synchronization, or one day before `now` where the client names
    /// none. The day is cut short where the calendar of 64 bits ends.
    pub fn cursor(&self, now: Timestamp) -> (since: Timestamp)
        ensures
            since == match self.last_sync {
                Some(last) => last,
                None => Timestamp {
                    seconds: if now.seconds - 86_400 < i64::MIN {
                        i64::MIN
                    } else {
                        (now.seconds - 86_400) as i64
                    },
                    nanos: now.nanos,
                },
            },
    {
        match self.last_sync {
            Some(last) => last,
            None => {
                let seconds = if now.seconds < i64::MIN + DEFAULT_SYNC_WINDOW_SECONDS {
                    i64::MIN
                } else {
                    now.seconds - DEFAULT_SYNC_WINDOW_SECONDS
                };
                Timestamp { seconds, nanos: now.nanos }
            },
        }
    }
}

/// Why a file may not be shared by a user.
#[derive(Clone, Copy, Debug, PartialEq, Eq, Structural)]
pub enum ShareRefusal {
    /// The file belongs to someone else.
    AccessDenied,
    /// There is no record of the file.
    FileNotFound,
}

impl ShareRefusal {
    /// The refusal in words.
    pub fn message(&self) -> (text: &'static str)
        ensures
            text@ == match *self {
                ShareRefusal::AccessDenied => "Access denied"@,
                ShareRefusal::FileNotFound => "File not found"@,
            },
    {
        match self {
            ShareRefusal::AccessDenied => "Access denied",
            ShareRefusal::FileNotFound => "File not found",
        }
    }
}

/// Whether `user_id` may share the file with the record `record`: only
/// its owner may.
pub fn share_access(record: &Option<FileMetadata>, user_id: u128) -> (verdict: Result<
    (),
    ShareRefusal,
>)
    ensures
        verdict == match *record {
            Some(found) => if found.owner_id == user_id {
                Ok::<(), ShareRefusal>(())
            } else {
                Err::<(), ShareRefusal>(ShareRefusal::AccessDenied)
            },
            None => Err::<(), ShareRefusal>(ShareRefusal::FileNotFound),
        },
{
    match record {
        Some(found) => if found.owner_id == user_id {
            Ok(())
        } else {
            Err(ShareRefusal::AccessDenied)
        },
        None => Err(ShareRefusal::FileNotFound),
    }
}

/// Lays the owner over a record: the service describes an entry without
/// knowing whose it is.
pub fn assign_owner(record: &mut FileMetadata, owner_id: u128)
    ensures
        final(record)@ == (MetadataView { owner_id, ..old(record)@ }),
{
    record.owner_id = owner_id;
}

/// The first administrator's account.
pub open spec fn administrator_account(
    username: Seq<char>,
    password_hash: Seq<char>,
    id: u128,
    now: Timestamp,
) -> UserView {
    UserView {
        id,
        username,
        email: Some(username + "@localhost"@),
        password_hash,
        created_at: now,
        last_login: None,
        is_active: true,
        permissions: seq!["read"@, "write"@, "delete"@, "share"@, "admin"@],
    }
}

/// The account of the first administrator: active, with every right, and
/// with the address of the name at `localhost`.
pub fn initial_admin(username: &str, password_hash: String, id: u128, now: Timestamp) -> (user:
    User)
    ensures
        user@ == administrator_account(username@, password_hash@, id, now),
{
    let mut email = username.to_string();
    email.append("@localhost");
    let permissions = vec![
        "read".to_string(),
        "write".to_string(),
        "delete".to_string(),
        "share".to_string(),
        "admin".to_string(),
    ];
    proof {
        assert(crate::types::text_views(permissions@) =~= seq![
            "read"@,
            "write"@,
            "delete"@,
            "share"@,
            "admin"@,
        ]);
    }
    User {
        id,
        username: username.to_string(),
        email: Some(email),
        password_hash,
        created_at: now,
        last_login: None,
        is_active: true,
        permissions,
    }
}

/// The answer to a login.
#[derive(Debug)]
pub struct LoginResponse {
    pub token: String,
    pub user: User,
    pub expires_at: Timestamp,
}

impl LoginResponse {
    /// The answer to a login at `now`: the token is good for one day.
    /// `None` if that day ends beyond what can be counted in 64 bits.
    pub fn issued(token: String, user: User, now: Timestamp) -> (answer: Option<LoginResponse>)
        ensures
            match answer {
                Some(made) => {
                    &&& made.token == token
                    &&& made.user == user
                    &&& made.expires_at.seconds == now.seconds + 86_400
                    &&& made.expires_at.nanos == now.nanos
                },
                None => now.seconds + 86_400 > i64::MAX,
            },
    {
        match now.plus_seconds(86_400) {
            Some(expires_at) => Some(LoginResponse { token, user, expires_at }),
            None => None,
        }
    }
}

/// The answer to a request for changes.
#[derive(Debug)]
pub struct SyncResponse {
    pub changes: Vec<FileChange>,
    /// A token that names this answer.
    pub sync_token: String,
}

/// A link under which a file can be fetched without logging in.
#[derive(Debug)]
pub struct ShareLink {
    pub id: u128,
    pub file_id: u128,
    pub created_by: u128,
    pub share_token: String,
    pub expires_at: Option<Timestamp>,
    pub password_protected: bool,
    pub download_count: u32,
    pub max_downloads: Option<u32>,
    pub created_at: Timestamp,
}

/// For how long a link is good where the request does not say, in hours.
pub const DEFAULT_SHARE_HOURS: i64 = 24;

impl ShareLink {
    /// A new link to the file `file_id`, made by `created_by` at `now`.
    ///
    /// The link is good for `expires_in_hours` hours, or for 24 where
    /// none are given. It is not protected by a password and has not
    /// been used. `None` if the end of its time lies beyond what can be
    /// counted in 64 bits.
    pub fn issue(
        id: u128,
        file_id: u128,
        created_by: u128,
        share_token: String,
        expires_in_hours: Option<i64>,
        max_downloads: Option<u32>,
        now: Timestamp,
    ) -> (link: Option<ShareLink>)
        ensures
            ({
                let hours = match expires_in_hours {
                    Some(hours) => hours,
                    None => 24,
                };
                let end = now.seconds + hours * 3600;
                match link {
                    Some(made) => {
                        &&& made.id == id
                        &&& made.file_id == file_id
                        &&& made.created_by == created_by
                        &&& made.share_token == share_token
                        &&& made.expires_at == Some(
                            Timestamp { seconds: end as i64, nanos: now.nanos },
                        )
                        &&& i64::MIN <= end <= i64::MAX
                        &&& !made.password_protected
                        &&& made.download_count == 0
                        &&& made.max_downloads == max_downloads
                        &&& made.created_at == now
                    },
                    None => end < i64::MIN || end > i64::MAX,
                }
            }),
    {
        let hours = match expires_in_hours {
            Some(hours) => hours,
            None => DEFAULT_SHARE_HOURS,
        };
        let span: i128 = hours as i128 * 3600;
        let end: i128 = now.seconds as i128 + span;
        if end < i64::MIN as i128 || end > i64::MAX as i128 {
            return None;
        }
        Some(
            ShareLink {
                id,
                file_id,
                created_by,
                share_token,
                expires_at: Some(Timestamp { seconds: end as i64, nanos: now.nanos }),
                password_protected: false,
                download_count: 0,
                max_downloads,
                created_at: now,
            },
        )
    }
}

/// The envelope of every answer: either the data asked for or the reason
/// why there is none, and when the answer was made.
#[derive(Debug)]
pub struct ApiResponse<T> {
    pub success: bool,
    pub data: Option<T>,
    pub error: Option<String>,
    pub timestamp: Timestamp,
}

impl<T> ApiResponse<T> {
    /// The answer that carries `data`, made now.
    pub fn success(data: T) -> (answer: ApiResponse<T>)
        ensures
            answer.success,
            answer.data == Some(data),
            answer.error is None,
            answer.timestamp.seconds >= 0,
            answer.timestamp.nanos < 1_000_000_000,
    {
        ApiResponse { success: true, data: Some(data), error: None, timestamp: current_time() }
    }

    /// The answer that carries the reason `message` and no data, made
    /// now.
    pub fn error(message: String) -> (answer: ApiResponse<T>)
        ensures
            !answer.success,
            answer.data is None,
            answer.error == Some(message),
            answer.timestamp.seconds >= 0,
            answer.timestamp.nanos < 1_000_000_000,
    {
        ApiResponse { success: false, data: None, error: Some(message), timestamp: current_time() }
    }
}

} // verus!
