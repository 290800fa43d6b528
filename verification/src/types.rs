//! The records that the engine hands out.

use vstd::prelude::*;

verus! {

/// A point in time: whole seconds since the Unix epoch and the nanoseconds
/// into that second. Points are ordered by the seconds, then by the
/// nanoseconds.
#[derive(Clone, Copy, Debug, PartialEq, Eq, Structural)]
pub struct Timestamp {
    pub seconds: i64,
    pub nanos: u32,
}

impl Timestamp {
    /// `self` lies strictly before `other`.
    pub open spec fn before(self, other: Timestamp) -> bool {
        self.seconds < other.seconds || (self.seconds == other.seconds && self.nanos
            < other.nanos)
    }

    /// `self` lies before `other` or is the same point.
    pub open spec fn not_after(self, other: Timestamp) -> bool {
        !other.before(self)
    }

    /// The point `seconds` after `self`, or `None` if it lies beyond what
    /// can be counted in 64 bits.
    pub fn plus_seconds(&self, seconds: i64) -> (later: Option<Timestamp>)
        ensures
            match later {
                Some(point) => point.seconds == self.seconds + seconds && point.nanos
                    == self.nanos,
                None => self.seconds + seconds < i64::MIN || self.seconds + seconds > i64::MAX,
            },
    {
        match self.seconds.checked_add(seconds) {
            Some(sum) => Some(Timestamp { seconds: sum, nanos: self.nanos }),
            None => None,
        }
    }

    /// Whether `self` lies strictly after `other`.
    pub fn is_after(&self, other: &Timestamp) -> (later: bool)
        ensures
            later == other.before(*self),
    {
        other.seconds < self.seconds || (other.seconds == self.seconds && other.nanos
            < self.nanos)
    }
}

/// What may be done with an entry.
#[derive(Clone, Copy, Debug, PartialEq, Eq, Structural)]
pub struct FilePermissions {
    pub read: bool,
    pub write: bool,
    pub delete: bool,
    pub share: bool,
}

impl FilePermissions {
    /// Every capability granted: what a freshly described entry gets,
    /// until the caller lays the real policy over it.
    pub fn all() -> (permissions: FilePermissions)
        ensures
            permissions == (FilePermissions { read: true, write: true, delete: true, share: true }),
    {
        FilePermissions { read: true, write: true, delete: true, share: true }
    }
}

/// The record of one entry of the store.
#[derive(Debug)]
pub struct FileMetadata {
    /// The 128 bits of the entry's identifier.
    pub id: u128,
    /// The base name.
    pub name: String,
    /// The client-visible path.
    pub path: String,
    /// The length in bytes; 0 for a directory.
    pub size: u64,
    /// The media type guessed from the name; `inode/directory` for a
    /// directory.
    pub mime_type: String,
    /// The checksum of the content; empty for a directory.
    pub checksum: String,
    pub created_at: Timestamp,
    pub modified_at: Timestamp,
    /// The 128 bits of the owner's identifier.
    pub owner_id: u128,
    pub is_directory: bool,
    /// The record of the directory that holds the entry, where the caller
    /// has filled it in.
    pub parent_id: Option<u128>,
    pub permissions: FilePermissions,
}

/// What a [`FileMetadata`] says, with its texts as character sequences.
pub struct MetadataView {
    pub id: u128,
    pub name: Seq<char>,
    pub path: Seq<char>,
    pub size: u64,
    pub mime_type: Seq<char>,
    pub checksum: Seq<char>,
    pub created_at: Timestamp,
    pub modified_at: Timestamp,
    pub owner_id: u128,
    pub is_directory: bool,
    pub parent_id: Option<u128>,
    pub permissions: FilePermissions,
}

impl View for FileMetadata {
    type V = MetadataView;

    open spec fn view(&self) -> MetadataView {
        MetadataView {
            id: self.id,
            name: self.name@,
            path: self.path@,
            size: self.size,
            mime_type: self.mime_type@,
            checksum: self.checksum@,
            created_at: self.created_at,
            modified_at: self.modified_at,
            owner_id: self.owner_id,
            is_directory: self.is_directory,
            parent_id: self.parent_id,
            permissions: self.permissions,
        }
    }
}

impl Clone for FileMetadata {
    fn clone(&self) -> (copy: FileMetadata)
        ensures
            copy@ == self@,
    {
        FileMetadata {
            id: self.id,
            name: self.name.clone(),
            path: self.path.clone(),
            size: self.size,
            mime_type: self.mime_type.clone(),
            checksum: self.checksum.clone(),
            created_at: self.created_at,
            modified_at: self.modified_at,
            owner_id: self.owner_id,
            is_directory: self.is_directory,
            parent_id: self.parent_id,
            permissions: self.permissions,
        }
    }
}

/// What happened to an entry.
#[derive(Clone, Copy, Debug, PartialEq, Eq, Structural)]
pub enum ChangeType {
    Created,
    Modified,
    Deleted,
    Moved,
}

/// One entry of the change feed.
#[derive(Debug)]
pub struct FileChange {
    pub file_id: u128,
    pub change_type: ChangeType,
    pub path: String,
    /// The record as it stood at `timestamp`.
    pub metadata: Option<FileMetadata>,
    pub timestamp: Timestamp,
}

/// What a [`FileChange`] says.
pub struct ChangeView {
    pub file_id: u128,
    pub change_type: ChangeType,
    pub path: Seq<char>,
    pub metadata: Option<MetadataView>,
    pub timestamp: Timestamp,
}

impl View for FileChange {
    type V = ChangeView;

    open spec fn view(&self) -> ChangeView {
        ChangeView {
            file_id: self.file_id,
            change_type: self.change_type,
            path: self.path@,
            metadata: match self.metadata {
                Some(record) => Some(record@),
                None => None,
            },
            timestamp: self.timestamp,
        }
    }
}

impl Clone for FileChange {
    fn clone(&self) -> (copy: FileChange)
        ensures
            copy@ == self@,
    {
        FileChange {
            file_id: self.file_id,
            change_type: self.change_type,
            path: self.path.clone(),
            metadata: match &self.metadata {
                Some(record) => Some(record.clone()),
                None => None,
            },
            timestamp: self.timestamp,
        }
    }
}

/// The character sequences of `texts`, one for one.
pub open spec fn text_views(texts: Seq<String>) -> Seq<Seq<char>> {
    texts.map_values(|text: String| text@)
}

/// The character sequence of a text that may be missing.
pub open spec fn optional_text(text: Option<String>) -> Option<Seq<char>> {
    match text {
        Some(text) => Some(text@),
        None => None,
    }
}

/// A copy of a text that may be missing.
pub fn clone_optional_text(text: &Option<String>) -> (copy: Option<String>)
    ensures
        optional_text(copy) == optional_text(*text),
{
    match text {
        Some(text) => Some(text.clone()),
        None => None,
    }
}

/// A copy of a list of texts.
pub fn clone_texts(texts: &Vec<String>) -> (copy: Vec<String>)
    ensures
        text_views(copy@) == text_views(texts@),
{
    let mut copy: Vec<String> = Vec::new();
    let mut i: usize = 0;
    while i < texts.len()
        invariant
            i <= texts.len(),
            text_views(copy@) == text_views(texts@.take(i as int)),
        decreases texts.len() - i,
    {
        copy.push(texts[i].clone());
        proof {
            assert(text_views(texts@.take(i + 1)) =~= text_views(texts@.take(i as int)).push(
                texts@[i as int]@,
            ));
        }
        i += 1;
    }
    proof {
        assert(texts@.take(i as int) =~= texts@);
    }
    copy
}

/// An account of the server.
#[derive(Debug)]
pub struct User {
    /// The 128 bits of the user's identifier.
    pub id: u128,
    pub username: String,
    pub email: Option<String>,
    pub password_hash: String,
    pub created_at: Timestamp,
    pub last_login: Option<Timestamp>,
    pub is_active: bool,
    /// The names of what the user may do.
    pub permissions: Vec<String>,
}

/// What a [`User`] says.
pub struct UserView {
    pub id: u128,
    pub username: Seq<char>,
    pub email: Option<Seq<char>>,
    pub password_hash: Seq<char>,
    pub created_at: Timestamp,
    pub last_login: Option<Timestamp>,
    pub is_active: bool,
    pub permissions: Seq<Seq<char>>,
}

impl View for User {
    type V = UserView;

    open spec fn view(&self) -> UserView {
        UserView {
            id: self.id,
            username: self.username@,
            email: optional_text(self.email),
            password_hash: self.password_hash@,
            created_at: self.created_at,
            last_login: self.last_login,
            is_active: self.is_active,
            permissions: text_views(self.permissions@),
        }
    }
}

impl Clone for User {
    fn clone(&self) -> (copy: User)
        ensures
            copy@ == self@,
    {
        User {
            id: self.id,
            username: self.username.clone(),
            email: clone_optional_text(&self.email),
            password_hash: self.password_hash.clone(),
            created_at: self.created_at,
            last_login: self.last_login,
            is_active: self.is_active,
            permissions: clone_texts(&self.permissions),
        }
    }
}

} // verus!
