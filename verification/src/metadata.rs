//! What the record of an entry says, given what was observed of it.

use crate::checksum::checksum_text;
use crate::path::{is_parent, is_skipped, names_nothing, split, steps_back};
use crate::text::{chars_of, text_of};
use crate::types::{FilePermissions, MetadataView, Timestamp};
use vstd::prelude::*;

verus! {

/// What the file system reports of one entry.
#[derive(Clone, Copy, Debug, PartialEq, Eq, Structural)]
pub struct EntryStat {
    pub is_directory: bool,
    /// The length in bytes.
    pub len: u64,
    /// When the entry was created, where the platform can tell.
    pub created: Option<Timestamp>,
    /// When the entry was last modified, where the platform can tell.
    pub modified: Option<Timestamp>,
}

/// The last piece that names something, or nothing if there is none.
pub open spec fn last_named(pieces: Seq<Seq<char>>) -> Seq<char>
    decreases pieces.len(),
{
    if pieces.len() == 0 {
        Seq::<char>::empty()
    } else if is_skipped(pieces.last()) {
        last_named(pieces.drop_last())
    } else {
        pieces.last()
    }
}

/// The base name of a location: its last segment other than `.` and the
/// empty segment. A location that ends in `..` has no base name, and
/// neither has one without segments; both give the empty name.
pub open spec fn base_name(location: Seq<char>) -> Seq<char> {
    let name = last_named(split(location));
    if is_parent(name) {
        Seq::<char>::empty()
    } else {
        name
    }
}

/// The index of the last `.` in `name`.
pub open spec fn last_dot(name: Seq<char>) -> Option<int>
    decreases name.len(),
{
    if name.len() == 0 {
        None
    } else if name.last() == '.' {
        Some(name.len() - 1)
    } else {
        last_dot(name.drop_last())
    }
}

/// The extension of a base name: what follows its last `.`, unless the
/// name has no `.` or only the one it begins with.
pub open spec fn extension(name: Seq<char>) -> Option<Seq<char>> {
    match last_dot(name) {
        Some(dot) => if dot > 0 {
            Some(name.skip(dot + 1))
        } else {
            None
        },
        None => None,
    }
}

/// The media type that the `mime_guess` crate lists first for an
/// extension, in the spelling that `mime::Mime` prints; `None` where it
/// lists none.
pub uninterp spec fn listed_media_type(extension: Seq<char>) -> Option<Seq<char>>;

/// `mime_guess::from_ext(..).first()`: the first media type on record for
/// the extension, printed as text.
#[verifier::external_body]
fn lookup_media_type(extension: &str) -> (found: Option<String>)
    ensures
        match listed_media_type(extension@) {
            Some(media_type) => found matches Some(text) && text@ == media_type,
            None => found is None,
        },
{
    match mime_guess::from_ext(extension).first() {
        Some(media_type) => Some(media_type.to_string()),
        None => None,
    }
}

/// The media type of a file by its name: the one listed for its
/// extension, and `application/octet-stream` where the name has no
/// extension or none is listed for it.
pub open spec fn content_kind(name: Seq<char>) -> Seq<char> {
    match extension(name) {
        Some(suffix) => match listed_media_type(suffix) {
            Some(media_type) => media_type,
            None => "application/octet-stream"@,
        },
        None => "application/octet-stream"@,
    }
}

/// The record of an entry.
///
/// `path` is its client-visible path and `location` where it lies,
/// `stat` what the file system reports of it, and `content` the bytes of
/// the file. A directory has size 0, the media type `inode/directory` and
/// no checksum. A time that the platform could not tell is replaced by
/// `now`, so the record then says when the entry was described, not when
/// it was made. Every capability is granted, and no parent is named.
pub open spec fn described(
    path: Seq<char>,
    location: Seq<char>,
    stat: EntryStat,
    content: Seq<u8>,
    owner_id: u128,
    id: u128,
    now: Timestamp,
) -> MetadataView {
    MetadataView {
        id,
        name: base_name(location),
        path,
        size: if stat.is_directory {
            0
        } else {
            stat.len
        },
        mime_type: if stat.is_directory {
            "inode/directory"@
        } else {
            content_kind(base_name(location))
        },
        checksum: if stat.is_directory {
            Seq::<char>::empty()
        } else {
            checksum_text(content)
        },
        created_at: match stat.created {
            Some(time) => time,
            None => now,
        },
        modified_at: match stat.modified {
            Some(time) => time,
            None => now,
        },
        owner_id,
        is_directory: stat.is_directory,
        parent_id: None,
        permissions: FilePermissions { read: true, write: true, delete: true, share: true },
    }
}

/// Checksum determinism: the records of two files with the same content
/// carry the same checksum, wherever the files lie and whatever else was
/// observed of them.
pub proof fn lemma_checksum_by_content(
    content: Seq<u8>,
    first_path: Seq<char>,
    first_location: Seq<char>,
    first_stat: EntryStat,
    second_path: Seq<char>,
    second_location: Seq<char>,
    second_stat: EntryStat,
    owner_id: u128,
    id: u128,
    now: Timestamp,
)
    requires
        !first_stat.is_directory,
        !second_stat.is_directory,
    ensures
        described(first_path, first_location, first_stat, content, owner_id, id, now).checksum
            == described(
            second_path,
            second_location,
            second_stat,
            content,
            owner_id,
            id,
            now,
        ).checksum,
        described(first_path, first_location, first_stat, content, owner_id, id, now).checksum
            == checksum_text(content),
{
}

/// A directory counts for no bytes and has no checksum, whatever was
/// observed of its length and whatever content was handed in.
pub proof fn lemma_directory_record(
    path: Seq<char>,
    location: Seq<char>,
    stat: EntryStat,
    content: Seq<u8>,
    owner_id: u128,
    id: u128,
    now: Timestamp,
)
    requires
        stat.is_directory,
    ensures
        described(path, location, stat, content, owner_id, id, now).size == 0,
        described(path, location, stat, content, owner_id, id, now).checksum.len() == 0,
        described(path, location, stat, content, owner_id, id, now).mime_type
            == "inode/directory"@,
        described(path, location, stat, content, owner_id, id, now).is_directory,
{
}

/// The base name of `location`.
pub fn base_name_of(location: &str) -> (name: String)
    ensures
        name@ == base_name(location@),
{
    let chars = chars_of(location);
    let mut candidate: Vec<char> = Vec::new();
    let mut current: Vec<char> = Vec::new();
    let ghost mut done: Seq<Seq<char>> = Seq::empty();
    let mut i: usize = 0;
    proof {
        assert(chars@.take(0) =~= Seq::<char>::empty());
        assert(split(Seq::<char>::empty()) =~= done.push(current@));
    }
    while i < chars.len()
        invariant
            i <= chars.len(),
            split(chars@.take(i as int)) == done.push(current@),
            candidate@ == last_named(done),
        decreases chars.len() - i,
    {
        let c = chars[i];
        proof {
            assert(chars@.take(i + 1).drop_last() =~= chars@.take(i as int));
            assert(chars@.take(i + 1).last() == c);
            assert(done.push(current@).drop_last() =~= done);
        }
        if c == '/' {
            if !names_nothing(&current) {
                candidate = current;
            }
            proof {
                done = done.push(current@);
            }
            current = Vec::new();
        } else {
            current.push(c);
        }
        i += 1;
    }
    proof {
        assert(chars@.take(i as int) =~= location@);
        assert(done.push(current@).drop_last() =~= done);
    }
    if !names_nothing(&current) {
        candidate = current;
    }
    if steps_back(&candidate) {
        String::new()
    } else {
        let name = text_of(&candidate, 0, candidate.len());
        proof {
            assert(candidate@.subrange(0, candidate.len() as int) =~= candidate@);
        }
        name
    }
}

/// Where the extension of `name` begins, if it has one.
fn extension_start(name: &Vec<char>) -> (start: Option<usize>)
    ensures
        match extension(name@) {
            Some(suffix) => start matches Some(at) && at <= name.len() && suffix == name@.skip(
                at as int,
            ),
            None => start is None,
        },
{
    let mut i: usize = name.len();
    proof {
        assert(name@.take(i as int) =~= name@);
    }
    while i > 0
        invariant
            i <= name.len(),
            last_dot(name@) == last_dot(name@.take(i as int)),
        decreases i,
    {
        if name[i - 1] == '.' {
            proof {
                assert(name@.take(i as int).last() == '.');
            }
            if i - 1 > 0 {
                return Some(i);
            } else {
                return None;
            }
        }
        proof {
            assert(name@.take(i as int).drop_last() =~= name@.take(i - 1));
        }
        i -= 1;
    }
    None
}

/// The media type of a file called `name`.
pub fn content_kind_of(name: &str) -> (kind: String)
    ensures
        kind@ == content_kind(name@),
{
    let chars = chars_of(name);
    match extension_start(&chars) {
        Some(start) => {
            let suffix = text_of(&chars, start, chars.len());
            proof {
                assert(chars@.subrange(start as int, chars.len() as int) =~= chars@.skip(
                    start as int,
                ));
            }
            match lookup_media_type(suffix.as_str()) {
                Some(media_type) => media_type,
                None => "application/octet-stream".to_string(),
            }
        },
        None => "application/octet-stream".to_string(),
    }
}

/// `id` has the shape of a random (version 4) UUID: the version digit is 4
/// and the variant bits are `10`.
pub open spec fn is_random_uuid(id: u128) -> bool {
    id & 0x0000_0000_0000_f000_c000_0000_0000_0000u128
        == 0x0000_0000_0000_4000_8000_0000_0000_0000u128
}

/// `Uuid::new_v4`: a fresh random identifier, as its 128 bits. Which one
/// comes back is left open; that it is marked as version 4 is not.
#[verifier::external_body]
pub(crate) fn fresh_id() -> (id: u128)
    ensures
        is_random_uuid(id),
{
    uuid::Uuid::new_v4().as_u128()
}

/// `Utc::now`: the current time by the system clock, which `chrono` reads
/// as a span since the Unix epoch.
#[verifier::external_body]
pub(crate) fn current_time() -> (now: Timestamp)
    ensures
        now.seconds >= 0,
        now.nanos < 1_000_000_000,
{
    let now = chrono::Utc::now();
    Timestamp { seconds: now.timestamp(), nanos: now.timestamp_subsec_nanos() }
}

} // verus!
