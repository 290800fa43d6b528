//! A picture of the disk, to say what the steps of the storage service
//! come to.
//!
//! The service hands out steps and the caller carries them out. What a
//! step does to the disk is the file system's business; this module
//! writes it down as a function from one picture of the disk to the next:
//! a write puts the content in place, a removal takes an entry away with
//! all that lies below it, a rename takes an entry to its new place. The
//! pictures describe steps that succeed. A step that fails on the real
//! disk ends the operation, and nothing is claimed here of what it leaves
//! behind. The pictures know no links: a step that confirms a location
//! changes nothing in them.

use crate::filesystem::{EntryKind, StepView};
use crate::path::{is_plain, push_segment, under_root};
use vstd::prelude::*;

verus! {

/// What stands at a location.
pub enum Node {
    /// A file with this content.
    File(Seq<u8>),
    /// A directory.
    Directory,
}

/// A picture of the disk: what stands at each location where something
/// stands.
pub type Disk = Map<Seq<char>, Node>;

/// What a caller finds at a location.
pub open spec fn found(disk: Disk, location: Seq<char>) -> Option<EntryKind> {
    if disk.dom().contains(location) {
        match disk[location] {
            Node::File(_) => Some(EntryKind::File),
            Node::Directory => Some(EntryKind::Directory),
        }
    } else {
        None
    }
}

/// What a caller reads at a location: the content of the file there.
pub open spec fn content(disk: Disk, location: Seq<char>) -> Option<Seq<u8>> {
    if disk.dom().contains(location) {
        match disk[location] {
            Node::File(bytes) => Some(bytes),
            Node::Directory => None,
        }
    } else {
        None
    }
}

/// `location` is an entry of `directory` itself, not of a directory
/// below it.
pub open spec fn is_entry_of(directory: Seq<char>, location: Seq<char>) -> bool {
    exists|name: Seq<char>| is_plain(name) && location == #[trigger] push_segment(directory, name)
}

/// What a caller finds when it reads a directory: the locations of its
/// entries.
pub open spec fn entries(disk: Disk, directory: Seq<char>) -> Set<Seq<char>> {
    Set::new(|location: Seq<char>| disk.dom().contains(location) && is_entry_of(directory, location))
}

/// The disk after `directory` and every directory above it that was
/// missing have been made. What was there stays as it was.
pub open spec fn after_create_dir_all(disk: Disk, directory: Seq<char>) -> Disk {
    Map::new(
        |location: Seq<char>| disk.dom().contains(location) || under_root(location, directory),
        |location: Seq<char>|
            if disk.dom().contains(location) {
                disk[location]
            } else {
                Node::Directory
            },
    )
}

/// The disk after a write: the location is a file with the content
/// `data`, whatever stood there before.
pub open spec fn after_write(disk: Disk, location: Seq<char>, data: Seq<u8>) -> Disk {
    disk.insert(location, Node::File(data))
}

/// The disk after the removal of a file: the file is gone, alone.
pub open spec fn after_remove_file(disk: Disk, location: Seq<char>) -> Disk {
    disk.remove(location)
}

/// The disk after the removal of a directory: it is gone with all that
/// lay below it.
pub open spec fn after_remove_tree(disk: Disk, location: Seq<char>) -> Disk {
    disk.remove_keys(Set::new(|below: Seq<char>| under_root(location, below)))
}

/// The disk after a rename. A file is taken from `from` to `to` and
/// replaces what stood there. A directory is taken there with all that
/// lay below it. Where nothing stands at `from`, nothing changes.
pub open spec fn after_rename(disk: Disk, from: Seq<char>, to: Seq<char>) -> Disk {
    if !disk.dom().contains(from) {
        disk
    } else if disk[from] is File {
        disk.remove(from).insert(to, disk[from])
    } else {
        let back = |location: Seq<char>| from + location.skip(to.len() as int);
        let arrives = |location: Seq<char>|
            to.is_prefix_of(location) && under_root(from, back(location)) && disk.dom().contains(
                back(location),
            );
        Map::new(
            |location: Seq<char>|
                arrives(location) || (disk.dom().contains(location) && !under_root(from, location)),
            |location: Seq<char>|
                if arrives(location) {
                    disk[back(location)]
                } else {
                    disk[location]
                },
        )
    }
}

/// The disk after a copy of a file: `to` is a file with the content of
/// the file at `from`, whatever stood there before. Where no file stands
/// at `from`, nothing changes.
pub open spec fn after_copy(disk: Disk, from: Seq<char>, to: Seq<char>) -> Disk {
    if disk.dom().contains(from) && disk[from] is File {
        disk.insert(to, disk[from])
    } else {
        disk
    }
}

/// The disk after one step of an operation whose request carries the
/// content `data`. A step that only looks at the disk leaves it as it is.
pub open spec fn after_step(disk: Disk, step: StepView, data: Seq<u8>) -> Disk {
    match step {
        StepView::MakeDirectories(location) => after_create_dir_all(disk, location),
        StepView::Write(location) => after_write(disk, location, data),
        StepView::RemoveFile(location) => after_remove_file(disk, location),
        StepView::RemoveTree(location) => after_remove_tree(disk, location),
        StepView::Rename { from, to } => after_rename(disk, from, to),
        StepView::Copy { from, to } => after_copy(disk, from, to),
        StepView::Confirm(_) => disk,
        StepView::Read(_) => disk,
        StepView::Describe(_) => disk,
        StepView::List(_) => disk,
        StepView::Measure(_) => disk,
        StepView::Watch { location, debounce_millis } => disk,
    }
}

/// The disk after the first `count` of `steps`, one after the other.
pub open spec fn after_first(disk: Disk, steps: Seq<StepView>, count: nat, data: Seq<u8>) -> Disk
    decreases count,
{
    if count == 0 {
        disk
    } else {
        after_step(after_first(disk, steps, (count - 1) as nat, data), steps[count - 1], data)
    }
}

/// The disk after all of `steps`, one after the other.
pub open spec fn after_steps(disk: Disk, steps: Seq<StepView>, data: Seq<u8>) -> Disk {
    after_first(disk, steps, steps.len(), data)
}

} // verus!
