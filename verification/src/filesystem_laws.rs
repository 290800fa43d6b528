//! What holds between the operations of the storage service, for every
//! root, limit and path.
//!
//! The service decides and the caller acts. Some of these laws speak of
//! the decisions alone. The others follow an operation through: they
//! take a picture of the disk, let the steps that the service hands out
//! do to it what [`crate::disk`] says they do, and look at what the next
//! operation then finds.

use crate::disk::{after_first, after_steps, content, entries, found, is_entry_of, Disk};
use crate::error::StorageError;
use crate::filesystem::{making, steps_contained, EntryKind, FileSystemService, StepView};
use crate::path::{
    all_plain, join, normalize, relativized, resolved, resolved_lineage, split, under_root,
};
use crate::path_laws::{
    lemma_lineage, lemma_resolve_contained, lemma_resolve_nested, lemma_resolve_then_relativize,
};
use vstd::prelude::*;

verus! {

/// The step names `location` as a place to look at or to change.
pub open spec fn touches(step: StepView, location: Seq<char>) -> bool {
    match step {
        StepView::Confirm(_) => false,
        StepView::MakeDirectories(place) => place == location,
        StepView::Write(place) => place == location,
        StepView::Read(place) => place == location,
        StepView::RemoveFile(place) => place == location,
        StepView::RemoveTree(place) => place == location,
        StepView::Rename { from, to } => from == location || to == location,
        StepView::Copy { from, to } => from == location || to == location,
        StepView::Describe(place) => place == location,
        StepView::List(place) => place == location,
        StepView::Measure(place) => place == location,
        StepView::Watch { location: place, debounce_millis } => place == location,
    }
}

/// One of the first `before` steps confirms a lineage in which
/// `location` stands.
pub open spec fn confirmed(steps: Seq<StepView>, before: int, location: Seq<char>) -> bool {
    exists|j: int|
        0 <= j < before && j < steps.len() && (#[trigger] steps[j] matches StepView::Confirm(line)
            && line.contains(location))
}

/// No step looks at a location or changes it before the location has
/// been confirmed.
pub open spec fn confirms_first(steps: Seq<StepView>) -> bool {
    forall|i: int, location: Seq<char>|
        0 <= i < steps.len() && #[trigger] touches(steps[i], location) ==> confirmed(
            steps,
            i,
            location,
        )
}

/// What holds of every answer of the service, whatever the paths hold
/// and whatever was found: each location in it lies under the root, and
/// none is touched before it has been confirmed.
pub open spec fn is_sound(root: Seq<char>, outcome: Result<Seq<StepView>, StorageError>) -> bool {
    outcome matches Ok(steps) ==> steps_contained(root, steps) && confirms_first(steps)
}

/// Steps that begin by confirming a lineage, and then touch nothing but
/// members of it, confirm first.
proof fn lemma_one_confirmation(steps: Seq<StepView>, line: Seq<Seq<char>>)
    requires
        steps.len() >= 1,
        steps[0] == StepView::Confirm(line),
        forall|i: int, location: Seq<char>|
            1 <= i < steps.len() && #[trigger] touches(steps[i], location) ==> line.contains(
                location,
            ),
    ensures
        confirms_first(steps),
{
    assert forall|i: int, location: Seq<char>|
        0 <= i < steps.len() && #[trigger] touches(steps[i], location) implies confirmed(
        steps,
        i,
        location,
    ) by {
        assert(steps[0] matches StepView::Confirm(first) && first.contains(location));
    }
}

/// Steps that begin by confirming two lineages, and then touch nothing
/// but members of them, confirm first.
proof fn lemma_two_confirmations(
    steps: Seq<StepView>,
    first: Seq<Seq<char>>,
    second: Seq<Seq<char>>,
)
    requires
        steps.len() >= 2,
        steps[0] == StepView::Confirm(first),
        steps[1] == StepView::Confirm(second),
        forall|i: int, location: Seq<char>|
            2 <= i < steps.len() && #[trigger] touches(steps[i], location) ==> first.contains(
                location,
            ) || second.contains(location),
    ensures
        confirms_first(steps),
{
    assert forall|i: int, location: Seq<char>|
        0 <= i < steps.len() && #[trigger] touches(steps[i], location) implies confirmed(
        steps,
        i,
        location,
    ) by {
        if first.contains(location) {
            assert(steps[0] matches StepView::Confirm(line) && line.contains(location));
        } else {
            assert(steps[1] matches StepView::Confirm(line) && line.contains(location));
        }
    }
}

/// No operation on a path is sent outside the root, and none touches a
/// location that it has not had confirmed: whatever the path holds,
/// whatever the size and whatever was found, the answer is sound.
pub proof fn lemma_operations_sound(
    service: FileSystemService,
    path: Seq<char>,
    size: nat,
    found: Option<EntryKind>,
)
    ensures
        is_sound(service.root(), service.save_outcome(path, size)),
        is_sound(service.root(), service.read_outcome(path, found)),
        is_sound(service.root(), service.delete_outcome(path, found)),
        is_sound(service.root(), service.create_outcome(path)),
        is_sound(service.root(), service.listing_outcome(path, found)),
        is_sound(service.root(), service.metadata_outcome(path, found)),
        is_sound(service.root(), service.size_outcome(path, found)),
        is_sound(service.root(), service.watch_outcome(path)),
{
    let root = service.root();
    lemma_lineage(root, path);
    if let Some(line) = resolved_lineage(root, path) {
        assert(line.contains(line[0]));
        if line.len() > 1 {
            assert(line.contains(line[1]));
        }
        if let Ok(steps) = service.save_outcome(path, size) {
            lemma_one_confirmation(steps, line);
        }
        if let Ok(steps) = service.read_outcome(path, found) {
            lemma_one_confirmation(steps, line);
        }
        if let Ok(steps) = service.delete_outcome(path, found) {
            lemma_one_confirmation(steps, line);
        }
        if let Ok(steps) = service.create_outcome(path) {
            lemma_one_confirmation(steps, line);
        }
        if let Ok(steps) = service.listing_outcome(path, found) {
            lemma_one_confirmation(steps, line);
        }
        if let Ok(steps) = service.metadata_outcome(path, found) {
            lemma_one_confirmation(steps, line);
        }
        if let Ok(steps) = service.size_outcome(path, found) {
            lemma_one_confirmation(steps, line);
        }
        if let Ok(steps) = service.watch_outcome(path) {
            lemma_one_confirmation(steps, line);
        }
    }
}

/// The same holds of the operations that take an entry from one path to
/// another: whatever the two paths hold and whatever was found, the
/// answer is sound.
pub proof fn lemma_transfers_sound(
    service: FileSystemService,
    from: Seq<char>,
    to: Seq<char>,
    found: Option<EntryKind>,
)
    ensures
        is_sound(service.root(), service.move_outcome(from, to, found)),
        is_sound(service.root(), service.copy_outcome(from, to, found)),
{
    let root = service.root();
    lemma_lineage(root, from);
    lemma_lineage(root, to);
    if let Some(first) = resolved_lineage(root, from) {
        if let Some(second) = resolved_lineage(root, to) {
            assert(first.contains(first[0]));
            assert(second.contains(second[0]));
            if second.len() > 1 {
                assert(second.contains(second[1]));
            }
            if let Ok(steps) = service.move_outcome(from, to, found) {
                lemma_two_confirmations(steps, first, second);
            }
            if let Ok(steps) = service.copy_outcome(from, to, found) {
                lemma_two_confirmations(steps, first, second);
            }
        }
    }
}

/// Size enforcement: content of more bytes than the limit is refused
/// with `SizeExceeded`, whatever the path. No step is handed out for it,
/// so the caller has nothing to write and no part of the content reaches
/// the store.
pub proof fn lemma_oversized_refused(service: FileSystemService, path: Seq<char>, size: nat)
    requires
        size > service.limit(),
    ensures
        service.save_outcome(path, size) matches Err(refusal) && refusal
            == StorageError::SizeExceeded,
{
}

/// Content within the limit is refused only for a path that leaves the
/// root.
pub proof fn lemma_save_accepted(service: FileSystemService, path: Seq<char>, size: nat)
    requires
        size <= service.limit(),
    ensures
        service.save_outcome(path, size) is Ok <==> resolved(service.root(), path) is Some,
        service.save_outcome(path, size) matches Err(refusal) ==> refusal
            == StorageError::PathEscape,
{
    lemma_lineage(service.root(), path);
}

/// Round trip: whatever stood on the disk, once the steps of a save
/// have been carried out, the location of the path holds a file with
/// exactly the content that was saved, and a read of the same path is
/// granted and sent to that location.
pub proof fn lemma_round_trip(
    service: FileSystemService,
    disk: Disk,
    path: Seq<char>,
    data: Seq<u8>,
)
    ensures
        service.save_outcome(path, data.len()) is Ok ==> ({
            let target = resolved(service.root(), path)->0;
            let line = resolved_lineage(service.root(), path)->0;
            let after = after_steps(disk, service.save_outcome(path, data.len())->Ok_0, data);
            &&& content(after, target) == Some(data)
            &&& service.read_outcome(path, found(after, target)) == Ok::<
                Seq<StepView>,
                StorageError,
            >(seq![StepView::Confirm(line), StepView::Read(target)])
        }),
{
    lemma_lineage(service.root(), path);
    reveal_with_fuel(after_first, 5);
}

/// What was saved is listed: once the steps of a save have been carried
/// out, the directory that holds the location has it among its entries.
pub proof fn lemma_saved_is_listed(
    service: FileSystemService,
    disk: Disk,
    path: Seq<char>,
    data: Seq<u8>,
)
    ensures
        ({
            let line = resolved_lineage(service.root(), path);
            service.save_outcome(path, data.len()) is Ok && line->0.len() > 1
        }) ==> ({
            let line = resolved_lineage(service.root(), path)->0;
            let after = after_steps(disk, service.save_outcome(path, data.len())->Ok_0, data);
            entries(after, line[1]).contains(line[0])
        }),
{
    lemma_lineage(service.root(), path);
    reveal_with_fuel(after_first, 5);
    let line = resolved_lineage(service.root(), path);
    if service.save_outcome(path, data.len()) is Ok && line->0.len() > 1 {
        assert(is_entry_of(line->0[1], line->0[0]));
    }
}

/// What was saved can be described: the location that a save wrote to
/// lies under the root and has a client-visible path, and that path
/// leads back to the location.
pub proof fn lemma_saved_is_described(service: FileSystemService, path: Seq<char>, size: nat)
    ensures
        service.save_outcome(path, size) is Ok ==> ({
            let target = resolved(service.root(), path)->0;
            &&& under_root(service.root(), target)
            &&& relativized(service.root(), target) is Some
            &&& resolved(service.root(), relativized(service.root(), target)->0) == Some(target)
        }),
{
    lemma_lineage(service.root(), path);
    lemma_resolve_contained(service.root(), path);
    lemma_resolve_then_relativize(service.root(), path);
}

/// Making a directory: once the steps of it have been carried out,
/// something stands at the location of the path, and it is a directory
/// unless something else stood there before. Doing it all again changes
/// nothing.
pub proof fn lemma_directory_made(service: FileSystemService, disk: Disk, path: Seq<char>)
    ensures
        service.create_outcome(path) is Ok ==> ({
            let target = resolved(service.root(), path)->0;
            let steps = service.create_outcome(path)->Ok_0;
            let after = after_steps(disk, steps, Seq::<u8>::empty());
            &&& found(after, target) is Some
            &&& found(disk, target) is None ==> found(after, target) == Some(EntryKind::Directory)
            &&& after_steps(after, steps, Seq::<u8>::empty()) == after
        }),
{
    lemma_lineage(service.root(), path);
    reveal_with_fuel(after_first, 4);
    if service.create_outcome(path) is Ok {
        let target = resolved(service.root(), path)->0;
        let none = Seq::<Seq<char>>::empty();
        assert(target == join(target, none));
        assert(all_plain(none));
        assert(under_root(target, target));
        let steps = service.create_outcome(path)->Ok_0;
        let after = after_steps(disk, steps, Seq::<u8>::empty());
        assert(after_steps(after, steps, Seq::<u8>::empty()) =~= after);
    }
}

/// Directory delete: once the steps of deleting a directory have been
/// carried out, nothing stands at its location or anywhere below it, no
/// directory lists it among its entries, and every operation on a path
/// that leads through it finds nothing. What lay elsewhere is as it was.
pub proof fn lemma_directory_delete(
    service: FileSystemService,
    disk: Disk,
    path: Seq<char>,
    rest: Seq<char>,
)
    ensures
        ({
            let target = resolved(service.root(), path);
            target is Some && found(disk, target->0) == Some(EntryKind::Directory)
        }) ==> ({
            let location = resolved(service.root(), path)->0;
            let outcome = service.delete_outcome(path, found(disk, location));
            let after = after_steps(disk, outcome->Ok_0, Seq::<u8>::empty());
            let nested = resolved(service.root(), path.push('/') + rest);
            &&& outcome is Ok
            &&& forall|below: Seq<char>| #[trigger]
                under_root(location, below) ==> found(after, below) is None
            &&& forall|directory: Seq<char>| !(#[trigger] entries(after, directory)).contains(
                location,
            )
            &&& forall|other: Seq<char>|
                !under_root(location, other) ==> #[trigger] found(after, other) == found(
                    disk,
                    other,
                ) && content(after, other) == content(disk, other)
            &&& service.listing_outcome(path, found(after, location)) matches Err(refusal)
                && refusal == StorageError::NotFound
            &&& normalize(split(rest)) is Some ==> nested is Some && (service.read_outcome(
                path.push('/') + rest,
                found(after, nested->0),
            ) matches Err(refusal) && refusal == StorageError::NotFound)
        }),
{
    lemma_lineage(service.root(), path);
    lemma_lineage(service.root(), path.push('/') + rest);
    reveal_with_fuel(after_first, 3);
    if resolved(service.root(), path) is Some {
        let location = resolved(service.root(), path)->0;
        lemma_resolve_nested(service.root(), path, rest);
        assert(under_root(location, location)) by {
            let none = Seq::<Seq<char>>::empty();
            assert(location == join(location, none));
            assert(all_plain(none));
        }
    }
}

/// Move: if a file stands at the old path and the new path leads
/// elsewhere, then once the steps of the move have been carried out,
/// the location of the new path holds the content that the file had, a
/// read of the new path is granted, and a read of the old path is
/// refused with `NotFound`.
pub proof fn lemma_move_then_read(
    service: FileSystemService,
    disk: Disk,
    old_path: Seq<char>,
    new_path: Seq<char>,
)
    ensures
        ({
            let source = resolved(service.root(), old_path);
            let destination = resolved(service.root(), new_path);
            source is Some && destination is Some && content(disk, source->0) is Some
                && destination->0 != source->0
        }) ==> ({
            let source = resolved(service.root(), old_path)->0;
            let destination = resolved(service.root(), new_path)->0;
            let outcome = service.move_outcome(old_path, new_path, found(disk, source));
            let after = after_steps(disk, outcome->Ok_0, Seq::<u8>::empty());
            &&& outcome is Ok
            &&& content(after, destination) == content(disk, source)
            &&& service.read_outcome(new_path, found(after, destination)) is Ok
            &&& service.read_outcome(old_path, found(after, source)) matches Err(refusal)
                && refusal == StorageError::NotFound
        }),
{
    lemma_lineage(service.root(), old_path);
    lemma_lineage(service.root(), new_path);
    reveal_with_fuel(after_first, 5);
    let source = resolved(service.root(), old_path);
    let destination = resolved(service.root(), new_path);
    if source is Some && destination is Some && content(disk, source->0) is Some {
        let second = resolved_lineage(service.root(), new_path)->0;
        let steps = service.move_outcome(old_path, new_path, found(disk, source->0))->Ok_0;
        assert(making(second).len() <= 1);
        assert(steps.len() == 3 + making(second).len());
    }
}

/// Copy: if a file stands at the source path, then once the steps of the
/// copy have been carried out, the location of the destination holds a
/// file with the same content, and the source still holds its own.
pub proof fn lemma_copy_then_read(
    service: FileSystemService,
    disk: Disk,
    source_path: Seq<char>,
    dest_path: Seq<char>,
)
    ensures
        ({
            let source = resolved(service.root(), source_path);
            let destination = resolved(service.root(), dest_path);
            source is Some && destination is Some && content(disk, source->0) is Some
        }) ==> ({
            let source = resolved(service.root(), source_path)->0;
            let destination = resolved(service.root(), dest_path)->0;
            let outcome = service.copy_outcome(source_path, dest_path, found(disk, source));
            let after = after_steps(disk, outcome->Ok_0, Seq::<u8>::empty());
            &&& outcome is Ok
            &&& content(after, destination) == content(disk, source)
            &&& content(after, source) == content(disk, source)
        }),
{
    lemma_lineage(service.root(), source_path);
    lemma_lineage(service.root(), dest_path);
    reveal_with_fuel(after_first, 6);
    let source = resolved(service.root(), source_path);
    let destination = resolved(service.root(), dest_path);
    if source is Some && destination is Some && content(disk, source->0) is Some {
        let second = resolved_lineage(service.root(), dest_path)->0;
        let steps = service.copy_outcome(source_path, dest_path, found(disk, source->0))->Ok_0;
        assert(making(second).len() <= 1);
        assert(steps.len() == 4 + making(second).len());
    }
}

} // verus!
