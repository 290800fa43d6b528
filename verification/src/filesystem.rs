//! The storage service: what each file operation has to do, decided from
//! the request and from what the caller observed on disk.
//!
//! The service performs no I/O. Each operation answers with the steps
//! that carry it out, in order. The caller does what each step says and
//! stops at the first that fails. Every operation begins by having the
//! caller confirm that no link on disk leads its locations out of the
//! root.

use crate::checksum::ChecksumStream;
use crate::error::StorageError;
use crate::metadata::{
    base_name_of, content_kind_of, current_time, described, fresh_id, is_random_uuid, EntryStat,
};
use crate::path::{
    relativize, relativized, resolve, resolve_lineage, resolved, resolved_lineage, under_root,
};
use crate::types::{text_views, FileMetadata, FilePermissions, Timestamp};
use vstd::prelude::*;

verus! {

/// What stands at a location.
#[derive(Clone, Copy, Debug, PartialEq, Eq, Structural)]
pub enum EntryKind {
    File,
    Directory,
}

/// One thing for the caller to do on disk.
#[derive(Clone, Debug, PartialEq, Eq)]
pub enum Step {
    /// Take the first of these locations at which something stands,
    /// follow every link that leads to it, and ask
    /// [`crate::path::confirm_contained`] whether it still lies under
    /// the root, itself followed through its links. The locations are a
    /// location of the request and the directories above it, from the
    /// nearest up to the root.
    Confirm(Vec<String>),
    /// Make the directory at this location and every directory above it
    /// that is missing. One that is there already is left as it is.
    MakeDirectories(String),
    /// Write the content of the request to the file at this location, in
    /// place of what is there.
    Write(String),
    /// Read the content of the file at this location. It is the answer
    /// to the request.
    Read(String),
    /// Remove the file at this location.
    RemoveFile(String),
    /// Remove the directory at this location with all that it holds.
    RemoveTree(String),
    /// Rename the entry at `from` to `to`.
    Rename { from: String, to: String },
    /// Copy the file at `from` to `to`.
    Copy { from: String, to: String },
    /// Describe the entry at this location: observe it, take its content
    /// in through a [`ChecksumStream`] if it is a file, and hand both to
    /// [`FileSystemService::generate_file_metadata`]. The record is the
    /// answer to the request.
    Describe(String),
    /// Read the directory at this location, describe each of its entries
    /// and put the records in order with
    /// [`crate::listing::sort_entries`]. They are the answer to the
    /// request.
    List(String),
    /// Walk through all that lies at and below this location and add up
    /// what is met with [`crate::listing::total_file_size`]. The sum is
    /// the answer to the request.
    Measure(String),
    /// Watch the directory at this location and all below it for
    /// changes, with the events of each burst within `debounce_millis`
    /// milliseconds gathered into one, until the caller is told to stop.
    Watch { location: String, debounce_millis: u64 },
}

/// What a [`Step`] says.
pub enum StepView {
    Confirm(Seq<Seq<char>>),
    MakeDirectories(Seq<char>),
    Write(Seq<char>),
    Read(Seq<char>),
    RemoveFile(Seq<char>),
    RemoveTree(Seq<char>),
    Rename { from: Seq<char>, to: Seq<char> },
    Copy { from: Seq<char>, to: Seq<char> },
    Describe(Seq<char>),
    List(Seq<char>),
    Measure(Seq<char>),
    Watch { location: Seq<char>, debounce_millis: u64 },
}

impl View for Step {
    type V = StepView;

    open spec fn view(&self) -> StepView {
        match self {
            Step::Confirm(line) => StepView::Confirm(text_views(line@)),
            Step::MakeDirectories(location) => StepView::MakeDirectories(location@),
            Step::Write(location) => StepView::Write(location@),
            Step::Read(location) => StepView::Read(location@),
            Step::RemoveFile(location) => StepView::RemoveFile(location@),
            Step::RemoveTree(location) => StepView::RemoveTree(location@),
            Step::Rename { from, to } => StepView::Rename { from: from@, to: to@ },
            Step::Copy { from, to } => StepView::Copy { from: from@, to: to@ },
            Step::Describe(location) => StepView::Describe(location@),
            Step::List(location) => StepView::List(location@),
            Step::Measure(location) => StepView::Measure(location@),
            Step::Watch { location, debounce_millis } => StepView::Watch {
                location: location@,
                debounce_millis: *debounce_millis,
            },
        }
    }
}

/// What the steps say, one for one.
pub open spec fn step_views(steps: Seq<Step>) -> Seq<StepView> {
    steps.map_values(|step: Step| step@)
}

/// Every location that the step names lies under the root.
pub open spec fn step_contained(root: Seq<char>, step: StepView) -> bool {
    match step {
        StepView::Confirm(line) => forall|k: int|
            0 <= k < line.len() ==> under_root(root, #[trigger] line[k]),
        StepView::MakeDirectories(location) => under_root(root, location),
        StepView::Write(location) => under_root(root, location),
        StepView::Read(location) => under_root(root, location),
        StepView::RemoveFile(location) => under_root(root, location),
        StepView::RemoveTree(location) => under_root(root, location),
        StepView::Rename { from, to } => under_root(root, from) && under_root(root, to),
        StepView::Copy { from, to } => under_root(root, from) && under_root(root, to),
        StepView::Describe(location) => under_root(root, location),
        StepView::List(location) => under_root(root, location),
        StepView::Measure(location) => under_root(root, location),
        StepView::Watch { location, debounce_millis } => under_root(root, location),
    }
}

/// Every location that any of the steps names lies under the root.
pub open spec fn steps_contained(root: Seq<char>, steps: Seq<StepView>) -> bool {
    forall|i: int| 0 <= i < steps.len() ==> step_contained(root, #[trigger] steps[i])
}

/// The window in which a watch has bursts of events gathered, in
/// milliseconds.
pub const WATCH_DEBOUNCE_MILLIS: u64 = 1000;

/// The step that makes the directory which holds the first location of
/// `line`, where that directory lies under the root.
pub open spec fn making(line: Seq<Seq<char>>) -> Seq<StepView> {
    if line.len() > 1 {
        seq![StepView::MakeDirectories(line[1])]
    } else {
        Seq::<StepView>::empty()
    }
}

/// A store of files under one root directory, with a limit on the size
/// of a file.
pub struct FileSystemService {
    base_path: String,
    max_file_size: u64,
}

impl FileSystemService {
    /// The root directory.
    pub closed spec fn root(&self) -> Seq<char> {
        self.base_path@
    }

    /// The largest content, in bytes, that `save_file` accepts.
    pub closed spec fn limit(&self) -> u64 {
        self.max_file_size
    }

    /// A service for the store rooted at `base_path`. The caller sees to
    /// it that the directory exists.
    pub fn new(base_path: &str, max_file_size: u64) -> (service: FileSystemService)
        ensures
            service.root() == base_path@,
            service.limit() == max_file_size,
    {
        FileSystemService { base_path: base_path.to_string(), max_file_size }
    }

    /// The root directory.
    pub fn base_path(&self) -> (root: &str)
        ensures
            root@ == self.root(),
    {
        self.base_path.as_str()
    }

    /// The largest content, in bytes, that `save_file` accepts.
    pub fn max_file_size(&self) -> (limit: u64)
        ensures
            limit == self.limit(),
    {
        self.max_file_size
    }

    /// Where the entry with the client-visible path `relative_path` lies.
    ///
    /// Fails with `PathEscape` exactly when the path steps back above the
    /// root; a location that is returned lies under the root.
    pub fn get_absolute_path(&self, relative_path: &str) -> (location: Result<
        String,
        StorageError,
    >)
        ensures
            match resolved(self.root(), relative_path@) {
                Some(target) => location matches Ok(found) && found@ == target,
                None => location == Err::<String, StorageError>(StorageError::PathEscape),
            },
            location matches Ok(found) ==> under_root(self.root(), found@),
    {
        resolve(self.base_path.as_str(), relative_path)
    }

    /// The client-visible path of the entry at `absolute_path`.
    ///
    /// Fails with `InvalidPath` exactly when the location is not under
    /// the root.
    pub fn get_relative_path(&self, absolute_path: &str) -> (path: Result<String, StorageError>)
        ensures
            match relativized(self.root(), absolute_path@) {
                Some(target) => path matches Ok(found) && found@ == target,
                None => path == Err::<String, StorageError>(StorageError::InvalidPath),
            },
    {
        relativize(self.base_path.as_str(), absolute_path)
    }

    /// The record of the entry at `path`, with the identifier `id` and
    /// with `now` standing in for a time that the platform did not tell.
    ///
    /// `stat` is what the file system reports of the entry, and `content`
    /// has taken in the whole content of the file (for a directory it is
    /// not looked at). Fails with `InvalidPath` exactly when `path` is not
    /// under the root.
    pub fn describe(
        &self,
        path: &str,
        stat: &EntryStat,
        content: ChecksumStream,
        owner_id: u128,
        id: u128,
        now: Timestamp,
    ) -> (record: Result<FileMetadata, StorageError>)
        ensures
            match relativized(self.root(), path@) {
                Some(shown) => record matches Ok(found) && found@ == described(
                    shown,
                    path@,
                    *stat,
                    content.content(),
                    owner_id,
                    id,
                    now,
                ),
                None => record == Err::<FileMetadata, StorageError>(StorageError::InvalidPath),
            },
    {
        let shown = match self.get_relative_path(path) {
            Ok(shown) => shown,
            Err(_) => {
                return Err(StorageError::InvalidPath);
            },
        };
        let name = base_name_of(path);
        let size = if stat.is_directory {
            0
        } else {
            stat.len
        };
        let mime_type = if stat.is_directory {
            "inode/directory".to_string()
        } else {
            content_kind_of(name.as_str())
        };
        let checksum = if stat.is_directory {
            String::new()
        } else {
            content.finish()
        };
        let created_at = match stat.created {
            Some(time) => time,
            None => now,
        };
        let modified_at = match stat.modified {
            Some(time) => time,
            None => now,
        };
        Ok(
            FileMetadata {
                id,
                name,
                path: shown,
                size,
                mime_type,
                checksum,
                created_at,
                modified_at,
                owner_id,
                is_directory: stat.is_directory,
                parent_id: None,
                permissions: FilePermissions::all(),
            },
        )
    }

    /// The record of the entry at `path`, under a fresh identifier.
    ///
    /// As [`FileSystemService::describe`], with an identifier that is
    /// drawn at random and with the current time, a time since the Unix
    /// epoch, for a time that the platform did not tell. All else in the
    /// record is fixed by the arguments.
    pub fn generate_file_metadata(
        &self,
        path: &str,
        stat: &EntryStat,
        content: ChecksumStream,
        owner_id: u128,
    ) -> (record: Result<FileMetadata, StorageError>)
        ensures
            match relativized(self.root(), path@) {
                Some(shown) => record matches Ok(found) && exists|id: u128, now: Timestamp|
                    is_random_uuid(id) && now.seconds >= 0 && now.nanos < 1_000_000_000 && found@
                        == #[trigger] described(
                        shown,
                        path@,
                        *stat,
                        content.content(),
                        owner_id,
                        id,
                        now,
                    ),
                None => record == Err::<FileMetadata, StorageError>(StorageError::InvalidPath),
            },
    {
        let id = fresh_id();
        let now = current_time();
        self.describe(path, stat, content, owner_id, id, now)
    }

    /// What `save_file` answers.
    pub open spec fn save_outcome(&self, path: Seq<char>, size: nat) -> Result<
        Seq<StepView>,
        StorageError,
    > {
        if size > self.limit() {
            Err(StorageError::SizeExceeded)
        } else {
            match resolved_lineage(self.root(), path) {
                Some(line) => Ok(
                    seq![StepView::Confirm(line)] + making(line) + seq![
                        StepView::Write(line[0]),
                        StepView::Describe(line[0]),
                    ],
                ),
                None => Err(StorageError::PathEscape),
            }
        }
    }

    /// Decides how to store `data` under `relative_path`.
    ///
    /// Content that is larger than the limit is refused with
    /// `SizeExceeded` before anything else is looked at, so that nothing
    /// is written for it; a path that leaves the root is refused with
    /// `PathEscape`. Otherwise the steps are: confirm the location, make
    /// the directory that holds it, write the content, describe what was
    /// written. An entry that is already there is overwritten.
    pub fn save_file(&self, relative_path: &str, data: &[u8]) -> (plan: Result<
        Vec<Step>,
        StorageError,
    >)
        ensures
            match self.save_outcome(relative_path@, data@.len()) {
                Ok(steps) => plan matches Ok(found) && step_views(found@) == steps,
                Err(error) => plan matches Err(refusal) && refusal == error,
            },
            plan matches Ok(found) ==> steps_contained(self.root(), step_views(found@)),
    {
        if data.len() as u64 > self.max_file_size {
            return Err(StorageError::SizeExceeded);
        }
        let line = match resolve_lineage(self.base_path.as_str(), relative_path) {
            Ok(line) => line,
            Err(error) => {
                return Err(error);
            },
        };
        let target = line[0].clone();
        let mut plan: Vec<Step> = Vec::new();
        if line.len() > 1 {
            let parent = line[1].clone();
            plan.push(Step::Confirm(line));
            plan.push(Step::MakeDirectories(parent));
        } else {
            plan.push(Step::Confirm(line));
        }
        plan.push(Step::Write(target.clone()));
        plan.push(Step::Describe(target));
        proof {
            assert(step_views(plan@) =~= self.save_outcome(relative_path@, data@.len())->Ok_0);
        }
        Ok(plan)
    }

    /// What the operations answer that do one thing to a target which
    /// has to exist, given what was found at its location.
    pub open spec fn single_outcome(
        &self,
        path: Seq<char>,
        found: Option<EntryKind>,
        act: spec_fn(Seq<char>) -> StepView,
    ) -> Result<Seq<StepView>, StorageError> {
        match resolved_lineage(self.root(), path) {
            Some(line) => if found is Some {
                Ok(seq![StepView::Confirm(line), act(line[0])])
            } else {
                Err(StorageError::NotFound)
            },
            None => Err(StorageError::PathEscape),
        }
    }

    /// What `read_file` answers.
    pub open spec fn read_outcome(&self, path: Seq<char>, found: Option<EntryKind>) -> Result<
        Seq<StepView>,
        StorageError,
    > {
        self.single_outcome(path, found, |location: Seq<char>| StepView::Read(location))
    }

    /// Decides how to read the content of `relative_path`.
    ///
    /// `found` is what stands at the location that `get_absolute_path`
    /// gives for the path. Fails with `PathEscape` if the path leaves the
    /// root, and with `NotFound` if nothing was found. Otherwise the
    /// steps are: confirm the location, read the file.
    pub fn read_file(&self, relative_path: &str, found: Option<EntryKind>) -> (plan: Result<
        Vec<Step>,
        StorageError,
    >)
        ensures
            match self.read_outcome(relative_path@, found) {
                Ok(steps) => plan matches Ok(given) && step_views(given@) == steps,
                Err(error) => plan matches Err(refusal) && refusal == error,
            },
            plan matches Ok(given) ==> steps_contained(self.root(), step_views(given@)),
    {
        let line = match resolve_lineage(self.base_path.as_str(), relative_path) {
            Ok(line) => line,
            Err(error) => {
                return Err(error);
            },
        };
        if found.is_none() {
            return Err(StorageError::NotFound);
        }
        let target = line[0].clone();
        let mut plan: Vec<Step> = Vec::new();
        plan.push(Step::Confirm(line));
        plan.push(Step::Read(target));
        proof {
            assert(step_views(plan@) =~= self.read_outcome(relative_path@, found)->Ok_0);
        }
        Ok(plan)
    }

    /// What `delete_file` answers.
    pub open spec fn delete_outcome(&self, path: Seq<char>, found: Option<EntryKind>) -> Result<
        Seq<StepView>,
        StorageError,
    > {
        match resolved_lineage(self.root(), path) {
            Some(line) => match found {
                Some(EntryKind::Directory) => Ok(
                    seq![StepView::Confirm(line), StepView::RemoveTree(line[0])],
                ),
                Some(EntryKind::File) => Ok(
                    seq![StepView::Confirm(line), StepView::RemoveFile(line[0])],
                ),
                None => Err(StorageError::NotFound),
            },
            None => Err(StorageError::PathEscape),
        }
    }

    /// Decides how to delete the entry at `relative_path`.
    ///
    /// `found` is what stands at its location. Fails with `PathEscape`
    /// if the path leaves the root, and with `NotFound` if nothing was
    /// found. Otherwise the steps are: confirm the location, then remove
    /// a directory with all that it holds, a file alone.
    pub fn delete_file(&self, relative_path: &str, found: Option<EntryKind>) -> (plan: Result<
        Vec<Step>,
        StorageError,
    >)
        ensures
            match self.delete_outcome(relative_path@, found) {
                Ok(steps) => plan matches Ok(given) && step_views(given@) == steps,
                Err(error) => plan matches Err(refusal) && refusal == error,
            },
            plan matches Ok(given) ==> steps_contained(self.root(), step_views(given@)),
    {
        let line = match resolve_lineage(self.base_path.as_str(), relative_path) {
            Ok(line) => line,
            Err(error) => {
                return Err(error);
            },
        };
        let target = line[0].clone();
        let removal = match found {
            Some(EntryKind::Directory) => Step::RemoveTree(target),
            Some(EntryKind::File) => Step::RemoveFile(target),
            None => {
                return Err(StorageError::NotFound);
            },
        };
        let mut plan: Vec<Step> = Vec::new();
        plan.push(Step::Confirm(line));
        plan.push(removal);
        proof {
            assert(step_views(plan@) =~= self.delete_outcome(relative_path@, found)->Ok_0);
        }
        Ok(plan)
    }

    /// What `create_directory` answers.
    pub open spec fn create_outcome(&self, path: Seq<char>) -> Result<Seq<StepView>, StorageError> {
        match resolved_lineage(self.root(), path) {
            Some(line) => Ok(
                seq![
                    StepView::Confirm(line),
                    StepView::MakeDirectories(line[0]),
                    StepView::Describe(line[0]),
                ],
            ),
            None => Err(StorageError::PathEscape),
        }
    }

    /// Decides how to make the directory `relative_path`.
    ///
    /// Fails with `PathEscape` if the path leaves the root. Otherwise the
    /// steps are: confirm the location, make the directory with every
    /// directory above it that is missing, describe it. A directory that
    /// is there already is left as it is and described.
    pub fn create_directory(&self, relative_path: &str) -> (plan: Result<Vec<Step>, StorageError>)
        ensures
            match self.create_outcome(relative_path@) {
                Ok(steps) => plan matches Ok(given) && step_views(given@) == steps,
                Err(error) => plan matches Err(refusal) && refusal == error,
            },
            plan matches Ok(given) ==> steps_contained(self.root(), step_views(given@)),
    {
        let line = match resolve_lineage(self.base_path.as_str(), relative_path) {
            Ok(line) => line,
            Err(error) => {
                return Err(error);
            },
        };
        let target = line[0].clone();
        let mut plan: Vec<Step> = Vec::new();
        plan.push(Step::Confirm(line));
        plan.push(Step::MakeDirectories(target.clone()));
        plan.push(Step::Describe(target));
        proof {
            assert(step_views(plan@) =~= self.create_outcome(relative_path@)->Ok_0);
        }
        Ok(plan)
    }

    /// The steps that take an entry from the first location of `source`
    /// to the first location of `destination`, up to the step that
    /// renames or copies it.
    pub open spec fn transfer_steps(
        source: Seq<Seq<char>>,
        destination: Seq<Seq<char>>,
        act: StepView,
    ) -> Seq<StepView> {
        seq![StepView::Confirm(source), StepView::Confirm(destination)] + making(destination)
            + seq![act]
    }

    /// What `move_file` answers.
    pub open spec fn move_outcome(
        &self,
        from: Seq<char>,
        to: Seq<char>,
        found: Option<EntryKind>,
    ) -> Result<Seq<StepView>, StorageError> {
        match (resolved_lineage(self.root(), from), resolved_lineage(self.root(), to)) {
            (Some(source), Some(destination)) => if found is Some {
                Ok(
                    Self::transfer_steps(
                        source,
                        destination,
                        StepView::Rename { from: source[0], to: destination[0] },
                    ),
                )
            } else {
                Err(StorageError::NotFound)
            },
            _ => Err(StorageError::PathEscape),
        }
    }

    /// What `copy_file` answers.
    pub open spec fn copy_outcome(
        &self,
        from: Seq<char>,
        to: Seq<char>,
        found: Option<EntryKind>,
    ) -> Result<Seq<StepView>, StorageError> {
        match (resolved_lineage(self.root(), from), resolved_lineage(self.root(), to)) {
            (Some(source), Some(destination)) => if found is Some {
                Ok(
                    Self::transfer_steps(
                        source,
                        destination,
                        StepView::Copy { from: source[0], to: destination[0] },
                    ).push(StepView::Describe(destination[0])),
                )
            } else {
                Err(StorageError::NotFound)
            },
            _ => Err(StorageError::PathEscape),
        }
    }

    /// The steps before a rename or a copy: confirm both locations and
    /// make the directory that holds the destination.
    fn begin_transfer(&self, from: &str, to: &str, found: Option<EntryKind>) -> (begun: Result<
        (Vec<Step>, String, String),
        StorageError,
    >)
        ensures
            match (resolved_lineage(self.root(), from@), resolved_lineage(self.root(), to@)) {
                (Some(source), Some(destination)) => if found is Some {
                    begun matches Ok(parts) && step_views(parts.0@) == seq![
                        StepView::Confirm(source),
                        StepView::Confirm(destination),
                    ] + making(destination) && parts.1@ == source[0] && parts.2@ == destination[0]
                } else {
                    begun matches Err(refusal) && refusal == StorageError::NotFound
                },
                _ => begun matches Err(refusal) && refusal == StorageError::PathEscape,
            },
            begun matches Ok(parts) ==> steps_contained(self.root(), step_views(parts.0@))
                && under_root(self.root(), parts.1@) && under_root(self.root(), parts.2@),
    {
        let source = match resolve_lineage(self.base_path.as_str(), from) {
            Ok(line) => line,
            Err(error) => {
                return Err(error);
            },
        };
        let destination = match resolve_lineage(self.base_path.as_str(), to) {
            Ok(line) => line,
            Err(error) => {
                return Err(error);
            },
        };
        if found.is_none() {
            return Err(StorageError::NotFound);
        }
        let origin = source[0].clone();
        let target = destination[0].clone();
        let mut plan: Vec<Step> = Vec::new();
        plan.push(Step::Confirm(source));
        if destination.len() > 1 {
            let parent = destination[1].clone();
            plan.push(Step::Confirm(destination));
            plan.push(Step::MakeDirectories(parent));
        } else {
            plan.push(Step::Confirm(destination));
        }
        proof {
            let first = resolved_lineage(self.root(), from@)->0;
            let second = resolved_lineage(self.root(), to@)->0;
            assert(step_views(plan@) =~= seq![StepView::Confirm(first), StepView::Confirm(second)]
                + making(second));
        }
        Ok((plan, origin, target))
    }

    /// Decides how to move the entry at `old_path` to `new_path`.
    ///
    /// `found` is what stands at the location of `old_path`. Fails with
    /// `PathEscape` if either path leaves the root, and with `NotFound`
    /// if nothing was found. Otherwise the steps are: confirm both
    /// locations, make the directory that holds the new one, and rename
    /// the entry, which takes it to its new place in one step.
    pub fn move_file(&self, old_path: &str, new_path: &str, found: Option<EntryKind>) -> (plan:
        Result<Vec<Step>, StorageError>)
        ensures
            match self.move_outcome(old_path@, new_path@, found) {
                Ok(steps) => plan matches Ok(given) && step_views(given@) == steps,
                Err(error) => plan matches Err(refusal) && refusal == error,
            },
            plan matches Ok(given) ==> steps_contained(self.root(), step_views(given@)),
    {
        match self.begin_transfer(old_path, new_path, found) {
            Ok((begun, from, to)) => {
                let mut plan = begun;
                plan.push(Step::Rename { from, to });
                proof {
                    assert(step_views(plan@) =~= self.move_outcome(
                        old_path@,
                        new_path@,
                        found,
                    )->Ok_0);
                }
                Ok(plan)
            },
            Err(error) => Err(error),
        }
    }

    /// Decides how to copy the file at `source_path` to `dest_path`.
    ///
    /// `found` is what stands at the location of `source_path`. Fails
    /// with `PathEscape` if either path leaves the root, and with
    /// `NotFound` if nothing was found. Otherwise the steps are: confirm
    /// both locations, make the directory that holds the destination,
    /// copy the file, describe the copy.
    pub fn copy_file(&self, source_path: &str, dest_path: &str, found: Option<EntryKind>) -> (plan:
        Result<Vec<Step>, StorageError>)
        ensures
            match self.copy_outcome(source_path@, dest_path@, found) {
                Ok(steps) => plan matches Ok(given) && step_views(given@) == steps,
                Err(error) => plan matches Err(refusal) && refusal == error,
            },
            plan matches Ok(given) ==> steps_contained(self.root(), step_views(given@)),
    {
        match self.begin_transfer(source_path, dest_path, found) {
            Ok((begun, from, to)) => {
                let mut plan = begun;
                plan.push(Step::Copy { from, to: to.clone() });
                plan.push(Step::Describe(to));
                proof {
                    assert(step_views(plan@) =~= self.copy_outcome(
                        source_path@,
                        dest_path@,
                        found,
                    )->Ok_0);
                }
                Ok(plan)
            },
            Err(error) => Err(error),
        }
    }

    /// What `list_directory` answers.
    pub open spec fn listing_outcome(&self, path: Seq<char>, found: Option<EntryKind>) -> Result<
        Seq<StepView>,
        StorageError,
    > {
        match resolved_lineage(self.root(), path) {
            Some(line) => if found == Some(EntryKind::Directory) {
                Ok(seq![StepView::Confirm(line), StepView::List(line[0])])
            } else {
                Err(StorageError::NotFound)
            },
            None => Err(StorageError::PathEscape),
        }
    }

    /// Decides how to list the directory `relative_path`.
    ///
    /// `found` is what stands at its location. Fails with `PathEscape`
    /// if the path leaves the root, and with `NotFound` unless a
    /// directory was found. Otherwise the steps are: confirm the
    /// location, list the directory.
    pub fn list_directory(&self, relative_path: &str, found: Option<EntryKind>) -> (plan: Result<
        Vec<Step>,
        StorageError,
    >)
        ensures
            match self.listing_outcome(relative_path@, found) {
                Ok(steps) => plan matches Ok(given) && step_views(given@) == steps,
                Err(error) => plan matches Err(refusal) && refusal == error,
            },
            plan matches Ok(given) ==> steps_contained(self.root(), step_views(given@)),
    {
        let line = match resolve_lineage(self.base_path.as_str(), relative_path) {
            Ok(line) => line,
            Err(error) => {
                return Err(error);
            },
        };
        match found {
            Some(EntryKind::Directory) => {},
            _ => {
                return Err(StorageError::NotFound);
            },
        }
        let target = line[0].clone();
        let mut plan: Vec<Step> = Vec::new();
        plan.push(Step::Confirm(line));
        plan.push(Step::List(target));
        proof {
            assert(step_views(plan@) =~= self.listing_outcome(relative_path@, found)->Ok_0);
        }
        Ok(plan)
    }

    /// What `get_file_metadata` answers.
    pub open spec fn metadata_outcome(&self, path: Seq<char>, found: Option<EntryKind>) -> Result<
        Seq<StepView>,
        StorageError,
    > {
        self.single_outcome(path, found, |location: Seq<char>| StepView::Describe(location))
    }

    /// Decides how to describe the entry at `relative_path`.
    ///
    /// `found` is what stands at its location. Fails with `PathEscape`
    /// if the path leaves the root, and with `NotFound` if nothing was
    /// found. Otherwise the steps are: confirm the location, describe
    /// the entry.
    pub fn get_file_metadata(&self, relative_path: &str, found: Option<EntryKind>) -> (plan:
        Result<Vec<Step>, StorageError>)
        ensures
            match self.metadata_outcome(relative_path@, found) {
                Ok(steps) => plan matches Ok(given) && step_views(given@) == steps,
                Err(error) => plan matches Err(refusal) && refusal == error,
            },
            plan matches Ok(given) ==> steps_contained(self.root(), step_views(given@)),
    {
        let line = match resolve_lineage(self.base_path.as_str(), relative_path) {
            Ok(line) => line,
            Err(error) => {
                return Err(error);
            },
        };
        if found.is_none() {
            return Err(StorageError::NotFound);
        }
        let target = line[0].clone();
        let mut plan: Vec<Step> = Vec::new();
        plan.push(Step::Confirm(line));
        plan.push(Step::Describe(target));
        proof {
            assert(step_views(plan@) =~= self.metadata_outcome(relative_path@, found)->Ok_0);
        }
        Ok(plan)
    }

    /// What `get_directory_size` answers.
    pub open spec fn size_outcome(&self, path: Seq<char>, found: Option<EntryKind>) -> Result<
        Seq<StepView>,
        StorageError,
    > {
        self.single_outcome(path, found, |location: Seq<char>| StepView::Measure(location))
    }

    /// Decides how to add up the sizes of the files under
    /// `relative_path`.
    ///
    /// `found` is what stands at its location. Fails with `PathEscape`
    /// if the path leaves the root, and with `NotFound` if nothing was
    /// found. Otherwise the steps are: confirm the location, measure
    /// what lies at and below it.
    pub fn get_directory_size(&self, relative_path: &str, found: Option<EntryKind>) -> (plan:
        Result<Vec<Step>, StorageError>)
        ensures
            match self.size_outcome(relative_path@, found) {
                Ok(steps) => plan matches Ok(given) && step_views(given@) == steps,
                Err(error) => plan matches Err(refusal) && refusal == error,
            },
            plan matches Ok(given) ==> steps_contained(self.root(), step_views(given@)),
    {
        let line = match resolve_lineage(self.base_path.as_str(), relative_path) {
            Ok(line) => line,
            Err(error) => {
                return Err(error);
            },
        };
        if found.is_none() {
            return Err(StorageError::NotFound);
        }
        let target = line[0].clone();
        let mut plan: Vec<Step> = Vec::new();
        plan.push(Step::Confirm(line));
        plan.push(Step::Measure(target));
        proof {
            assert(step_views(plan@) =~= self.size_outcome(relative_path@, found)->Ok_0);
        }
        Ok(plan)
    }

    /// What `watch_directory` answers.
    pub open spec fn watch_outcome(&self, path: Seq<char>) -> Result<Seq<StepView>, StorageError> {
        match resolved_lineage(self.root(), path) {
            Some(line) => Ok(
                seq![
                    StepView::Confirm(line),
                    StepView::Watch { location: line[0], debounce_millis: 1000 },
                ],
            ),
            None => Err(StorageError::PathEscape),
        }
    }

    /// Decides how to watch `relative_path` for changes.
    ///
    /// Fails with `PathEscape` if the path leaves the root. Otherwise the
    /// steps are: confirm the location, then watch the directory and all
    /// below it, with bursts of events within one second gathered into
    /// one.
    pub fn watch_directory(&self, relative_path: &str) -> (plan: Result<Vec<Step>, StorageError>)
        ensures
            match self.watch_outcome(relative_path@) {
                Ok(steps) => plan matches Ok(given) && step_views(given@) == steps,
                Err(error) => plan matches Err(refusal) && refusal == error,
            },
            plan matches Ok(given) ==> steps_contained(self.root(), step_views(given@)),
    {
        let line = match resolve_lineage(self.base_path.as_str(), relative_path) {
            Ok(line) => line,
            Err(error) => {
                return Err(error);
            },
        };
        let location = line[0].clone();
        let mut plan: Vec<Step> = Vec::new();
        plan.push(Step::Confirm(line));
        plan.push(Step::Watch { location, debounce_millis: WATCH_DEBOUNCE_MILLIS });
        proof {
            assert(step_views(plan@) =~= self.watch_outcome(relative_path@)->Ok_0);
        }
        Ok(plan)
    }

    /// The space left for the store. The service keeps no account of the
    /// disk and sets no limit of its own: it answers with the largest
    /// number there is.
    pub fn get_available_space(&self) -> (space: u64)
        ensures
            space == u64::MAX,
    {
        u64::MAX
    }
}

} // verus!
