//! The storage node: which files are locked, where their bytes lie on disk,
//! and what each request is answered with.
//!
//! A file is read, written or deleted only under its lock, and at most one
//! lock per file exists at a time. This module keeps the table of locks and
//! decides; opening files, waiting for a lock to come free and giving a lock
//! back when its holder goes out of scope belong to the code that drives it.

use std::collections::HashMap;
use vstd::prelude::*;
use vstd::string::StringExecFns;
use crate::file_uuid::{hyphenated_lower, FileUUID};
use crate::text::chars_of;

pub mod server;

verus! {

broadcast use vstd::std_specs::hash::group_hash_axioms;

/// Why an operation on a file failed.
#[derive(Debug)]
pub enum OperationError {
    /// No blob of this name is on disk.
    NoFileWithUuid(FileUUID),
    /// Reading or writing failed; holds a description.
    IOError(String),
}

/// The text that an error is reported with.
pub open spec fn description(error: OperationError) -> Seq<char> {
    match error {
        OperationError::NoFileWithUuid(uuid) => "NoFileWithUuid("@ + hyphenated_lower(uuid.0) + ")"@,
        OperationError::IOError(text) => "IOError("@ + text@ + ")"@,
    }
}

impl OperationError {
    /// The text that this error is reported with.
    pub fn describe(&self) -> (text: String)
        ensures
            text@ == description(*self),
    {
        match self {
            OperationError::NoFileWithUuid(uuid) => {
                let mut text = String::from_str("NoFileWithUuid(");
                let name = uuid.hyphenated();
                text.append(name.as_str());
                text.append(")");
                text
            },
            OperationError::IOError(inner) => {
                let mut text = String::from_str("IOError(");
                text.append(inner.as_str());
                text.append(")");
                text
            },
        }
    }
}

/// Where the blob of a file lies: its lower-case hyphenated UUID, inside the
/// data folder.
pub open spec fn blob_path(data_folder: Seq<char>, uuid: u128) -> Seq<char> {
    if data_folder.len() == 0 || data_folder.last() == '/' {
        data_folder + hyphenated_lower(uuid)
    } else {
        data_folder + seq!['/'] + hyphenated_lower(uuid)
    }
}

/// A storage node as contracts see it.
pub struct NodeView {
    /// The folder that holds the blobs.
    pub data_folder: Seq<char>,
    /// The files that are locked, each with the reason it was locked for.
    pub locked_files: Map<u128, Seq<char>>,
}

impl NodeView {
    /// A lock on `uuid` is asked for: it is granted where the file is not
    /// locked, and the file is then locked for `reason`; where it is locked,
    /// nothing changes.
    pub open spec fn locks(self, uuid: u128, reason: Seq<char>, granted: bool, after: Self) -> bool {
        &&& granted == !self.locked_files.contains_key(uuid)
        &&& after.data_folder == self.data_folder
        &&& after.locked_files == if granted {
            self.locked_files.insert(uuid, reason)
        } else {
            self.locked_files
        }
    }

    /// The lock on `uuid` is given back: the file is locked no longer, and
    /// `reason` is what it was locked for, if it was.
    pub open spec fn unlocks(self, uuid: u128, reason: Option<Seq<char>>, after: Self) -> bool {
        &&& reason == if self.locked_files.contains_key(uuid) {
            Some(self.locked_files[uuid])
        } else {
            None
        }
        &&& after.data_folder == self.data_folder
        &&& after.locked_files == self.locked_files.remove(uuid)
    }
}

/// A storage node: its data folder and the table of locked files.
pub struct Node {
    data_folder: String,
    locked_files: HashMap<u128, String>,
}

impl View for Node {
    type V = NodeView;

    closed spec fn view(&self) -> NodeView {
        NodeView {
            data_folder: self.data_folder@,
            locked_files: Map::new(
                |uuid: u128| self.locked_files@.contains_key(uuid),
                |uuid: u128| self.locked_files@[uuid]@,
            ),
        }
    }
}

/// The right to work on one file. While it exists, nobody else gets one for
/// the same file; it ends when it is handed back to `Node::unlock_file`.
#[derive(Debug)]
pub struct FileLock {
    for_uuid: FileUUID,
    data_folder: String,
}

/// A lock as contracts see it.
pub struct FileLockView {
    pub for_uuid: u128,
    pub data_folder: Seq<char>,
}

impl View for FileLock {
    type V = FileLockView;

    closed spec fn view(&self) -> FileLockView {
        FileLockView { for_uuid: self.for_uuid.0, data_folder: self.data_folder@ }
    }
}

impl Node {
    /// A node that keeps its blobs in `data_folder`, with nothing locked.
    pub fn new(data_folder: String) -> (node: Node)
        ensures
            node@.data_folder == data_folder@,
            node@.locked_files == Map::<u128, Seq<char>>::empty(),
    {
        let node = Node { data_folder, locked_files: HashMap::new() };
        assert(node@.locked_files =~= Map::<u128, Seq<char>>::empty());
        node
    }

    /// The folder that holds the blobs.
    pub fn data_folder(&self) -> (folder: &String)
        ensures
            folder@ == self@.data_folder,
    {
        &self.data_folder
    }

    /// Whether the file is locked.
    pub fn is_locked(&self, uuid: &FileUUID) -> (locked: bool)
        ensures
            locked == self@.locked_files.contains_key(uuid.0),
    {
        self.locked_files.contains_key(&uuid.0)
    }

    /// Locks the file for `reason`, if nobody holds its lock. Returns nothing,
    /// and changes nothing, where somebody does: the caller waits until a lock
    /// is given back and asks again.
    pub fn lock_file(&mut self, uuid: &FileUUID, reason: &str) -> (lock: Option<FileLock>)
        ensures
            old(self)@.locks(uuid.0, reason@, lock is Some, final(self)@),
            lock is Some ==> lock->Some_0@ == (FileLockView {
                for_uuid: uuid.0,
                data_folder: old(self)@.data_folder,
            }),
    {
        if self.locked_files.contains_key(&uuid.0) {
            return None;
        }
        self.locked_files.insert(uuid.0, reason.to_string());
        assert(self@.locked_files =~= old(self)@.locked_files.insert(uuid.0, reason@));
        Some(FileLock { for_uuid: *uuid, data_folder: self.data_folder.clone() })
    }

    /// Gives a lock back. Returns the reason the file was locked for, or
    /// nothing where the file was not locked.
    pub fn unlock_file(&mut self, lock: FileLock) -> (reason: Option<String>)
        ensures
            old(self)@.unlocks(
                lock@.for_uuid,
                match reason {
                    Some(text) => Some(text@),
                    None => None,
                },
                final(self)@,
            ),
    {
        let reason = self.locked_files.remove(&lock.for_uuid.0);
        assert(self@.locked_files =~= old(self)@.locked_files.remove(lock@.for_uuid));
        reason
    }
}

impl FileLock {
    /// The file that this lock is for.
    pub fn uuid(&self) -> (uuid: FileUUID)
        ensures
            uuid.0 == self@.for_uuid,
    {
        self.for_uuid
    }

    /// The name of the file's blob inside the data folder.
    pub fn basename(&self) -> (name: String)
        ensures
            name@ == hyphenated_lower(self@.for_uuid),
    {
        self.for_uuid.hyphenated()
    }

    /// Where the file's blob lies.
    pub fn path(&self) -> (path: String)
        ensures
            path@ == blob_path(self@.data_folder, self@.for_uuid),
    {
        let mut path = self.data_folder.clone();
        let folder = chars_of(self.data_folder.as_str());
        if folder.len() > 0 && folder[folder.len() - 1] != '/' {
            path.append("/");
            proof {
                reveal_strlit("/");
                assert("/"@ == seq!['/']);
            }
        }
        let name = self.basename();
        path.append(name.as_str());
        path
    }

    /// The error for a blob that could not be opened or read: `not_found`
    /// says whether the blob is missing, `failure` describes what happened.
    pub fn read_failed(&self, not_found: bool, failure: String) -> (error: OperationError)
        ensures
            not_found ==> error == OperationError::NoFileWithUuid(FileUUID(self@.for_uuid)),
            !not_found ==> error == OperationError::IOError(failure),
    {
        if not_found {
            OperationError::NoFileWithUuid(self.for_uuid)
        } else {
            OperationError::IOError(failure)
        }
    }

    /// The error for a blob that could not be created or written.
    pub fn write_failed(&self, failure: String) -> (error: OperationError)
        ensures
            error == OperationError::IOError(failure),
    {
        OperationError::IOError(failure)
    }

    /// The error for a blob that could not be removed: `not_found` says
    /// whether the blob is missing, `failure` describes what happened.
    pub fn delete_failed(&self, not_found: bool, failure: String) -> (error: OperationError)
        ensures
            not_found ==> error == OperationError::NoFileWithUuid(FileUUID(self@.for_uuid)),
            !not_found ==> error == OperationError::IOError(failure),
    {
        if not_found {
            OperationError::NoFileWithUuid(self.for_uuid)
        } else {
            OperationError::IOError(failure)
        }
    }
}

/// While a file is locked, no second lock on it is granted, whatever happens
/// to other files in between; the first lock has to be given back first.
pub proof fn lemma_lock_is_exclusive(
    before: NodeView,
    uuid: u128,
    reason: Seq<char>,
    locked: NodeView,
    again: Seq<char>,
    granted: bool,
    after: NodeView,
)
    requires
        before.locks(uuid, reason, true, locked),
        locked.locks(uuid, again, granted, after),
    ensures
        !granted,
        after == locked,
        locked.locked_files[uuid] == reason,
{
}

/// Locking or unlocking one file leaves every other file as it was: locked
/// for the same reason, or not locked.
pub proof fn lemma_locks_are_per_file(
    before: NodeView,
    uuid: u128,
    reason: Seq<char>,
    granted: bool,
    locked: NodeView,
    given_back: Option<Seq<char>>,
    unlocked: NodeView,
    other: u128,
)
    requires
        before.locks(uuid, reason, granted, locked),
        locked.unlocks(uuid, given_back, unlocked),
        other != uuid,
    ensures
        locked.locked_files.contains_key(other) == before.locked_files.contains_key(other),
        unlocked.locked_files.contains_key(other) == before.locked_files.contains_key(other),
        before.locked_files.contains_key(other) ==> locked.locked_files[other]
            == before.locked_files[other] && unlocked.locked_files[other]
            == before.locked_files[other],
{
}

/// A lock that was given back can be granted again.
pub proof fn lemma_unlocked_file_can_be_locked(
    before: NodeView,
    uuid: u128,
    given_back: Option<Seq<char>>,
    unlocked: NodeView,
    reason: Seq<char>,
    granted: bool,
    after: NodeView,
)
    requires
        before.unlocks(uuid, given_back, unlocked),
        unlocked.locks(uuid, reason, granted, after),
    ensures
        granted,
        after.locked_files.contains_key(uuid) && after.locked_files[uuid] == reason,
{
}


/// What is asked of the table of locks.
pub enum LockEvent {
    /// A lock on the file is asked for, for a reason.
    Ask(u128, Seq<char>),
    /// The holder of the file's lock gives it back.
    GiveBack(u128),
}

impl NodeView {
    /// The node after one event.
    pub open spec fn after(self, event: LockEvent) -> NodeView {
        match event {
            LockEvent::Ask(uuid, reason) => NodeView {
                locked_files: if self.locked_files.contains_key(uuid) {
                    self.locked_files
                } else {
                    self.locked_files.insert(uuid, reason)
                },
                ..self
            },
            LockEvent::GiveBack(uuid) => NodeView {
                locked_files: self.locked_files.remove(uuid),
                ..self
            },
        }
    }

    /// The node after a row of events.
    pub open spec fn after_all(self, events: Seq<LockEvent>) -> NodeView
        decreases events.len(),
    {
        if events.len() == 0 {
            self
        } else {
            self.after_all(events.drop_last()).after(events.last())
        }
    }

    /// How many locks on `uuid` are out after a row of events: one more for
    /// every lock that was granted, one less for every lock that its holder
    /// gave back.
    pub open spec fn locks_out(self, events: Seq<LockEvent>, uuid: u128) -> int
        decreases events.len(),
    {
        if events.len() == 0 {
            if self.locked_files.contains_key(uuid) {
                1
            } else {
                0
            }
        } else {
            let before = self.after_all(events.drop_last());
            let out = self.locks_out(events.drop_last(), uuid);
            match events.last() {
                LockEvent::Ask(asked, _) => if asked == uuid && !before.locked_files.contains_key(
                    asked,
                ) {
                    out + 1
                } else {
                    out
                },
                LockEvent::GiveBack(given) => if given == uuid && before.locked_files.contains_key(
                    given,
                ) {
                    out - 1
                } else {
                    out
                },
            }
        }
    }
}

/// One event on the table is what `lock_file` and `unlock_file` do.
pub proof fn lemma_events_are_the_operations(node: NodeView, event: LockEvent)
    ensures
        match event {
            LockEvent::Ask(uuid, reason) => node.locks(
                uuid,
                reason,
                !node.locked_files.contains_key(uuid),
                node.after(event),
            ),
            LockEvent::GiveBack(uuid) => node.unlocks(
                uuid,
                if node.locked_files.contains_key(uuid) {
                    Some(node.locked_files[uuid])
                } else {
                    None
                },
                node.after(event),
            ),
        },
{
}

/// However locks are asked for and given back, no file ever has more than
/// one lock out: a file has one lock out while the table holds it, and none
/// while it does not.
pub proof fn lemma_at_most_one_lock_per_file(node: NodeView, events: Seq<LockEvent>, uuid: u128)
    ensures
        0 <= node.locks_out(events, uuid) <= 1,
        node.locks_out(events, uuid) == 1 <==> node.after_all(events).locked_files.contains_key(
            uuid,
        ),
    decreases events.len(),
{
    if events.len() > 0 {
        lemma_at_most_one_lock_per_file(node, events.drop_last(), uuid);
    }
}

} // verus!
