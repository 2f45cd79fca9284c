//! The front node: the namespace of directories and files, and the links to
//! the storage nodes that hold the bytes.
//!
//! The database and the links are driven from outside. This module holds the
//! rules: how a path is walked, directory by directory; what each answer of
//! the database or of a storage node means; which node a new file goes to.

pub mod config;
pub mod http;
pub mod monitor;
pub mod sftp;
pub mod storage_node_connection;
pub mod tys;

use vstd::prelude::*;
use vstd::string::StringExecFns;
use crate::file_uuid::FileUUID;
use crate::message::{Message, MessageView};
use crate::text::{
    chars_of, join_chars, join_segments, segment_views, split_path, split_range, split_segments,
    string_of, string_views,
};
use tys::{DirectoryID, Error, StorageNodeID};

verus! {

/// What is known of a file before it is placed on a storage node.
#[derive(Debug, Clone, Copy, PartialEq, Eq, Structural)]
pub struct UploadFileInfo {
    pub data_length: usize,
}

/// Which file was read, and from which node.
#[derive(Debug, Clone, PartialEq, Eq)]
pub struct GetFileInfo {
    pub uuid: FileUUID,
    pub node_name: String,
}

/// What a directory holds: its files and its directories, each with its name.
#[derive(Debug, Clone, PartialEq, Eq)]
pub struct DirectoryListing {
    pub file_uuids_and_names: Vec<(FileUUID, String)>,
    pub directory_ids_and_names: Vec<(DirectoryID, String)>,
}

/// The directory part and the last segment of a path: what stands before the
/// last slash, and what stands behind it. A path without a slash has an empty
/// directory part.
pub open spec fn parent_and_name(full_path: Seq<char>) -> (Seq<char>, Seq<char>) {
    let segments = split_segments(full_path);
    (join_segments(segments.drop_last()), segments.last())
}

/// Parts a path into the path of its directory and the name in it.
pub fn split_parent(full_path: &str) -> (parts: (String, String))
    ensures
        (parts.0@, parts.1@) == parent_and_name(full_path@),
{
    let chars = chars_of(full_path);
    let mut segments = split_range(&chars, 0, chars.len());
    assert(chars@.subrange(0, chars.len() as int) == chars@);
    let ghost all = segment_views(segments@);
    let last = segments.pop().unwrap();
    assert(segment_views(segments@) == all.drop_last());
    let parent = join_chars(&segments);
    (string_of(&parent), string_of(&last))
}

/// The segments that a walk along `path` asks for, one after the other: none
/// for the empty path, which names the directory the walk starts in.
pub open spec fn walk_segments(path: Seq<char>) -> Seq<Seq<char>> {
    if path.len() == 0 {
        Seq::empty()
    } else {
        split_segments(path)
    }
}

/// The part of a path that was found to exist: each segment followed by a
/// slash.
pub open spec fn existing_prefix(segments: Seq<Seq<char>>) -> Seq<char>
    decreases segments.len(),
{
    if segments.len() == 0 {
        Seq::empty()
    } else {
        existing_prefix(segments.drop_last()) + segments.last() + seq!['/']
    }
}

/// A walk along a path as contracts see it.
pub struct WalkView {
    /// The segments of the path.
    pub segments: Seq<Seq<char>>,
    /// How many of them were found.
    pub position: nat,
    /// The directory that was reached.
    pub current_directory: DirectoryID,
}

/// What a walk does next.
pub enum WalkStepView {
    /// Look for the directory `name` in `parent`.
    Lookup { parent: DirectoryID, name: Seq<char> },
    /// Every segment was found: the path names this directory.
    Arrived(DirectoryID),
}

impl WalkView {
    /// Whether every segment was found.
    pub open spec fn arrived(self) -> bool {
        self.position >= self.segments.len()
    }

    pub open spec fn next(self) -> WalkStepView {
        if self.arrived() {
            WalkStepView::Arrived(self.current_directory)
        } else {
            WalkStepView::Lookup {
                parent: self.current_directory,
                name: self.segments[self.position as int],
            }
        }
    }

    /// The walk after the lookup found `child`.
    pub open spec fn descended(self, child: DirectoryID) -> WalkView {
        WalkView {
            segments: self.segments,
            position: self.position + 1,
            current_directory: child,
        }
    }

    /// What was found so far, as the error for a missing directory reports
    /// it.
    pub open spec fn found_so_far(self) -> Seq<char> {
        existing_prefix(self.segments.subrange(0, self.position as int))
    }

    /// Where the walk ends in a tree of directories, in which `children`
    /// says what a directory holds under a name: the directory that the path
    /// names, or the part of the path that exists where a segment is missing.
    pub open spec fn outcome(
        self,
        children: spec_fn(DirectoryID, Seq<char>) -> Option<DirectoryID>,
    ) -> Result<DirectoryID, Seq<char>>
        decreases self.segments.len() - self.position,
    {
        if self.arrived() {
            Ok(self.current_directory)
        } else {
            match children(self.current_directory, self.segments[self.position as int]) {
                Some(child) => self.descended(child).outcome(children),
                None => Err(self.found_so_far()),
            }
        }
    }
}

/// One step of a walk, for the caller to carry out.
#[derive(Debug, Clone, PartialEq, Eq)]
pub enum WalkStep {
    /// Look for the directory `name` in `parent`, and tell `descend` what was
    /// found.
    Lookup { parent: DirectoryID, name: String },
    /// The path names this directory.
    Arrived(DirectoryID),
}

impl View for WalkStep {
    type V = WalkStepView;

    open spec fn view(&self) -> WalkStepView {
        match *self {
            WalkStep::Lookup { parent, name } => WalkStepView::Lookup { parent, name: name@ },
            WalkStep::Arrived(directory) => WalkStepView::Arrived(directory),
        }
    }
}

/// A walk along a path, from a directory downwards. The caller asks `next`
/// what to look up, looks it up, and hands the answer to `descend`, until the
/// walk has arrived or a directory is missing.
pub struct PathWalk {
    segments: Vec<String>,
    position: usize,
    current_directory: DirectoryID,
    topmost_existing_directory: String,
}

impl View for PathWalk {
    type V = WalkView;

    closed spec fn view(&self) -> WalkView {
        WalkView {
            segments: string_views(self.segments@),
            position: self.position as nat,
            current_directory: self.current_directory,
        }
    }
}

impl PathWalk {
    /// What every walk satisfies.
    pub closed spec fn well_formed(&self) -> bool {
        &&& self.position <= self.segments.len()
        &&& self.topmost_existing_directory@ == self@.found_so_far()
    }

    /// Starts a walk along `path`, which has no slash in front, from `base`.
    pub fn start(path: &str, base: DirectoryID) -> (walk: PathWalk)
        ensures
            walk.well_formed(),
            walk@ == (WalkView {
                segments: walk_segments(path@),
                position: 0,
                current_directory: base,
            }),
    {
        let segments = if path.unicode_len() == 0 {
            Vec::new()
        } else {
            split_path(path)
        };
        let walk = PathWalk {
            segments,
            position: 0,
            current_directory: base,
            topmost_existing_directory: String::new(),
        };
        assert(walk@.segments == walk_segments(path@));
        assert(walk@.segments.subrange(0, 0) == Seq::<Seq<char>>::empty());
        walk
    }

    /// What to do next: a lookup, or nothing more.
    pub fn next(&self) -> (step: WalkStep)
        requires
            self.well_formed(),
        ensures
            step@ == self@.next(),
    {
        if self.position < self.segments.len() {
            WalkStep::Lookup {
                parent: self.current_directory,
                name: self.segments[self.position].clone(),
            }
        } else {
            WalkStep::Arrived(self.current_directory)
        }
    }

    /// Takes the answer to the lookup that `next` asked for. Where the
    /// directory was found, the walk goes on from it. Where it was not, the
    /// walk fails with `NoSuchDirectory`, which holds what was found so far.
    /// A walk that has arrived stays as it is.
    pub fn descend(&mut self, found: Option<DirectoryID>) -> (outcome: Result<(), Error>)
        requires
            old(self).well_formed(),
        ensures
            final(self).well_formed(),
            old(self)@.arrived() ==> outcome is Ok && final(self)@ == old(self)@,
            !old(self)@.arrived() ==> match found {
                Some(child) => outcome is Ok && final(self)@ == old(self)@.descended(child),
                None => final(self)@ == old(self)@ && (outcome matches Err(
                    Error::NoSuchDirectory { topmost_existing_directory },
                ) && topmost_existing_directory@ == old(self)@.found_so_far()),
            },
    {
        if self.position >= self.segments.len() {
            return Ok(());
        }
        match found {
            Some(child) => {
                let ghost before = self@;
                let ghost segments = self@.segments;
                self.topmost_existing_directory.append(self.segments[self.position].as_str());
                self.topmost_existing_directory.append("/");
                proof {
                    reveal_strlit("/");
                    assert("/"@ == seq!['/']);
                    let longer = segments.subrange(0, self.position + 1);
                    assert(longer.drop_last() == segments.subrange(0, self.position as int));
                    assert(longer.last() == segments[self.position as int]);
                }
                self.current_directory = child;
                self.position = self.position + 1;
                Ok(())
            },
            None => Err(
                Error::NoSuchDirectory {
                    topmost_existing_directory: self.topmost_existing_directory.clone(),
                },
            ),
        }
    }
}

/// A walk whose every lookup is answered from one tree of directories ends
/// where the tree says: each step keeps the outcome, a walk that has arrived
/// has reached it, and a walk that fails reports the part of the path that
/// the tree holds.
pub proof fn lemma_walk_follows_the_tree(
    walk: WalkView,
    children: spec_fn(DirectoryID, Seq<char>) -> Option<DirectoryID>,
)
    ensures
        match walk.next() {
            WalkStepView::Arrived(directory) => walk.outcome(children) == Ok::<
                DirectoryID,
                Seq<char>,
            >(directory),
            WalkStepView::Lookup { parent, name } => match children(parent, name) {
                Some(child) => walk.outcome(children) == walk.descended(child).outcome(children),
                None => walk.outcome(children) == Err::<DirectoryID, Seq<char>>(
                    walk.found_so_far(),
                ),
            },
        },
{
}

/// The file that a lookup by directory and name found; `NoSuchFile` where it
/// found none.
pub fn file_in_directory(found: Option<FileUUID>) -> (file: Result<FileUUID, Error>)
    ensures
        match found {
            Some(uuid) => file matches Ok(got) && got == uuid,
            None => file is Err && file->Err_0 is NoSuchFile,
        },
{
    match found {
        Some(uuid) => Ok(uuid),
        None => Err(Error::NoSuchFile),
    }
}

/// The home directory that a lookup by user name found; `NoSuchUser`, with
/// the name, where it found none.
pub fn home_directory(found: Option<DirectoryID>, name: &str) -> (home: Result<DirectoryID, Error>)
    ensures
        match found {
            Some(directory) => home matches Ok(got) && got == directory,
            None => home matches Err(Error::NoSuchUser { name: reported }) && reported@ == name@,
        },
{
    match found {
        Some(directory) => Ok(directory),
        None => Err(Error::NoSuchUser { name: name.to_string() }),
    }
}

/// Where a file is stored, as the lookup by its UUID found it: the node and
/// the node's name; `UnknownUUID` where no file has the UUID.
pub fn file_location(found: Option<(StorageNodeID, String)>) -> (location: Result<
    (StorageNodeID, String),
    Error,
>)
    ensures
        match found {
            Some(place) => location matches Ok(got) && got == place,
            None => location is Err && location->Err_0 is UnknownUUID,
        },
{
    match found {
        Some(place) => Ok(place),
        None => Err(Error::UnknownUUID),
    }
}

/// The link to the node that holds a file, if the node is among the
/// connected ones; `NotConnectedToNode` where it is not.
pub fn connection_to_node<C>(link: Option<C>) -> (connection: Result<C, Error>)
    ensures
        match link {
            Some(there) => connection matches Ok(got) && got == there,
            None => connection is Err && connection->Err_0 is NotConnectedToNode,
        },
{
    match link {
        Some(there) => Ok(there),
        None => Err(Error::NotConnectedToNode),
    }
}

/// The node that a new file goes to: the first of the connected ones;
/// `NotConnectedToAnyNode` where there is none. What is known of the file
/// does not yet matter.
pub fn get_appropriate_node_for(connected: &Vec<StorageNodeID>, file_info: &UploadFileInfo) -> (node:
    Result<StorageNodeID, Error>)
    ensures
        connected.len() > 0 ==> (node matches Ok(id) && id == connected[0]),
        connected.len() == 0 ==> node is Err && node->Err_0 is NotConnectedToAnyNode,
{
    if connected.len() > 0 {
        Ok(connected[0])
    } else {
        Err(Error::NotConnectedToAnyNode)
    }
}

/// The bytes of a file, out of the response to a read; `UnexpectedResponse`,
/// with the response, where it is of any other kind.
pub fn expect_file_contents(reply: Message) -> (contents: Result<Vec<u8>, Error>)
    ensures
        match reply@ {
            MessageView::FileContents(data) => contents is Ok && contents->Ok_0@ == data,
            _ => contents matches Err(Error::UnexpectedResponse(got)) && got@ == reply@,
        },
{
    match reply {
        Message::FileContents(data) => Ok(data),
        other => Err(Error::UnexpectedResponse(other)),
    }
}

/// Success, out of the response to a write; `UnexpectedResponse`, with the
/// response, where it is no acknowledgement.
pub fn expect_ack(reply: Message) -> (done: Result<(), Error>)
    ensures
        match reply@ {
            MessageView::Ack => done is Ok,
            _ => done matches Err(Error::UnexpectedResponse(got)) && got@ == reply@,
        },
{
    match reply {
        Message::Ack => Ok(()),
        other => Err(Error::UnexpectedResponse(other)),
    }
}

} // verus!
