//! The rules of the SFTP adapter: handles, paths, what a session has open,
//! and what each request is answered with.
//!
//! The SSH server and the SFTP packets live outside this module. It is
//! handed plain values (a path, a handle, what a lookup found) and says what
//! the session answers.

use std::collections::HashMap;
use vstd::prelude::*;
use vstd::string::StringExecFns;
use crate::file_uuid::{hyphenated_lower, lemma_uuid_round_trip, parsed_uuid, FileUUID};
use crate::text::{
    all_slash_free, chars_of, decimal, decimal_of, join_chars, join_segments,
    lemma_decimal_round_trip, lemma_join_from_the_left, lemma_split_is_slash_free,
    lemma_split_of_join, parse_decimal,
    parsed_decimal, segment_views, slash_free, split_range, split_segments, string_of,
    string_of_range,
};
use super::tys::{DirectoryID, Error};
use super::DirectoryListing;

verus! {

broadcast use vstd::std_specs::hash::group_hash_axioms;

/// The status that an SFTP request is refused with. Success is no variant:
/// a request that succeeds is answered with what it asked for.
#[derive(Debug, Clone, Copy, PartialEq, Eq, Structural)]
pub enum StatusCode {
    Eof,
    NoSuchFile,
    PermissionDenied,
    Failure,
    BadMessage,
    NoConnection,
    ConnectionLost,
    OpUnsupported,
}

/// What a handle stands for: an open file or an open directory.
#[derive(Debug, Clone, Copy, PartialEq, Eq, Structural)]
pub enum Handle {
    File(FileUUID),
    Directory(DirectoryID),
}

/// The text of a handle: `f:` and the file's hyphenated UUID, or `d:` and
/// the directory's number in decimal.
pub open spec fn handle_text(handle: Handle) -> Seq<char> {
    match handle {
        Handle::File(uuid) => seq!['f', ':'] + hyphenated_lower(uuid.0),
        Handle::Directory(id) => seq!['d', ':'] + decimal(id.0 as int),
    }
}

/// The handle that a text stands for: after `f:` a UUID in any form the UUID
/// parser reads, after `d:` a 64-bit number in decimal. Nothing for a text of
/// any other shape.
pub open spec fn parsed_handle(text: Seq<char>) -> Option<Handle> {
    if text.len() < 2 || text[1] != ':' {
        None
    } else if text[0] == 'f' {
        match parsed_uuid(text.subrange(2, text.len() as int)) {
            Some(uuid) => Some(Handle::File(FileUUID(uuid))),
            None => None,
        }
    } else if text[0] == 'd' {
        match parsed_decimal(text.subrange(2, text.len() as int)) {
            Some(id) => Some(Handle::Directory(DirectoryID(id))),
            None => None,
        }
    } else {
        None
    }
}

impl Handle {
    /// The text that the client is given for this handle. `from_str` reads
    /// it back as the same handle.
    pub fn to_string(&self) -> (text: String)
        ensures
            text@ == handle_text(*self),
            parsed_handle(text@) == Some(*self),
    {
        match self {
            Handle::File(uuid) => {
                let mut text = String::from_str("f:");
                proof {
                    reveal_strlit("f:");
                    assert("f:"@ == seq!['f', ':']);
                }
                let name = uuid.hyphenated();
                text.append(name.as_str());
                assert(text@.subrange(2, text@.len() as int) == name@);
                text
            },
            Handle::Directory(id) => {
                let mut text = String::from_str("d:");
                proof {
                    reveal_strlit("d:");
                    assert("d:"@ == seq!['d', ':']);
                }
                let number = decimal_of(id.0);
                text.append(number.as_str());
                proof {
                    lemma_decimal_round_trip(id.0);
                    assert(text@.subrange(2, text@.len() as int) == number@);
                }
                text
            },
        }
    }

    /// Reads a handle back from its text. Fails with `BadMessage`, and only
    /// so, where the text is of no shape that stands for a handle.
    pub fn from_str(text: &str) -> (handle: Result<Handle, StatusCode>)
        ensures
            handle == match parsed_handle(text@) {
                Some(handle) => Ok::<Handle, StatusCode>(handle),
                None => Err(StatusCode::BadMessage),
            },
    {
        let chars = chars_of(text);
        if chars.len() < 2 || chars[1] != ':' {
            return Err(StatusCode::BadMessage);
        }
        let suffix = string_of_range(&chars, 2, chars.len());
        if chars[0] == 'f' {
            match FileUUID::try_parse(suffix.as_str()) {
                Some(uuid) => Ok(Handle::File(uuid)),
                None => Err(StatusCode::BadMessage),
            }
        } else if chars[0] == 'd' {
            match parse_decimal(suffix.as_str()) {
                Some(id) => Ok(Handle::Directory(DirectoryID(id))),
                None => Err(StatusCode::BadMessage),
            }
        } else {
            Err(StatusCode::BadMessage)
        }
    }
}

/// The text of a handle is read back as the same handle.
pub proof fn lemma_handle_round_trip(handle: Handle)
    ensures
        parsed_handle(handle_text(handle)) == Some(handle),
{
    let text = handle_text(handle);
    match handle {
        Handle::File(uuid) => {
            lemma_uuid_round_trip(uuid.0);
            assert(text.subrange(2, text.len() as int) == hyphenated_lower(uuid.0));
        },
        Handle::Directory(directory) => {
            lemma_decimal_round_trip(directory.0);
            assert(text.subrange(2, text.len() as int) == decimal(directory.0 as int));
        },
    }
}

/// The permission bits reported for a handle: a regular file or a directory,
/// open to everybody.
pub open spec fn permissions(handle: Handle) -> u32 {
    match handle {
        Handle::File(_) => 0o100777,
        Handle::Directory(_) => 0o040777,
    }
}

/// The permission bits that `stat`, `lstat` and `fstat` report for a handle.
pub fn attrs_for_handle(handle: &Handle) -> (bits: u32)
    ensures
        bits == permissions(*handle),
{
    match handle {
        Handle::File(_) => 0o100777,
        Handle::Directory(_) => 0o040777,
    }
}

/// The part of a file that a read hands out: from `offset`, at most `len`
/// bytes, and less where the file ends before.
pub open spec fn read_window(data: Seq<u8>, offset: u64, len: u32) -> Seq<u8>
    recommends
        offset < data.len(),
{
    let end = if offset + len <= data.len() { offset + len } else { data.len() as int };
    data.subrange(offset as int, end)
}

/// Cuts the bytes that a read asks for out of a file. Fails with `Eof`, and
/// only so, where `offset` is at or behind the end of the file.
pub fn read_slice(data: Vec<u8>, offset: u64, len: u32) -> (window: Result<Vec<u8>, StatusCode>)
    ensures
        offset >= data@.len() ==> window == Err::<Vec<u8>, StatusCode>(StatusCode::Eof),
        offset < data@.len() ==> window is Ok && window->Ok_0@ == read_window(data@, offset, len),
{
    if offset >= data.len() as u64 {
        return Err(StatusCode::Eof);
    }
    let start = offset as usize;
    let left = data.len() - start;
    let end = if len as u64 <= left as u64 { start + len as usize } else { data.len() };
    let mut window: Vec<u8> = Vec::new();
    let mut i: usize = start;
    while i < end
        invariant
            start <= i <= end <= data.len(),
            window@ == data@.subrange(start as int, i as int),
        decreases end - i,
    {
        window.push(data[i]);
        i += 1;
    }
    Ok(window)
}

/// The flags of an `open` request, as the protocol numbers them.
#[derive(Debug, Clone, Copy, PartialEq, Eq, Structural)]
pub struct OpenFlags(pub u32);

pub const OPEN_READ: u32 = 0x01;

pub const OPEN_WRITE: u32 = 0x02;

pub const OPEN_APPEND: u32 = 0x04;

pub const OPEN_CREATE: u32 = 0x08;

pub const OPEN_TRUNCATE: u32 = 0x10;

pub const OPEN_EXCLUDE: u32 = 0x20;

impl OpenFlags {
    /// Whether every bit of `flag` is set.
    pub open spec fn has(self, flag: u32) -> bool {
        self.0 & flag == flag
    }

    /// Whether every bit of `flag` is set.
    pub fn contains(&self, flag: u32) -> (set: bool)
        ensures
            set == self.has(flag),
    {
        self.0 & flag == flag
    }
}


/// Whether a path starts at the root.
pub open spec fn is_absolute(path: Seq<char>) -> bool {
    path.len() > 0 && path[0] == '/'
}

/// A path without the slash that roots it and without one slash at its end.
pub open spec fn path_body(path: Seq<char>) -> Seq<char> {
    let rooted = if is_absolute(path) {
        path.subrange(1, path.len() as int)
    } else {
        path
    };
    if rooted.len() > 0 && rooted.last() == '/' {
        rooted.drop_last()
    } else {
        rooted
    }
}

/// The segment `.`.
pub open spec fn is_dot(segment: Seq<char>) -> bool {
    segment == seq!['.']
}

/// The segment `..`.
pub open spec fn is_dot_dot(segment: Seq<char>) -> bool {
    segment == seq!['.', '.']
}

/// Walks the segments of a path from the left: `..` takes the last segment
/// back, `.` is passed over, every other segment is kept. Nothing where a
/// `..` finds no segment to take back: the path would leave where it
/// started.
pub open spec fn resolve_dots(segments: Seq<Seq<char>>) -> Option<Seq<Seq<char>>>
    decreases segments.len(),
{
    if segments.len() == 0 {
        Some(Seq::empty())
    } else {
        match resolve_dots(segments.drop_last()) {
            None => None,
            Some(kept) => {
                if is_dot_dot(segments.last()) {
                    if kept.len() == 0 {
                        None
                    } else {
                        Some(kept.drop_last())
                    }
                } else if is_dot(segments.last()) {
                    Some(kept)
                } else {
                    Some(kept.push(segments.last()))
                }
            },
        }
    }
}

/// The slash in front of an absolute path, and nothing in front of any
/// other.
pub open spec fn root_prefix(path: Seq<char>) -> Seq<char> {
    if is_absolute(path) {
        seq!['/']
    } else {
        Seq::empty()
    }
}

/// The normal form of a path: one slash at its end is dropped, `.` and `..`
/// are resolved, and an absolute path stays absolute. Nothing where the path
/// climbs above where it starts: above the root, for an absolute path.
pub open spec fn normalized(path: Seq<char>) -> Option<Seq<char>> {
    match resolve_dots(split_segments(path_body(path))) {
        None => None,
        Some(kept) => Some(root_prefix(path) + join_segments(kept)),
    }
}

/// A path that climbs too high stays so, whatever follows.
pub proof fn lemma_escape_is_final(segments: Seq<Seq<char>>, upto: int)
    requires
        0 <= upto <= segments.len(),
        resolve_dots(segments.subrange(0, upto)) is None,
    ensures
        resolve_dots(segments) is None,
    decreases segments.len() - upto,
{
    if upto == segments.len() {
        assert(segments.subrange(0, upto) == segments);
    } else {
        assert(segments.subrange(0, upto + 1).drop_last() == segments.subrange(0, upto));
        lemma_escape_is_final(segments, upto + 1);
    }
}

fn copy_chars(chars: &Vec<char>) -> (copy: Vec<char>)
    ensures
        copy@ == chars@,
{
    let mut copy: Vec<char> = Vec::new();
    let mut i: usize = 0;
    while i < chars.len()
        invariant
            i <= chars.len(),
            copy@ == chars@.subrange(0, i as int),
        decreases chars.len() - i,
    {
        copy.push(chars[i]);
        i += 1;
    }
    assert(chars@.subrange(0, chars.len() as int) == chars@);
    copy
}

/// Brings a path into its normal form. Fails with `BadMessage`, and only so,
/// where the path climbs above where it starts.
pub fn normalize_path(path: &str) -> (canon: Result<String, StatusCode>)
    ensures
        match normalized(path@) {
            Some(normal) => canon is Ok && canon->Ok_0@ == normal,
            None => canon == Err::<String, StatusCode>(StatusCode::BadMessage),
        },
{
    let chars = chars_of(path);
    let absolute = chars.len() > 0 && chars[0] == '/';
    let start: usize = if absolute { 1 } else { 0 };
    let end: usize = if chars.len() > start && chars[chars.len() - 1] == '/' {
        chars.len() - 1
    } else {
        chars.len()
    };
    let segments = split_range(&chars, start, end);
    proof {
        let rooted = if is_absolute(path@) {
            path@.subrange(1, path@.len() as int)
        } else {
            path@
        };
        assert(rooted == chars@.subrange(start as int, chars.len() as int));
        assert(path_body(path@) == chars@.subrange(start as int, end as int));
    }
    let ghost all = segment_views(segments@);
    let mut kept: Vec<Vec<char>> = Vec::new();
    let mut i: usize = 0;
    assert(all.subrange(0, 0) == Seq::<Seq<char>>::empty());
    while i < segments.len()
        invariant
            i <= segments.len(),
            all == segment_views(segments@),
            all == split_segments(path_body(path@)),
            resolve_dots(all.subrange(0, i as int)) == Some(segment_views(kept@)),
        decreases segments.len() - i,
    {
        let segment = &segments[i];
        let ghost before = segment_views(kept@);
        proof {
            assert(all.subrange(0, i + 1).drop_last() == all.subrange(0, i as int));
            assert(all.subrange(0, i + 1).last() == segment@);
        }
        if segment.len() == 2 && segment[0] == '.' && segment[1] == '.' {
            assert(segment@ == seq!['.', '.']);
            if kept.len() == 0 {
                proof {
                    assert(resolve_dots(all.subrange(0, i + 1)) is None);
                    lemma_escape_is_final(all, i + 1);
                }
                return Err(StatusCode::BadMessage);
            }
            kept.pop();
            assert(segment_views(kept@) == before.drop_last());
        } else if segment.len() == 1 && segment[0] == '.' {
            assert(segment@ == seq!['.']);
        } else {
            assert(!is_dot(segment@)) by {
                if segment@ == seq!['.'] {
                    assert(segment@.len() == 1 && segment@[0] == '.');
                }
            }
            assert(!is_dot_dot(segment@)) by {
                if segment@ == seq!['.', '.'] {
                    assert(segment@.len() == 2 && segment@[0] == '.' && segment@[1] == '.');
                }
            }
            kept.push(copy_chars(segment));
            assert(segment_views(kept@) == before.push(segment@));
        }
        i += 1;
    }
    assert(all.subrange(0, segments.len() as int) == all);
    let joined = join_chars(&kept);
    let mut canon = String::new();
    if absolute {
        canon.append("/");
        proof {
            reveal_strlit("/");
            assert("/"@ == seq!['/']);
        }
    }
    let tail = string_of(&joined);
    canon.append(tail.as_str());
    assert(canon@ == root_prefix(path@) + join_segments(segment_views(kept@)));
    Ok(canon)
}

/// Where a normal path starts, and the path from there: an absolute path
/// starts at the root and loses its slash; any other starts at the user's
/// home directory and stays as it is.
pub open spec fn anchored(normal: Seq<char>) -> (bool, Seq<char>) {
    if is_absolute(normal) {
        (true, normal.subrange(1, normal.len() as int))
    } else {
        (false, normal)
    }
}

/// Normalizes a path and says where it starts: `true` for the root, `false`
/// for the user's home directory, each with the path from there. Fails as
/// `normalize_path` does.
pub fn absolutize_path(path: &str) -> (anchor: Result<(bool, String), StatusCode>)
    ensures
        match normalized(path@) {
            Some(normal) => anchor is Ok && (anchor->Ok_0.0, anchor->Ok_0.1@) == anchored(normal),
            None => anchor == Err::<(bool, String), StatusCode>(StatusCode::BadMessage),
        },
{
    let normal = normalize_path(path)?;
    let chars = chars_of(normal.as_str());
    if chars.len() > 0 && chars[0] == '/' {
        Ok((true, string_of_range(&chars, 1, chars.len())))
    } else {
        Ok((false, normal))
    }
}


/// Whether every segment is an ordinary name: no slash in it, and neither
/// `.` nor `..`.
pub open spec fn all_plain(segments: Seq<Seq<char>>) -> bool {
    forall|k: int|
        0 <= k < segments.len() ==> slash_free(#[trigger] segments[k]) && !is_dot(segments[k])
            && !is_dot_dot(segments[k])
}

/// What is left after `.` and `..` are resolved holds ordinary names only.
pub proof fn lemma_resolved_is_plain(segments: Seq<Seq<char>>)
    requires
        all_slash_free(segments),
        resolve_dots(segments) is Some,
    ensures
        all_plain(resolve_dots(segments)->0),
    decreases segments.len(),
{
    if segments.len() > 0 {
        let front = segments.drop_last();
        assert forall|k: int| 0 <= k < front.len() implies slash_free(#[trigger] front[k]) by {
            assert(front[k] == segments[k]);
        }
        lemma_resolved_is_plain(front);
        let kept = resolve_dots(front)->0;
        let after = resolve_dots(segments)->0;
        assert(slash_free(segments.last()));
        assert forall|k: int| 0 <= k < after.len() implies slash_free(#[trigger] after[k])
            && !is_dot(after[k]) && !is_dot_dot(after[k]) by {
            if k < kept.len() {
                assert(after[k] == kept[k]);
            }
        }
    }
}

/// Ordinary names resolve to themselves.
pub proof fn lemma_plain_resolves_to_itself(segments: Seq<Seq<char>>)
    requires
        all_plain(segments),
    ensures
        resolve_dots(segments) == Some(segments),
    decreases segments.len(),
{
    if segments.len() == 0 {
        assert(segments == Seq::<Seq<char>>::empty());
    } else {
        let front = segments.drop_last();
        assert forall|k: int| 0 <= k < front.len() implies slash_free(#[trigger] front[k])
            && !is_dot(front[k]) && !is_dot_dot(front[k]) by {
            assert(front[k] == segments[k]);
        }
        lemma_plain_resolves_to_itself(front);
        assert(slash_free(segments.last()));
        assert(front.push(segments.last()) == segments);
    }
}

/// A path body that is made of ordinary names, joined, normalizes to itself
/// under any root.
proof fn lemma_body_is_fixed(kept: Seq<Seq<char>>)
    requires
        all_plain(kept),
    ensures
        resolve_dots(split_segments(join_segments(kept))) is Some,
        join_segments(resolve_dots(split_segments(join_segments(kept)))->0) == join_segments(kept),
{
    if kept.len() == 0 {
        let one = seq![Seq::<char>::empty()];
        assert(split_segments(join_segments(kept)) == one);
        assert(slash_free(one[0]));
        assert(!is_dot(one[0])) by {
            if one[0] == seq!['.'] {
                assert(seq!['.'].len() == 1);
            }
        }
        assert(!is_dot_dot(one[0])) by {
            if one[0] == seq!['.', '.'] {
                assert(seq!['.', '.'].len() == 2);
            }
        }
        assert(all_plain(one));
        lemma_plain_resolves_to_itself(one);
        assert(join_segments(one) == Seq::<char>::empty());
    } else {
        assert(all_slash_free(kept));
        lemma_split_of_join(kept);
        lemma_plain_resolves_to_itself(kept);
    }
}

/// Normalizing twice is normalizing once. This holds of every path whose
/// normal form does not end in a slash, and of the root itself: a normal form
/// that ends in an empty segment, as that of `a//` does, loses that segment
/// when it is normalized again.
pub proof fn lemma_normalize_is_idempotent(path: Seq<char>)
    requires
        normalized(path) is Some,
        normalized(path)->0.len() >= 2 ==> normalized(path)->0.last() != '/',
    ensures
        normalized(normalized(path)->0) == normalized(path),
{
    let segments = split_segments(path_body(path));
    lemma_split_is_slash_free(path_body(path));
    let kept = resolve_dots(segments)->0;
    lemma_resolved_is_plain(segments);
    let joined = join_segments(kept);
    let normal = normalized(path)->0;
    assert(normal == root_prefix(path) + joined);
    let slash = seq!['/'];
    if is_absolute(path) {
        assert(normal == slash + joined);
        assert(is_absolute(normal));
        assert(normal.subrange(1, normal.len() as int) == joined);
        assert(path_body(normal) == joined);
        lemma_body_is_fixed(kept);
    } else if is_absolute(joined) {
        assert(normal == joined);
        assert(kept.len() >= 2 && kept[0].len() == 0) by {
            if kept.len() == 1 {
                assert(joined == kept[0]);
                assert(slash_free(kept[0]));
            } else if kept.len() >= 2 {
                lemma_join_from_the_left(kept);
                assert(slash_free(kept[0]));
                if kept[0].len() > 0 {
                    assert(joined[0] == kept[0][0]);
                }
            }
        }
        lemma_join_from_the_left(kept);
        let rest = kept.subrange(1, kept.len() as int);
        assert(kept[0] == Seq::<char>::empty());
        assert(joined == slash + join_segments(rest));
        assert(normal.subrange(1, normal.len() as int) == join_segments(rest));
        assert(path_body(normal) == join_segments(rest));
        assert forall|k: int| 0 <= k < rest.len() implies slash_free(#[trigger] rest[k])
            && !is_dot(rest[k]) && !is_dot_dot(rest[k]) by {
            assert(rest[k] == kept[k + 1]);
        }
        lemma_body_is_fixed(rest);
        assert(root_prefix(normal) == slash);
    } else {
        assert(normal == joined);
        assert(path_body(normal) == joined);
        lemma_body_is_fixed(kept);
        assert(root_prefix(normal) == Seq::<char>::empty());
    }
}

/// A normal form holds neither `.` nor `..` as a segment: it names each
/// directory on its way once, from the top down.
pub proof fn lemma_normal_form_has_no_dots(path: Seq<char>)
    requires
        normalized(path) is Some,
    ensures
        all_plain(resolve_dots(split_segments(path_body(path)))->0),
{
    lemma_split_is_slash_free(path_body(path));
    lemma_resolved_is_plain(split_segments(path_body(path)));
}


/// What an SSH session does with a request for a subsystem.
#[derive(Debug, Clone, Copy, PartialEq, Eq, Structural)]
pub enum SubsystemDecision {
    /// Nobody has logged in on this session: the request is denied and the
    /// session fails.
    Deny,
    /// Run the SFTP adapter on the channel, then report success.
    RunSftp,
    /// The subsystem is not known: report failure, and go on.
    Refuse,
}

/// Decides on a request for the subsystem `name`, on a session whose user
/// has logged in or not: only `sftp` is served, and only to a user.
pub fn subsystem_request(logged_in: bool, name: &str) -> (decision: SubsystemDecision)
    ensures
        decision == if !logged_in {
            SubsystemDecision::Deny
        } else if name@ == "sftp"@ {
            SubsystemDecision::RunSftp
        } else {
            SubsystemDecision::Refuse
        },
{
    if !logged_in {
        return SubsystemDecision::Deny;
    }
    let chars = chars_of(name);
    proof {
        reveal_strlit("sftp");
        if name@ == "sftp"@ {
            assert(chars@.len() == 4 && chars@[0] == 's' && chars@[1] == 'f' && chars@[2] == 't'
                && chars@[3] == 'p');
        }
    }
    if chars.len() == 4 && chars[0] == 's' && chars[1] == 'f' && chars[2] == 't' && chars[3] == 'p' {
        assert(chars@ == "sftp"@);
        SubsystemDecision::RunSftp
    } else {
        SubsystemDecision::Refuse
    }
}

/// Whether a directory that is open was listed already.
#[derive(Debug, Clone, Copy, PartialEq, Eq, Structural)]
pub enum DirectoryStatus {
    Unread,
    Read,
}

/// How a file was opened.
#[derive(Debug, Clone, Copy, PartialEq, Eq, Structural)]
pub struct FileStatus {
    pub append: bool,
}

/// What a session has open, as contracts see it.
pub struct SessionView {
    /// The directories that are open, and whether each was listed.
    pub directory_status: Map<i64, DirectoryStatus>,
    /// The files that are open.
    pub file_status: Map<u128, FileStatus>,
}

/// The handle that a path was found to name, where it names a directory:
/// a file, or nothing, is no directory to open.
pub open spec fn directory_to_open(found: Result<Handle, StatusCode>) -> Result<
    DirectoryID,
    StatusCode,
> {
    match found {
        Ok(Handle::Directory(directory)) => Ok(directory),
        Ok(Handle::File(_)) => Err(StatusCode::NoSuchFile),
        Err(status) => Err(status),
    }
}

/// The file that a path was found to name, if any: a directory, or a path
/// that names nothing, is no file. Any other failure of the lookup fails the
/// request.
pub open spec fn file_to_open(found: Result<Handle, StatusCode>) -> Result<
    Option<FileUUID>,
    StatusCode,
> {
    match found {
        Ok(Handle::File(uuid)) => Ok(Some(uuid)),
        Ok(Handle::Directory(_)) => Ok(None),
        Err(StatusCode::NoSuchFile) => Ok(None),
        Err(_) => Err(StatusCode::Failure),
    }
}

impl SessionView {
    /// A session with nothing open.
    pub open spec fn fresh() -> SessionView {
        SessionView { directory_status: Map::empty(), file_status: Map::empty() }
    }

    /// `opendir`: a directory is opened, not yet listed, and its handle is
    /// given out.
    pub open spec fn opendir(self, found: Result<Handle, StatusCode>) -> (
        Result<Seq<char>, StatusCode>,
        SessionView,
    ) {
        match directory_to_open(found) {
            Ok(directory) => (
                Ok(handle_text(Handle::Directory(directory))),
                SessionView {
                    directory_status: self.directory_status.insert(
                        directory.0,
                        DirectoryStatus::Unread,
                    ),
                    ..self
                },
            ),
            Err(status) => (Err(status), self),
        }
    }

    /// `readdir`: the first on an open directory says which directory to
    /// list and marks it listed; every later one is the end of the listing.
    /// A handle that is no directory's, or of a directory that is not open,
    /// is a bad message.
    pub open spec fn readdir(self, handle: Seq<char>) -> (
        Result<DirectoryID, StatusCode>,
        SessionView,
    ) {
        match parsed_handle(handle) {
            Some(Handle::Directory(directory)) => {
                if !self.directory_status.contains_key(directory.0) {
                    (Err(StatusCode::BadMessage), self)
                } else if self.directory_status[directory.0] == DirectoryStatus::Read {
                    (Err(StatusCode::Eof), self)
                } else {
                    (
                        Ok(directory),
                        SessionView {
                            directory_status: self.directory_status.insert(
                                directory.0,
                                DirectoryStatus::Read,
                            ),
                            ..self
                        },
                    )
                }
            },
            _ => (Err(StatusCode::BadMessage), self),
        }
    }

    /// `open`: an existing file is opened, unless the request insists on
    /// creating it; a file that does not exist is not opened, with or
    /// without the wish to create it.
    pub open spec fn open(self, found: Result<Handle, StatusCode>, flags: OpenFlags) -> (
        Result<Seq<char>, StatusCode>,
        SessionView,
    ) {
        match file_to_open(found) {
            Ok(Some(uuid)) => {
                if flags.has(OPEN_CREATE) && flags.has(OPEN_EXCLUDE) {
                    (Err(StatusCode::Failure), self)
                } else {
                    (
                        Ok(handle_text(Handle::File(uuid))),
                        SessionView {
                            file_status: self.file_status.insert(
                                uuid.0,
                                FileStatus { append: flags.has(OPEN_APPEND) },
                            ),
                            ..self
                        },
                    )
                }
            },
            Ok(None) => (Err(StatusCode::Failure), self),
            Err(status) => (Err(status), self),
        }
    }

    /// `close`: what the handle stands for is open no longer. A handle of
    /// something that is not open fails; a text that is no handle is a bad
    /// message.
    pub open spec fn close(self, handle: Seq<char>) -> (Result<(), StatusCode>, SessionView) {
        match parsed_handle(handle) {
            Some(Handle::File(uuid)) => {
                if self.file_status.contains_key(uuid.0) {
                    (Ok(()), SessionView { file_status: self.file_status.remove(uuid.0), ..self })
                } else {
                    (Err(StatusCode::Failure), self)
                }
            },
            Some(Handle::Directory(directory)) => {
                if self.directory_status.contains_key(directory.0) {
                    (
                        Ok(()),
                        SessionView {
                            directory_status: self.directory_status.remove(directory.0),
                            ..self
                        },
                    )
                } else {
                    (Err(StatusCode::Failure), self)
                }
            },
            None => (Err(StatusCode::BadMessage), self),
        }
    }
}

/// What one SFTP session has open: directories, each listed or not yet, and
/// files.
pub struct SFTPConnection {
    user: String,
    client_version: Option<u32>,
    directory_status: HashMap<i64, DirectoryStatus>,
    file_status: HashMap<u128, FileStatus>,
}

impl View for SFTPConnection {
    type V = SessionView;

    closed spec fn view(&self) -> SessionView {
        SessionView {
            directory_status: self.directory_status@,
            file_status: self.file_status@,
        }
    }
}

impl SFTPConnection {
    /// The name that the session's user logged in with.
    pub closed spec fn spec_user(&self) -> Seq<char> {
        self.user@
    }

    /// The protocol version that the client announced, once it has.
    pub closed spec fn spec_client_version(&self) -> Option<u32> {
        self.client_version
    }

    /// The session of `user`, with nothing open.
    pub fn new(user: String) -> (session: SFTPConnection)
        ensures
            session@ == SessionView::fresh(),
            session.spec_user() == user@,
            session.spec_client_version() is None,
    {
        SFTPConnection {
            user,
            client_version: None,
            directory_status: HashMap::new(),
            file_status: HashMap::new(),
        }
    }

    /// The name that the session's user logged in with.
    pub fn user(&self) -> (name: &String)
        ensures
            name@ == self.spec_user(),
    {
        &self.user
    }

    /// The protocol version that the client announced, once it has.
    pub fn client_version(&self) -> (version: Option<u32>)
        ensures
            version == self.spec_client_version(),
    {
        self.client_version
    }

    /// Notes the protocol version that the client announces.
    pub fn init(&mut self, client_version: u32)
        ensures
            final(self)@ == old(self)@,
            final(self).spec_user() == old(self).spec_user(),
            final(self).spec_client_version() == Some(client_version),
    {
        self.client_version = Some(client_version);
    }

    /// Answers `opendir`, given what the path was found to name: the handle
    /// of the directory, which is then open and not yet listed. Fails with
    /// `NoSuchFile` where the path names a file, and as the lookup failed
    /// where it did.
    pub fn opendir(&mut self, found: Result<Handle, StatusCode>) -> (handle: Result<
        String,
        StatusCode,
    >)
        ensures
            final(self)@ == old(self)@.opendir(found).1,
            final(self).spec_user() == old(self).spec_user(),
            final(self).spec_client_version() == old(self).spec_client_version(),
            match old(self)@.opendir(found).0 {
                Ok(text) => handle is Ok && handle->Ok_0@ == text,
                Err(status) => handle == Err::<String, StatusCode>(status),
            },
    {
        match found {
            Ok(Handle::Directory(directory)) => {
                self.directory_status.insert(directory.0, DirectoryStatus::Unread);
                Ok(Handle::Directory(directory).to_string())
            },
            Ok(Handle::File(_)) => Err(StatusCode::NoSuchFile),
            Err(status) => Err(status),
        }
    }

    /// Answers `readdir`: the directory to list, the first time after it was
    /// opened; `Eof` every time after that; `BadMessage` for a handle that is
    /// no directory's or of a directory that is not open.
    pub fn readdir(&mut self, handle: &str) -> (directory: Result<DirectoryID, StatusCode>)
        ensures
            (directory, final(self)@) == old(self)@.readdir(handle@),
            final(self).spec_user() == old(self).spec_user(),
            final(self).spec_client_version() == old(self).spec_client_version(),
    {
        let directory = match Handle::from_str(handle) {
            Ok(Handle::Directory(directory)) => directory,
            _ => {
                return Err(StatusCode::BadMessage);
            },
        };
        match self.directory_status.get(&directory.0) {
            None => Err(StatusCode::BadMessage),
            Some(DirectoryStatus::Read) => Err(StatusCode::Eof),
            Some(DirectoryStatus::Unread) => {
                self.directory_status.insert(directory.0, DirectoryStatus::Read);
                Ok(directory)
            },
        }
    }

    /// Answers `open`, given what the path was found to name and the flags
    /// of the request: the handle of the file, which is then open. Fails
    /// where the file exists and the flags ask for a file that is new, where
    /// the file does not exist, and where the lookup failed for another
    /// reason than that the path names nothing.
    pub fn open(&mut self, found: Result<Handle, StatusCode>, flags: OpenFlags) -> (handle: Result<
        String,
        StatusCode,
    >)
        ensures
            final(self)@ == old(self)@.open(found, flags).1,
            final(self).spec_user() == old(self).spec_user(),
            final(self).spec_client_version() == old(self).spec_client_version(),
            match old(self)@.open(found, flags).0 {
                Ok(text) => handle is Ok && handle->Ok_0@ == text,
                Err(status) => handle == Err::<String, StatusCode>(status),
            },
    {
        let existing: Option<FileUUID> = match found {
            Ok(Handle::File(uuid)) => Some(uuid),
            Ok(Handle::Directory(_)) => None,
            Err(StatusCode::NoSuchFile) => None,
            Err(_) => {
                return Err(StatusCode::Failure);
            },
        };
        let uuid = match existing {
            Some(uuid) => {
                if flags.contains(OPEN_CREATE) && flags.contains(OPEN_EXCLUDE) {
                    return Err(StatusCode::Failure);
                }
                uuid
            },
            None => {
                return Err(StatusCode::Failure);
            },
        };
        let status = FileStatus { append: flags.contains(OPEN_APPEND) };
        self.file_status.insert(uuid.0, status);
        Ok(Handle::File(uuid).to_string())
    }

    /// Answers `close`: what the handle stands for is open no longer. Fails
    /// with `Failure` where it was not open, and with `BadMessage` where the
    /// text is no handle.
    pub fn close(&mut self, handle: &str) -> (closed: Result<(), StatusCode>)
        ensures
            (closed, final(self)@) == old(self)@.close(handle@),
            final(self).spec_user() == old(self).spec_user(),
            final(self).spec_client_version() == old(self).spec_client_version(),
    {
        match Handle::from_str(handle)? {
            Handle::File(uuid) => {
                if !self.file_status.contains_key(&uuid.0) {
                    return Err(StatusCode::Failure);
                }
                self.file_status.remove(&uuid.0);
            },
            Handle::Directory(directory) => {
                if !self.directory_status.contains_key(&directory.0) {
                    return Err(StatusCode::Failure);
                }
                self.directory_status.remove(&directory.0);
            },
        }
        Ok(())
    }
}

/// The file that a `read` is for. Fails with `BadMessage`, and only so,
/// where the handle is no file's.
pub fn read_target(handle: &str) -> (file: Result<FileUUID, StatusCode>)
    ensures
        file == match parsed_handle(handle@) {
            Some(Handle::File(uuid)) => Ok::<FileUUID, StatusCode>(uuid),
            _ => Err(StatusCode::BadMessage),
        },
{
    match Handle::from_str(handle) {
        Ok(Handle::File(uuid)) => Ok(uuid),
        _ => Err(StatusCode::BadMessage),
    }
}

/// Answers `fstat`: the permission bits for what the handle stands for.
/// Fails with `BadMessage`, and only so, where the text is no handle.
pub fn fstat(handle: &str) -> (bits: Result<u32, StatusCode>)
    ensures
        bits == match parsed_handle(handle@) {
            Some(handle) => Ok::<u32, StatusCode>(permissions(handle)),
            None => Err(StatusCode::BadMessage),
        },
{
    let handle = Handle::from_str(handle)?;
    Ok(attrs_for_handle(&handle))
}

/// Answers `stat` and `lstat`, given what the path was found to name: the
/// permission bits for it. Fails as the lookup failed.
pub fn handle_stat(found: Result<Handle, StatusCode>) -> (bits: Result<u32, StatusCode>)
    ensures
        bits == match found {
            Ok(handle) => Ok::<u32, StatusCode>(permissions(handle)),
            Err(status) => Err(status),
        },
{
    let handle = found?;
    Ok(attrs_for_handle(&handle))
}

/// The first half of finding what a path names: a directory wins. Where the
/// walk along the path arrived, this is the directory's handle; where it did
/// not, for whatever reason, the path may still name a file.
pub fn directory_handle(walked: &Result<DirectoryID, Error>) -> (handle: Option<Handle>)
    ensures
        handle == match *walked {
            Ok(directory) => Some(Handle::Directory(directory)),
            Err(_) => None,
        },
{
    match walked {
        Ok(directory) => Some(Handle::Directory(*directory)),
        Err(_) => None,
    }
}

/// The second half of finding what a path names, after no directory was
/// found: the file's handle, or `NoSuchFile` where no file was found either,
/// for whatever reason.
pub fn file_handle(looked_up: &Result<FileUUID, Error>) -> (handle: Result<Handle, StatusCode>)
    ensures
        handle == match *looked_up {
            Ok(uuid) => Ok::<Handle, StatusCode>(Handle::File(uuid)),
            Err(_) => Err(StatusCode::NoSuchFile),
        },
{
    match looked_up {
        Ok(uuid) => Ok(Handle::File(*uuid)),
        Err(_) => Err(StatusCode::NoSuchFile),
    }
}

/// Whether a failed lookup is worth a line in the log: a path that names
/// nothing is an everyday answer, anything else is not.
pub fn is_unexpected(error: &Error) -> (unexpected: bool)
    ensures
        unexpected == !(*error is NoSuchDirectory || *error is NoSuchFile),
{
    match error {
        Error::NoSuchDirectory { .. } => false,
        Error::NoSuchFile => false,
        _ => true,
    }
}

/// One line of a directory listing.
#[derive(Debug, Clone, PartialEq, Eq)]
pub struct DirectoryEntry {
    pub filename: String,
    pub longname: String,
    pub permissions: u32,
}

/// The long form that every entry is listed with.
pub open spec fn listed_longname() -> Seq<char> {
    "-rwxr-xr-x   1 mjos     staff      348911 Mar 25 14:29 t-filexfer"@
}

/// The entry at `index` of the listing of a directory: its files come
/// first, then its directories, each in the order it was handed in.
pub open spec fn listed_entry(listing: DirectoryListing, index: int) -> (Seq<char>, u32) {
    let files = listing.file_uuids_and_names@;
    let directories = listing.directory_ids_and_names@;
    if index < files.len() {
        (files[index].1@, permissions(Handle::File(files[index].0)))
    } else {
        (
            directories[index - files.len()].1@,
            permissions(Handle::Directory(directories[index - files.len()].0)),
        )
    }
}

/// Whether `entry` is what the listing holds at `index`.
pub open spec fn is_listed_at(entry: DirectoryEntry, listing: DirectoryListing, index: int) -> bool {
    &&& (entry.filename@, entry.permissions) == listed_entry(listing, index)
    &&& entry.longname@ == listed_longname()
}

/// The entries that the first `readdir` on a directory answers with: one for
/// each file, then one for each directory.
pub fn directory_entries(listing: &DirectoryListing) -> (entries: Vec<DirectoryEntry>)
    ensures
        entries.len() == listing.file_uuids_and_names.len()
            + listing.directory_ids_and_names.len(),
        forall|i: int| 0 <= i < entries.len() ==> is_listed_at(#[trigger] entries[i], *listing, i),
{
    let mut entries: Vec<DirectoryEntry> = Vec::new();
    let mut i: usize = 0;
    while i < listing.file_uuids_and_names.len()
        invariant
            i <= listing.file_uuids_and_names.len(),
            entries.len() == i,
            forall|k: int| 0 <= k < i ==> is_listed_at(#[trigger] entries[k], *listing, k),
        decreases listing.file_uuids_and_names.len() - i,
    {
        let file = &listing.file_uuids_and_names[i];
        entries.push(
            DirectoryEntry {
                filename: file.1.clone(),
                longname: "-rwxr-xr-x   1 mjos     staff      348911 Mar 25 14:29 t-filexfer".to_string(),
                permissions: attrs_for_handle(&Handle::File(file.0)),
            },
        );
        i += 1;
    }
    let files = i;
    let mut j: usize = 0;
    while j < listing.directory_ids_and_names.len()
        invariant
            j <= listing.directory_ids_and_names.len(),
            files == listing.file_uuids_and_names.len(),
            entries.len() == files + j,
            forall|k: int| 0 <= k < files + j ==> is_listed_at(#[trigger] entries[k], *listing, k),
        decreases listing.directory_ids_and_names.len() - j,
    {
        let directory = &listing.directory_ids_and_names[j];
        entries.push(
            DirectoryEntry {
                filename: directory.1.clone(),
                longname: "-rwxr-xr-x   1 mjos     staff      348911 Mar 25 14:29 t-filexfer".to_string(),
                permissions: attrs_for_handle(&Handle::Directory(directory.0)),
            },
        );
        j += 1;
    }
    entries
}

/// A directory is listed once: after a `readdir` that succeeded, every
/// further one on the same handle is the end of the listing, as long as the
/// directory is not closed or opened again.
pub proof fn lemma_directory_is_listed_once(session: SessionView, handle: Seq<char>)
    requires
        session.readdir(handle).0 is Ok,
    ensures
        session.readdir(handle).1.readdir(handle).0 == Err::<DirectoryID, StatusCode>(
            StatusCode::Eof,
        ),
        session.readdir(handle).1.readdir(handle).1 == session.readdir(handle).1,
{
}

/// A directory that was just opened is listed by the first `readdir` on the
/// handle that `opendir` gave out, whether or not it was open, and listed,
/// before.
pub proof fn lemma_opened_directory_can_be_listed(session: SessionView, directory: DirectoryID)
    ensures
        session.opendir(Ok(Handle::Directory(directory))).0 == Ok::<Seq<char>, StatusCode>(
            handle_text(Handle::Directory(directory)),
        ),
        session.opendir(Ok(Handle::Directory(directory))).1.readdir(
            handle_text(Handle::Directory(directory)),
        ).0 == Ok::<DirectoryID, StatusCode>(directory),
{
    lemma_handle_round_trip(Handle::Directory(directory));
}

/// What was closed is open no longer: a second `close` fails, and a
/// `readdir` on a closed directory is a bad message.
pub proof fn lemma_closed_is_closed(session: SessionView, handle: Seq<char>)
    requires
        session.close(handle).0 is Ok,
    ensures
        session.close(handle).1.close(handle).0 == Err::<(), StatusCode>(StatusCode::Failure),
        parsed_handle(handle) matches Some(Handle::Directory(_)) ==> session.close(
            handle,
        ).1.readdir(handle).0 == Err::<DirectoryID, StatusCode>(StatusCode::BadMessage),
{
}

/// A path that climbs above the root is refused: an absolute path whose
/// first segment is `..` has no normal form, whatever follows.
pub proof fn lemma_root_has_no_parent(path: Seq<char>)
    requires
        is_absolute(path),
        is_dot_dot(split_segments(path_body(path))[0]),
    ensures
        normalized(path) is None,
{
    let segments = split_segments(path_body(path));
    lemma_split_is_slash_free(path_body(path));
    let first = segments.subrange(0, 1);
    assert(first.drop_last() == Seq::<Seq<char>>::empty());
    assert(first.last() == segments[0]);
    assert(resolve_dots(first.drop_last()) == Some(Seq::<Seq<char>>::empty()));
    assert(resolve_dots(first) is None);
    lemma_escape_is_final(segments, 1);
}

} // verus!
