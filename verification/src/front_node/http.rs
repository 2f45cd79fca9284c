//! What the front node's HTTP routes answer with, short of the file itself.
//!
//! Every route first finds a directory or a file by its path and then works
//! on it. A path that names nothing is the client's mistake and answered with
//! 404; any other failure is the server's and answered with 500.

use vstd::prelude::*;
use vstd::string::StringExecFns;
use super::tys::Error;

verus! {

pub const STATUS_OK: u16 = 200;

pub const STATUS_NOT_FOUND: u16 = 404;

pub const STATUS_INTERNAL_SERVER_ERROR: u16 = 500;

/// The routes that work on a path.
#[derive(Debug, Clone, Copy, PartialEq, Eq, Structural)]
pub enum Route {
    /// `GET /get/file-by-path/*path`
    GetFile,
    /// `POST /upload/file-by-path/*path`
    UploadFile,
    /// `POST /create/directory-by-path/*path`
    CreateDirectory,
    /// `GET /list-directory/*path`
    ListDirectory,
}

/// A response that is a status and a line of text.
#[derive(Debug, Clone, PartialEq, Eq)]
pub struct HttpReply {
    pub status: u16,
    pub body: String,
}

/// Whether a failed lookup means that the path names nothing: a missing
/// directory on any route, a missing file where a file is asked for.
pub open spec fn names_nothing(route: Route, error: Error) -> bool {
    error is NoSuchDirectory || (route == Route::GetFile && error is NoSuchFile)
}

/// The status for a lookup that failed.
pub open spec fn lookup_status(route: Route, error: Error) -> u16 {
    if names_nothing(route, error) {
        STATUS_NOT_FOUND
    } else {
        STATUS_INTERNAL_SERVER_ERROR
    }
}

/// The text for a lookup that failed.
pub open spec fn lookup_text(route: Route, error: Error) -> Seq<char> {
    match route {
        Route::GetFile => if error is NoSuchFile {
            "No such file"@
        } else if error is NoSuchDirectory {
            "No such parent directory"@
        } else {
            "Could not find file."@
        },
        Route::UploadFile => if error is NoSuchDirectory {
            "No such directory"@
        } else {
            "Error finding directory"@
        },
        Route::CreateDirectory => if error is NoSuchDirectory {
            "No parent directory"@
        } else {
            "Error finding parent"@
        },
        Route::ListDirectory => if error is NoSuchDirectory {
            "No such directory"@
        } else {
            "Error finding directory"@
        },
    }
}

/// The text in front of the failure's description where the work on what
/// was found failed.
pub open spec fn failure_text(route: Route) -> Seq<char> {
    match route {
        Route::GetFile => "Could not read file."@,
        Route::UploadFile => "Error finding file"@,
        Route::CreateDirectory => "Error creating directory: "@,
        Route::ListDirectory => "Error finding file: "@,
    }
}

/// Whether the response to a failure tells what failed.
pub open spec fn tells_failure(route: Route) -> bool {
    route == Route::CreateDirectory || route == Route::ListDirectory
}

/// The text that reports success, on the routes that answer success with a
/// line of text.
pub open spec fn success_text(route: Route) -> Option<Seq<char>> {
    match route {
        Route::UploadFile => Some("upload successful"@),
        Route::CreateDirectory => Some("create successful"@),
        _ => None,
    }
}

/// The response where the path could not be followed to what it names: 404
/// where it names nothing, 500 for any other failure.
pub fn lookup_failed(route: Route, error: &Error) -> (reply: HttpReply)
    ensures
        reply.status == lookup_status(route, *error),
        reply.body@ == lookup_text(route, *error),
{
    let missing_directory = match error {
        Error::NoSuchDirectory { .. } => true,
        _ => false,
    };
    let missing_file = match error {
        Error::NoSuchFile => true,
        _ => false,
    };
    match route {
        Route::GetFile => {
            if missing_file {
                HttpReply { status: STATUS_NOT_FOUND, body: "No such file".to_string() }
            } else if missing_directory {
                HttpReply { status: STATUS_NOT_FOUND, body: "No such parent directory".to_string() }
            } else {
                HttpReply {
                    status: STATUS_INTERNAL_SERVER_ERROR,
                    body: "Could not find file.".to_string(),
                }
            }
        },
        Route::UploadFile => {
            if missing_directory {
                HttpReply { status: STATUS_NOT_FOUND, body: "No such directory".to_string() }
            } else {
                HttpReply {
                    status: STATUS_INTERNAL_SERVER_ERROR,
                    body: "Error finding directory".to_string(),
                }
            }
        },
        Route::CreateDirectory => {
            if missing_directory {
                HttpReply { status: STATUS_NOT_FOUND, body: "No parent directory".to_string() }
            } else {
                HttpReply {
                    status: STATUS_INTERNAL_SERVER_ERROR,
                    body: "Error finding parent".to_string(),
                }
            }
        },
        Route::ListDirectory => {
            if missing_directory {
                HttpReply { status: STATUS_NOT_FOUND, body: "No such directory".to_string() }
            } else {
                HttpReply {
                    status: STATUS_INTERNAL_SERVER_ERROR,
                    body: "Error finding directory".to_string(),
                }
            }
        },
    }
}

/// The response where the path was followed, and the work on what it names
/// failed: always 500. `failure` describes what failed; it is told to
/// the client where a directory was to be created or listed.
pub fn operation_failed(route: Route, failure: &str) -> (reply: HttpReply)
    ensures
        reply.status == STATUS_INTERNAL_SERVER_ERROR,
        reply.body@ == if tells_failure(route) {
            failure_text(route) + failure@
        } else {
            failure_text(route)
        },
{
    let body = match route {
        Route::GetFile => "Could not read file.".to_string(),
        Route::UploadFile => "Error finding file".to_string(),
        Route::CreateDirectory => {
            let mut body = String::from_str("Error creating directory: ");
            body.append(failure);
            body
        },
        Route::ListDirectory => {
            let mut body = String::from_str("Error finding file: ");
            body.append(failure);
            body
        },
    };
    HttpReply { status: STATUS_INTERNAL_SERVER_ERROR, body }
}

/// The response to an upload or to the creation of a directory that
/// succeeded. The other routes answer success with what was asked for, and
/// have no such response.
pub fn operation_succeeded(route: Route) -> (reply: Option<HttpReply>)
    ensures
        match success_text(route) {
            Some(text) => reply is Some && reply->Some_0.status == STATUS_OK
                && reply->Some_0.body@ == text,
            None => reply is None,
        },
{
    match route {
        Route::UploadFile => Some(
            HttpReply { status: STATUS_OK, body: "upload successful".to_string() },
        ),
        Route::CreateDirectory => Some(
            HttpReply { status: STATUS_OK, body: "create successful".to_string() },
        ),
        _ => None,
    }
}

/// The answer to `GET /version`: package, program and version, with a space
/// between.
pub fn version_line(package: &str, program: &str, version: &str) -> (line: String)
    ensures
        line@ == package@ + seq![' '] + program@ + seq![' '] + version@,
{
    let mut line = String::from_str(package);
    proof {
        reveal_strlit(" ");
        assert(" "@ == seq![' ']);
    }
    line.append(" ");
    line.append(program);
    line.append(" ");
    line.append(version);
    line
}

/// A lookup that fails is answered with 404 exactly where the path names
/// nothing, and with 500 in every other case.
pub proof fn lemma_missing_is_not_found(route: Route, error: Error)
    ensures
        lookup_status(route, error) == 404 <==> names_nothing(route, error),
        lookup_status(route, error) == 500 <==> !names_nothing(route, error),
{
}

} // verus!
