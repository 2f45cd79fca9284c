use std::collections::HashMap;

use bnuystore::file_uuid::FileUUID;
use bnuystore::front_node::config::{default_timeout, StorageNodeConfig};
use bnuystore::front_node::http::{
    lookup_failed, operation_failed, operation_succeeded, version_line, Route,
};
use bnuystore::front_node::monitor::{
    needs_registration, redial_delay_s, watch_step, LinkWatch, WatchAction, WatchEvent,
};
use bnuystore::front_node::storage_node_connection::ConnectionError;
use bnuystore::front_node::tys::{DirectoryID, Error, StorageNodeID};
use bnuystore::front_node::{
    connection_to_node, expect_ack, expect_file_contents, file_in_directory, file_location,
    get_appropriate_node_for, home_directory, split_parent, PathWalk, UploadFileInfo, WalkStep,
};
use bnuystore::message::Message;

/// A tree of directories: root 1 holds `a` (2), `a` holds `b` (3), `b` holds
/// `c` (4).
fn tree() -> HashMap<(i64, &'static str), i64> {
    let mut tree = HashMap::new();
    tree.insert((1, "a"), 2);
    tree.insert((2, "b"), 3);
    tree.insert((3, "c"), 4);
    tree
}

fn walk(path: &str, base: i64) -> Result<DirectoryID, Error> {
    let tree = tree();
    let mut walk = PathWalk::start(path, DirectoryID(base));
    loop {
        match walk.next() {
            WalkStep::Arrived(directory) => return Ok(directory),
            WalkStep::Lookup { parent, name } => {
                let found = tree.get(&(parent.0, name.as_str())).map(|id| DirectoryID(*id));
                walk.descend(found)?;
            }
        }
    }
}

#[test]
fn default_timeout_is_one_second() {
    assert_eq!(default_timeout(), 1);
    let node = StorageNodeConfig::new("127.0.0.1:9000".to_string());
    assert_eq!(node.addr, "127.0.0.1:9000");
    assert_eq!(node.timeout_s, 1);
}

#[test]
fn split_parent_parts_at_the_last_slash() {
    assert_eq!(split_parent("a/b/x.txt"), ("a/b".to_string(), "x.txt".to_string()));
    assert_eq!(split_parent("x.txt"), ("".to_string(), "x.txt".to_string()));
    assert_eq!(split_parent("nope/x"), ("nope".to_string(), "x".to_string()));
    assert_eq!(split_parent("/x"), ("".to_string(), "x".to_string()));
    assert_eq!(split_parent("a/"), ("a".to_string(), "".to_string()));
    assert_eq!(split_parent(""), ("".to_string(), "".to_string()));
    assert_eq!(split_parent("a//b"), ("a/".to_string(), "b".to_string()));
}

#[test]
fn split_parent_is_what_rsplit_once_gives() {
    for path in ["a/b/c", "abc", "", "/", "//", "a/b/", "dir/file.tar.gz", "ü/ö"] {
        let want = path
            .rsplit_once('/')
            .map(|(parent, name)| (parent.to_string(), name.to_string()))
            .unwrap_or(("".to_string(), path.to_string()));
        assert_eq!(split_parent(path), want);
    }
}

#[test]
fn empty_path_names_the_base() {
    assert_eq!(walk("", 1).unwrap(), DirectoryID(1));
    assert_eq!(walk("", 3).unwrap(), DirectoryID(3));
    let start = PathWalk::start("", DirectoryID(9));
    assert_eq!(start.next(), WalkStep::Arrived(DirectoryID(9)));
}

#[test]
fn walk_descends_segment_by_segment() {
    assert_eq!(walk("a", 1).unwrap(), DirectoryID(2));
    assert_eq!(walk("a/b", 1).unwrap(), DirectoryID(3));
    assert_eq!(walk("a/b/c", 1).unwrap(), DirectoryID(4));
    assert_eq!(walk("b/c", 2).unwrap(), DirectoryID(4));
}

#[test]
fn walk_asks_for_one_directory_at_a_time() {
    let mut walk = PathWalk::start("a/b", DirectoryID(1));
    assert_eq!(walk.next(), WalkStep::Lookup { parent: DirectoryID(1), name: "a".to_string() });
    assert_eq!(walk.next(), WalkStep::Lookup { parent: DirectoryID(1), name: "a".to_string() });
    walk.descend(Some(DirectoryID(2))).unwrap();
    assert_eq!(walk.next(), WalkStep::Lookup { parent: DirectoryID(2), name: "b".to_string() });
    walk.descend(Some(DirectoryID(3))).unwrap();
    assert_eq!(walk.next(), WalkStep::Arrived(DirectoryID(3)));
    walk.descend(None).unwrap();
    walk.descend(Some(DirectoryID(77))).unwrap();
    assert_eq!(walk.next(), WalkStep::Arrived(DirectoryID(3)));
}

#[test]
fn missing_directory_reports_what_exists() {
    match walk("nope/x", 1) {
        Err(Error::NoSuchDirectory { topmost_existing_directory }) => assert_eq!(topmost_existing_directory, ""),
        other => panic!("unexpected {:?}", other),
    }
    match walk("a/b/zzz/c", 1) {
        Err(Error::NoSuchDirectory { topmost_existing_directory }) => assert_eq!(topmost_existing_directory, "a/b/"),
        other => panic!("unexpected {:?}", other),
    }
    match walk("a//b", 1) {
        Err(Error::NoSuchDirectory { topmost_existing_directory }) => assert_eq!(topmost_existing_directory, "a/"),
        other => panic!("unexpected {:?}", other),
    }
}

#[test]
fn lookups_that_find_nothing_become_errors() {
    assert!(matches!(file_in_directory(Some(FileUUID(4))), Ok(FileUUID(4))));
    assert!(matches!(file_in_directory(None), Err(Error::NoSuchFile)));
    assert!(matches!(home_directory(Some(DirectoryID(7)), "alice"), Ok(DirectoryID(7))));
    assert!(matches!(home_directory(None, "bob"), Err(Error::NoSuchUser { name }) if name == "bob"));
    assert!(matches!(
        file_location(Some((StorageNodeID(3), "node-3".to_string()))),
        Ok((StorageNodeID(3), name)) if name == "node-3"
    ));
    assert!(matches!(file_location(None), Err(Error::UnknownUUID)));
    assert!(matches!(connection_to_node(Some("link")), Ok("link")));
    assert!(matches!(connection_to_node::<&str>(None), Err(Error::NotConnectedToNode)));
}

#[test]
fn new_file_goes_to_the_first_connected_node() {
    let info = UploadFileInfo { data_length: 5 };
    assert!(matches!(
        get_appropriate_node_for(&vec![StorageNodeID(4), StorageNodeID(2)], &info),
        Ok(StorageNodeID(4))
    ));
    assert!(matches!(get_appropriate_node_for(&vec![StorageNodeID(-1)], &info), Ok(StorageNodeID(-1))));
    assert!(matches!(get_appropriate_node_for(&vec![], &info), Err(Error::NotConnectedToAnyNode)));
}

#[test]
fn responses_of_the_wrong_kind_are_errors() {
    assert_eq!(expect_file_contents(Message::FileContents(b"hello".to_vec())).unwrap(), b"hello".to_vec());
    assert!(matches!(expect_file_contents(Message::Ack), Err(Error::UnexpectedResponse(Message::Ack))));
    assert!(matches!(
        expect_file_contents(Message::Error("gone".to_string())),
        Err(Error::UnexpectedResponse(Message::Error(text))) if text == "gone"
    ));
    assert!(expect_ack(Message::Ack).is_ok());
    assert!(matches!(
        expect_ack(Message::FileContents(vec![1])),
        Err(Error::UnexpectedResponse(Message::FileContents(data))) if data == vec![1]
    ));
    assert!(matches!(expect_ack(Message::GetVersion), Err(Error::UnexpectedResponse(Message::GetVersion))));
}

#[test]
fn connection_error_becomes_a_front_node_error() {
    let error: Error = ConnectionError::ClientDisconnected.into();
    assert!(matches!(error, Error::ConnectionError(ConnectionError::ClientDisconnected)));
}

#[test]
fn upload_then_read_finds_the_same_directory() {
    let (parent, name) = split_parent("a/b/x.txt");
    assert_eq!(name, "x.txt");
    assert_eq!(walk(&parent, 1).unwrap(), DirectoryID(3));
    let reply = operation_succeeded(Route::UploadFile).unwrap();
    assert_eq!(reply.status, 200);
    assert_eq!(reply.body, "upload successful");
    assert_eq!(expect_file_contents(Message::FileContents(b"hello".to_vec())).unwrap(), b"hello".to_vec());
}

#[test]
fn upload_into_a_missing_parent_is_not_found() {
    let (parent, name) = split_parent("nope/x");
    assert_eq!((parent.as_str(), name.as_str()), ("nope", "x"));
    let error = walk(&parent, 1).unwrap_err();
    let reply = lookup_failed(Route::UploadFile, &error);
    assert_eq!(reply.status, 404);
    assert_eq!(reply.body, "No such directory");
}

#[test]
fn failed_lookups_are_answered_per_route() {
    let missing_directory = Error::NoSuchDirectory { topmost_existing_directory: "a/".to_string() };
    let table = [
        (Route::GetFile, 404, "No such parent directory", 404, "No such file", "Could not find file."),
        (Route::UploadFile, 404, "No such directory", 500, "Error finding directory", "Error finding directory"),
        (Route::CreateDirectory, 404, "No parent directory", 500, "Error finding parent", "Error finding parent"),
        (Route::ListDirectory, 404, "No such directory", 500, "Error finding directory", "Error finding directory"),
    ];
    for (route, dir_status, dir_body, file_status, file_body, other_body) in table {
        let reply = lookup_failed(route, &missing_directory);
        assert_eq!((reply.status, reply.body.as_str()), (dir_status, dir_body));
        let reply = lookup_failed(route, &Error::NoSuchFile);
        assert_eq!((reply.status, reply.body.as_str()), (file_status, file_body));
        for error in [
            Error::DatabaseError("down".to_string()),
            Error::IO("broken".to_string()),
            Error::UnknownUUID,
            Error::NotConnectedToNode,
            Error::NotConnectedToAnyNode,
            Error::ConnectionError(ConnectionError::ClientDisconnected),
            Error::NoSuchUser { name: "x".to_string() },
        ] {
            let reply = lookup_failed(route, &error);
            assert_eq!((reply.status, reply.body.as_str()), (500, other_body));
        }
    }
}

#[test]
fn failed_operations_are_server_errors() {
    let reply = operation_failed(Route::GetFile, "NotConnectedToNode");
    assert_eq!((reply.status, reply.body.as_str()), (500, "Could not read file."));
    let reply = operation_failed(Route::UploadFile, "NotConnectedToAnyNode");
    assert_eq!((reply.status, reply.body.as_str()), (500, "Error finding file"));
    let reply = operation_failed(Route::CreateDirectory, "DatabaseError(x)");
    assert_eq!((reply.status, reply.body.as_str()), (500, "Error creating directory: DatabaseError(x)"));
    let reply = operation_failed(Route::ListDirectory, "DatabaseError(y)");
    assert_eq!((reply.status, reply.body.as_str()), (500, "Error finding file: DatabaseError(y)"));
}

#[test]
fn success_is_a_line_of_text_where_nothing_else_is_asked_for() {
    assert!(operation_succeeded(Route::GetFile).is_none());
    assert!(operation_succeeded(Route::ListDirectory).is_none());
    let reply = operation_succeeded(Route::CreateDirectory).unwrap();
    assert_eq!((reply.status, reply.body.as_str()), (200, "create successful"));
}

#[test]
fn version_line_names_package_program_and_version() {
    assert_eq!(version_line("bnuystore", "front-node", "0.1.0"), "bnuystore front-node 0.1.0");
    assert_eq!(version_line("", "", ""), "  ");
}

#[test]
fn node_is_registered_once() {
    assert!(needs_registration(0));
    assert!(!needs_registration(1));
    assert!(!needs_registration(u32::MAX));
}

#[test]
fn pause_between_dials_grows_by_five_seconds() {
    assert_eq!(redial_delay_s(0), 5);
    assert_eq!(redial_delay_s(1), 5);
    assert_eq!(redial_delay_s(2), 10);
    assert_eq!(redial_delay_s(3), 15);
    assert_eq!(redial_delay_s(1000), 5000);
    assert_eq!(redial_delay_s(u32::MAX), 5 * (u32::MAX as u64));
}

#[test]
fn dead_link_is_redialed_until_the_node_answers() {
    let (state, action) = watch_step(LinkWatch::Up, WatchEvent::Disconnected);
    assert_eq!((state, action), (LinkWatch::Draining, WatchAction::AwaitTasks));
    let (state, action) = watch_step(state, WatchEvent::TasksFinished);
    assert_eq!((state, action), (LinkWatch::Dialing { attempt: 1 }, WatchAction::Dial));
    let (state, action) = watch_step(state, WatchEvent::DialFailed);
    assert_eq!((state, action), (LinkWatch::Pausing { attempt: 1 }, WatchAction::Pause(5)));
    let (state, action) = watch_step(state, WatchEvent::PauseOver);
    assert_eq!((state, action), (LinkWatch::Dialing { attempt: 2 }, WatchAction::Dial));
    let (state, action) = watch_step(state, WatchEvent::DialFailed);
    assert_eq!((state, action), (LinkWatch::Pausing { attempt: 2 }, WatchAction::Pause(10)));
    let (state, action) = watch_step(state, WatchEvent::PauseOver);
    assert_eq!((state, action), (LinkWatch::Dialing { attempt: 3 }, WatchAction::Dial));
    let (state, action) = watch_step(state, WatchEvent::Dialed);
    assert_eq!((state, action), (LinkWatch::Up, WatchAction::Install));
}

#[test]
fn events_out_of_place_change_nothing() {
    for state in [LinkWatch::Up, LinkWatch::Draining, LinkWatch::Dialing { attempt: 4 }, LinkWatch::Pausing { attempt: 4 }] {
        for event in [WatchEvent::Disconnected, WatchEvent::TasksFinished, WatchEvent::Dialed, WatchEvent::DialFailed, WatchEvent::PauseOver] {
            let fits = matches!(
                (state, event),
                (LinkWatch::Up, WatchEvent::Disconnected)
                    | (LinkWatch::Draining, WatchEvent::TasksFinished)
                    | (LinkWatch::Dialing { .. }, WatchEvent::Dialed)
                    | (LinkWatch::Dialing { .. }, WatchEvent::DialFailed)
                    | (LinkWatch::Pausing { .. }, WatchEvent::PauseOver)
            );
            if !fits {
                assert_eq!(watch_step(state, event), (state, WatchAction::Wait));
            }
        }
    }
    assert_eq!(
        watch_step(LinkWatch::Pausing { attempt: u32::MAX }, WatchEvent::PauseOver),
        (LinkWatch::Dialing { attempt: u32::MAX }, WatchAction::Dial)
    );
}
