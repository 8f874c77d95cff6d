//! Behavior of the filesystem mutation gate on concrete requests.

use infinitty_core::fs_gate::{authorize_fs_request, FsRequest};

const RESTRICTED: &str = "File operations are restricted to the home directory";

fn home() -> Option<&'static str> {
    Some("/home/user")
}

fn create_file(path: &str) -> FsRequest {
    FsRequest::CreateFile { path: path.to_string() }
}

#[test]
fn authorizes_mutations_inside_the_home() {
    assert_eq!(authorize_fs_request(&create_file("/home/user/new.txt"), home()), Ok(()));
    assert_eq!(
        authorize_fs_request(
            &FsRequest::CreateDirectory { path: "/home/user/dir".to_string() },
            home()
        ),
        Ok(())
    );
    assert_eq!(
        authorize_fs_request(
            &FsRequest::Delete { path: "/home/user/old".to_string(), is_directory: true },
            home()
        ),
        Ok(())
    );
    assert_eq!(
        authorize_fs_request(
            &FsRequest::Rename {
                old_path: "/home/user/a".to_string(),
                new_path: "/home/user/b".to_string(),
            },
            home()
        ),
        Ok(())
    );
    assert_eq!(
        authorize_fs_request(
            &FsRequest::Copy {
                source: "/home/user/a".to_string(),
                destination: "/home/user/b".to_string(),
                is_directory: false,
            },
            home()
        ),
        Ok(())
    );
    assert_eq!(
        authorize_fs_request(
            &FsRequest::Move {
                source: "/home/user/a".to_string(),
                destination: "/home/user/c".to_string(),
            },
            home()
        ),
        Ok(())
    );
}

#[test]
fn every_path_argument_is_checked() {
    // Bad source.
    assert_eq!(
        authorize_fs_request(
            &FsRequest::Rename {
                old_path: "relative".to_string(),
                new_path: "/home/user/b".to_string(),
            },
            home()
        )
        .unwrap_err(),
        "Path must be absolute"
    );
    // Bad destination, good source.
    assert_eq!(
        authorize_fs_request(
            &FsRequest::Move {
                source: "/home/user/a".to_string(),
                destination: "/etc/target".to_string(),
            },
            home()
        )
        .unwrap_err(),
        RESTRICTED
    );
    // Both bad: the source's rejection is reported, source checked first.
    assert_eq!(
        authorize_fs_request(
            &FsRequest::Copy {
                source: "/home/user/../x".to_string(),
                destination: "".to_string(),
                is_directory: false,
            },
            home()
        )
        .unwrap_err(),
        "Parent directory traversal is not allowed"
    );
}

#[test]
fn rejects_single_path_requests_by_the_policy() {
    assert_eq!(authorize_fs_request(&create_file(""), home()).unwrap_err(), "Empty path");
    assert_eq!(
        authorize_fs_request(&create_file("/home/user/../../etc/x"), home()).unwrap_err(),
        "Parent directory traversal is not allowed"
    );
    assert_eq!(authorize_fs_request(&create_file("/tmp/x"), home()).unwrap_err(), RESTRICTED);
    assert_eq!(
        authorize_fs_request(
            &FsRequest::Delete { path: "no-root".to_string(), is_directory: false },
            home()
        )
        .unwrap_err(),
        "Path must be absolute"
    );
}

#[test]
fn without_a_home_only_the_syntactic_rules_apply() {
    assert_eq!(authorize_fs_request(&create_file("/anywhere/at/all"), None), Ok(()));
    assert_eq!(
        authorize_fs_request(&create_file("/any/../where"), None).unwrap_err(),
        "Parent directory traversal is not allowed"
    );
}
