//! Behavior of the path policy on concrete paths.

use infinitty_core::path_policy::sanitize_fs_path;

#[test]
fn rejects_empty_and_whitespace_only_paths() {
    for path in ["", " ", "\t", " \n  ", "\u{00A0}"] {
        assert_eq!(sanitize_fs_path(path, Some("/home/user")).unwrap_err(), "Empty path");
    }
}

#[test]
fn rejects_relative_paths() {
    for path in ["relative/file.txt", "./x", "home/user/f", "..", " /leading-space"] {
        assert_eq!(
            sanitize_fs_path(path, Some("/home/user")).unwrap_err(),
            "Path must be absolute"
        );
    }
}

#[test]
fn rejects_parent_traversal_anywhere() {
    // Even where the resolved target would stay inside the home
    // directory, a `..` component rejects the path.
    for path in [
        "/home/user/../user/f",
        "/home/user/docs/..",
        "/../etc/passwd",
        "/home/user/a/../../user/b",
    ] {
        assert_eq!(
            sanitize_fs_path(path, Some("/home/user")).unwrap_err(),
            "Parent directory traversal is not allowed"
        );
    }
}

#[test]
fn traversal_is_checked_even_without_a_home() {
    assert_eq!(
        sanitize_fs_path("/a/../b", None).unwrap_err(),
        "Parent directory traversal is not allowed"
    );
}

#[test]
fn confines_to_the_home_directory() {
    assert_eq!(
        sanitize_fs_path("/etc/passwd", Some("/home/user")).unwrap_err(),
        "File operations are restricted to the home directory"
    );
    assert_eq!(
        sanitize_fs_path("/home/user/notes.txt", Some("/home/user")).unwrap(),
        "/home/user/notes.txt"
    );
    assert_eq!(sanitize_fs_path("/home/user", Some("/home/user")).unwrap(), "/home/user");
}

#[test]
fn home_prefix_is_component_wise() {
    // "/home/userx" is not inside "/home/user": prefixes compare whole
    // components, not characters.
    assert_eq!(
        sanitize_fs_path("/home/userx/f", Some("/home/user")).unwrap_err(),
        "File operations are restricted to the home directory"
    );
}

#[test]
fn normalization_ignores_empty_and_dot_components() {
    assert_eq!(
        sanitize_fs_path("/home/user//docs/./f", Some("/home/user/")).unwrap(),
        "/home/user//docs/./f"
    );
    assert_eq!(
        sanitize_fs_path("/home/user/f", Some("/home/./user")).unwrap(),
        "/home/user/f"
    );
}

#[test]
fn containment_is_skipped_without_a_home() {
    assert_eq!(sanitize_fs_path("/etc/passwd", None).unwrap(), "/etc/passwd");
    assert_eq!(sanitize_fs_path("/var/log/syslog", None).unwrap(), "/var/log/syslog");
}

#[test]
fn empty_home_accepts_every_absolute_path() {
    // An empty home value has no components, so every path passes the
    // prefix test, as `Path::starts_with` would decide it.
    assert_eq!(sanitize_fs_path("/etc/passwd", Some("")).unwrap(), "/etc/passwd");
}

#[test]
fn relative_home_accepts_nothing() {
    // A relative home never prefixes an absolute path.
    assert_eq!(
        sanitize_fs_path("/home/user/f", Some("home/user")).unwrap_err(),
        "File operations are restricted to the home directory"
    );
}

#[test]
fn rule_order_empty_before_absolute_before_traversal() {
    // A blank path is reported as empty, not as relative.
    assert_eq!(sanitize_fs_path("  ", None).unwrap_err(), "Empty path");
    // A relative path with traversal is reported as relative first.
    assert_eq!(sanitize_fs_path("a/../b", None).unwrap_err(), "Path must be absolute");
}
