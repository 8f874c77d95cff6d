//! The filesystem mutation gate: every mutating operation names its path
//! arguments here, and each one is held to the path policy before any
//! filesystem call is made.

use vstd::prelude::*;

use crate::path_policy::{
    opt_str_view, path_reject_message, path_verdict, sanitize_fs_path, PathVerdict,
};

verus! {

/// A filesystem-mutating request from the file explorer, carrying every
/// path it intends to touch.
pub enum FsRequest {
    CreateFile { path: String },
    CreateDirectory { path: String },
    Rename { old_path: String, new_path: String },
    Delete { path: String, is_directory: bool },
    Copy { source: String, destination: String, is_directory: bool },
    Move { source: String, destination: String },
}

/// The path arguments of a request, in the order they are checked:
/// source before destination.
pub open spec fn request_paths(r: FsRequest) -> Seq<Seq<char>> {
    match r {
        FsRequest::CreateFile { path } => seq![path@],
        FsRequest::CreateDirectory { path } => seq![path@],
        FsRequest::Rename { old_path, new_path } => seq![old_path@, new_path@],
        FsRequest::Delete { path, is_directory: _ } => seq![path@],
        FsRequest::Copy { source, destination, is_directory: _ } => seq![source@, destination@],
        FsRequest::Move { source, destination } => seq![source@, destination@],
    }
}

/// The policy's decision over a list of paths: the verdict of the first
/// rejected path, or acceptance when every path passes.
pub open spec fn request_verdict(paths: Seq<Seq<char>>, home: Option<Seq<char>>) -> PathVerdict
    decreases paths.len(),
{
    if paths.len() == 0 {
        PathVerdict::Accept
    } else if !(path_verdict(paths[0], home) is Accept) {
        path_verdict(paths[0], home)
    } else {
        request_verdict(paths.drop_first(), home)
    }
}

/// Authorizes a filesystem-mutating request: `Ok` exactly when every
/// path argument passes the path policy, otherwise the rejection reason
/// of the first path that fails. Only an authorized request may be
/// carried out against the filesystem.
pub fn authorize_fs_request(req: &FsRequest, home: Option<&str>) -> (r: Result<(), String>)
    ensures
        r is Ok <==> request_verdict(request_paths(*req), opt_str_view(home)) is Accept,
        r is Err ==> r->Err_0@ == path_reject_message(
            request_verdict(request_paths(*req), opt_str_view(home)),
        ),
{
    match req {
        FsRequest::CreateFile { path } => check_one(path, home),
        FsRequest::CreateDirectory { path } => check_one(path, home),
        FsRequest::Rename { old_path, new_path } => check_two(old_path, new_path, home),
        FsRequest::Delete { path, is_directory: _ } => check_one(path, home),
        FsRequest::Copy { source, destination, is_directory: _ } => check_two(
            source,
            destination,
            home,
        ),
        FsRequest::Move { source, destination } => check_two(source, destination, home),
    }
}

/// Checks a single-path request.
fn check_one(path: &String, home: Option<&str>) -> (r: Result<(), String>)
    ensures
        r is Ok <==> request_verdict(seq![path@], opt_str_view(home)) is Accept,
        r is Err ==> r->Err_0@ == path_reject_message(
            request_verdict(seq![path@], opt_str_view(home)),
        ),
{
    proof {
        reveal_with_fuel(request_verdict, 2);
        assert(seq![path@].drop_first() =~= Seq::<Seq<char>>::empty());
        assert(seq![path@][0] == path@);
    }
    match sanitize_fs_path(path.as_str(), home) {
        Ok(_) => Ok(()),
        Err(m) => Err(m),
    }
}

/// Checks a two-path request, first path first.
fn check_two(first: &String, second: &String, home: Option<&str>) -> (r: Result<(), String>)
    ensures
        r is Ok <==> request_verdict(seq![first@, second@], opt_str_view(home)) is Accept,
        r is Err ==> r->Err_0@ == path_reject_message(
            request_verdict(seq![first@, second@], opt_str_view(home)),
        ),
{
    proof {
        reveal_with_fuel(request_verdict, 3);
        assert(seq![first@, second@].drop_first() =~= seq![second@]);
        assert(seq![second@].drop_first() =~= Seq::<Seq<char>>::empty());
        assert(seq![first@, second@][0] == first@);
        assert(seq![second@][0] == second@);
    }
    match sanitize_fs_path(first.as_str(), home) {
        Ok(_) => {},
        Err(m) => {
            return Err(m);
        },
    }
    match sanitize_fs_path(second.as_str(), home) {
        Ok(_) => Ok(()),
        Err(m) => Err(m),
    }
}

} // verus!
