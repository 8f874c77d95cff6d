//! Filesystem path confinement: the anti-traversal policy applied to
//! every path argument of a filesystem-mutating operation.
//!
//! A path is usable only when it is non-blank, absolute, free of `..`
//! components, and — whenever a home directory is known — inside that
//! home directory. The `..` rule is deliberately syntactic: a `..`
//! anywhere rejects the path even where the resolved target would stay
//! inside the allowed subtree. When no home directory can be determined
//! the containment check is skipped, a known weakening of the policy.

use vstd::prelude::*;

use crate::text::{all_space, is_blank, split_on, split_str, str_eq, views_of};

verus! {

/// A path is absolute when it starts with the root separator.
pub open spec fn is_absolute_path(s: Seq<char>) -> bool {
    s.len() > 0 && s[0] == '/'
}

/// The raw separator-delimited segments of a path.
pub open spec fn raw_segments(s: Seq<char>) -> Seq<Seq<char>> {
    split_on(s, '/')
}

/// Some segment of the path is the literal parent-directory marker.
pub open spec fn has_traversal(s: Seq<char>) -> bool {
    raw_segments(s).contains(seq!['.', '.'])
}

/// A segment that names a real component: not empty (repeated or
/// trailing separators) and not the current-directory marker.
pub open spec fn is_normal_seg(t: Seq<char>) -> bool {
    t.len() > 0 && t != seq!['.']
}

/// The normalized components of an absolute path: its segments with
/// empty and `.` segments dropped, as path comparison treats them.
pub open spec fn normalize(segs: Seq<Seq<char>>) -> Seq<Seq<char>>
    decreases segs.len(),
{
    if segs.len() == 0 {
        Seq::empty()
    } else {
        let rest = normalize(segs.drop_last());
        if is_normal_seg(segs.last()) {
            rest.push(segs.last())
        } else {
            rest
        }
    }
}

pub open spec fn seq_is_prefix(a: Seq<Seq<char>>, b: Seq<Seq<char>>) -> bool {
    a.len() <= b.len() && forall|i: int| 0 <= i < a.len() ==> a[i] == b[i]
}

/// Containment of an absolute path `p` in the home directory `home`,
/// compared component-wise as `Path::starts_with` compares: an absolute
/// home contains `p` when home's normalized components are a prefix of
/// `p`'s; a relative home contains `p` only when home is the empty
/// string, whose component list is empty.
pub open spec fn home_accepts(home: Seq<char>, p: Seq<char>) -> bool {
    if is_absolute_path(home) {
        seq_is_prefix(normalize(raw_segments(home)), normalize(raw_segments(p)))
    } else {
        home.len() == 0
    }
}

/// The outcome of the path policy, in the order the rules are checked.
pub enum PathVerdict {
    Accept,
    Empty,
    NotAbsolute,
    Traversal,
    OutsideHome,
}

/// What the policy decides for `path` given the home directory `home`
/// (`None` where no home directory could be determined).
pub open spec fn path_verdict(path: Seq<char>, home: Option<Seq<char>>) -> PathVerdict {
    if all_space(path) {
        PathVerdict::Empty
    } else if !is_absolute_path(path) {
        PathVerdict::NotAbsolute
    } else if has_traversal(path) {
        PathVerdict::Traversal
    } else if home matches Some(h) && !home_accepts(h, path) {
        PathVerdict::OutsideHome
    } else {
        PathVerdict::Accept
    }
}

/// The rejection reason reported for each failing verdict.
pub open spec fn path_reject_message(v: PathVerdict) -> Seq<char> {
    match v {
        PathVerdict::Empty => "Empty path"@,
        PathVerdict::NotAbsolute => "Path must be absolute"@,
        PathVerdict::Traversal => "Parent directory traversal is not allowed"@,
        PathVerdict::OutsideHome => "File operations are restricted to the home directory"@,
        PathVerdict::Accept => Seq::empty(),
    }
}

pub open spec fn opt_str_view(s: Option<&str>) -> Option<Seq<char>> {
    match s {
        Some(t) => Some(t@),
        None => None,
    }
}

fn is_absolute(s: &str) -> (r: bool)
    ensures
        r == is_absolute_path(s@),
{
    s.unicode_len() > 0 && s.get_char(0) == '/'
}

/// The segment is exactly `..`.
fn is_dotdot(seg: &str) -> (r: bool)
    ensures
        r == (seg@ == seq!['.', '.']),
{
    if seg.unicode_len() != 2 {
        return false;
    }
    let r = seg.get_char(0) == '.' && seg.get_char(1) == '.';
    proof {
        if r {
            assert(seg@ =~= seq!['.', '.']);
        }
    }
    r
}

/// The segment names a real component (not empty, not `.`).
fn is_normal(seg: &str) -> (r: bool)
    ensures
        r == is_normal_seg(seg@),
{
    let n = seg.unicode_len();
    if n == 0 {
        return false;
    }
    if n == 1 && seg.get_char(0) == '.' {
        proof {
            assert(seg@ =~= seq!['.']);
        }
        return false;
    }
    proof {
        assert(seg@ != seq!['.']);
    }
    true
}

/// Whether any raw segment of `s` is the parent-directory marker.
fn contains_traversal(s: &str) -> (r: bool)
    ensures
        r == has_traversal(s@),
{
    let segs = split_str(s, '/');
    let n = segs.len();
    let mut i: usize = 0;
    while i < n
        invariant
            n == segs@.len(),
            views_of(segs@) == raw_segments(s@),
            0 <= i <= n,
            forall|j: int| 0 <= j < i ==> views_of(segs@)[j] != seq!['.', '.'],
        decreases n - i,
    {
        if is_dotdot(segs[i].as_str()) {
            proof {
                assert(raw_segments(s@)[i as int] == seq!['.', '.']);
            }
            return true;
        }
        i += 1;
    }
    proof {
        assert(forall|j: int|
            0 <= j < raw_segments(s@).len() ==> raw_segments(s@)[j] != seq!['.', '.']);
    }
    false
}

/// The normalized components of a segment list.
fn normalize_segments(v: &Vec<String>) -> (r: Vec<String>)
    ensures
        views_of(r@) == normalize(views_of(v@)),
{
    let n = v.len();
    let mut out: Vec<String> = Vec::new();
    let mut i: usize = 0;
    proof {
        assert(views_of(v@).take(0) =~= Seq::<Seq<char>>::empty());
        assert(views_of(out@) =~= normalize(views_of(v@).take(0)));
    }
    while i < n
        invariant
            n == v@.len(),
            0 <= i <= n,
            views_of(out@) == normalize(views_of(v@).take(i as int)),
        decreases n - i,
    {
        proof {
            assert(views_of(v@).take(i + 1).drop_last() =~= views_of(v@).take(i as int));
            assert(views_of(v@).take(i + 1).last() == v@[i as int]@);
        }
        if is_normal(v[i].as_str()) {
            let seg = v[i].clone();
            proof {
                assert(views_of(out@.push(seg)) =~= views_of(out@).push(v@[i as int]@));
            }
            out.push(seg);
        }
        i += 1;
    }
    proof {
        assert(views_of(v@).take(n as int) =~= views_of(v@));
    }
    out
}

/// Component-wise prefix test on two segment lists.
fn is_prefix(a: &Vec<String>, b: &Vec<String>) -> (r: bool)
    ensures
        r == seq_is_prefix(views_of(a@), views_of(b@)),
{
    let n = a.len();
    if n > b.len() {
        return false;
    }
    let mut i: usize = 0;
    while i < n
        invariant
            n == a@.len(),
            n <= b@.len(),
            0 <= i <= n,
            forall|j: int| 0 <= j < i ==> views_of(a@)[j] == views_of(b@)[j],
        decreases n - i,
    {
        if !str_eq(a[i].as_str(), b[i].as_str()) {
            proof {
                assert(views_of(a@)[i as int] == a@[i as int]@);
                assert(views_of(b@)[i as int] == b@[i as int]@);
            }
            return false;
        }
        i += 1;
    }
    true
}

/// Containment of the absolute path `p` in the home directory `home`.
fn home_contains(home: &str, p: &str) -> (r: bool)
    ensures
        r == home_accepts(home@, p@),
{
    if is_absolute(home) {
        let hsegs = normalize_segments(&split_str(home, '/'));
        let psegs = normalize_segments(&split_str(p, '/'));
        is_prefix(&hsegs, &psegs)
    } else {
        home.unicode_len() == 0
    }
}

/// The path policy of the shell: returns the path to actually use — the
/// input itself, which is already in canonical string form — or the
/// rejection reason for the first rule the path breaks. `home` is the
/// home directory resolved by the caller from the platform environment,
/// or `None` where it could not be determined, in which case the
/// containment rule is skipped.
pub fn sanitize_fs_path(path: &str, home: Option<&str>) -> (r: Result<String, String>)
    ensures
        r is Ok <==> path_verdict(path@, opt_str_view(home)) is Accept,
        r matches Ok(out) ==> out@ == path@,
        r is Err ==> r->Err_0@ == path_reject_message(path_verdict(path@, opt_str_view(home))),
{
    if is_blank(path) {
        return Err(String::from_str("Empty path"));
    }
    if !is_absolute(path) {
        return Err(String::from_str("Path must be absolute"));
    }
    if contains_traversal(path) {
        return Err(String::from_str("Parent directory traversal is not allowed"));
    }
    if let Some(h) = home {
        if !home_contains(h, path) {
            return Err(String::from_str("File operations are restricted to the home directory"));
        }
    }
    Ok(path.to_owned())
}

} // verus!
