//! Classification of version-control porcelain status output.
//!
//! Shelling out to the version-control binary is the caller's business;
//! this module holds the pure part: turning the machine-readable status
//! text into the staged and unstaged change lists, one entry per line
//! that carries a two-column status code and a path.

use vstd::prelude::*;

use crate::text::{lines_of, split_lines, views_of};

verus! {

/// One reported file change: the file's path and the change kind shown
/// for it.
#[derive(Debug, Clone)]
pub struct GitFileChange {
    pub path: String,
    pub status: String,
}

/// The mathematical value of a [`GitFileChange`].
pub struct GitFileChangeView {
    pub path: Seq<char>,
    pub status: Seq<char>,
}

impl View for GitFileChange {
    type V = GitFileChangeView;

    open spec fn view(&self) -> GitFileChangeView {
        GitFileChangeView { path: self.path@, status: self.status@ }
    }
}

/// The change kind shown for a status-code pair, first matching rule
/// wins: a modification in either column, an addition, a deletion in
/// either column, a rename, an untracked file, and anything else is
/// reported as modified.
pub open spec fn status_label(index: char, worktree: char) -> Seq<char> {
    if index == 'M' || worktree == 'M' {
        "modified"@
    } else if index == 'A' {
        "added"@
    } else if index == 'D' || worktree == 'D' {
        "deleted"@
    } else if index == 'R' {
        "renamed"@
    } else if index == '?' && worktree == '?' {
        "untracked"@
    } else {
        "modified"@
    }
}

/// A line short of the two status columns, the separator and a path is
/// not an entry.
pub open spec fn line_is_entry(l: Seq<char>) -> bool {
    l.len() >= 4
}

/// The entry is staged: its index column holds a real status code.
pub open spec fn line_staged(l: Seq<char>) -> bool {
    line_is_entry(l) && l[0] != ' ' && l[0] != '?'
}

/// The entry carries working-tree changes.
pub open spec fn line_unstaged(l: Seq<char>) -> bool {
    line_is_entry(l) && l[1] != ' '
}

/// The change an entry line stands for: the path after the two status
/// columns and their separator, and the change kind of the two codes.
pub open spec fn change_of(l: Seq<char>) -> GitFileChangeView {
    GitFileChangeView { path: l.subrange(3, l.len() as int), status: status_label(l[0], l[1]) }
}

/// The staged changes of a line list, in order.
pub open spec fn staged_changes(lines: Seq<Seq<char>>) -> Seq<GitFileChangeView>
    decreases lines.len(),
{
    if lines.len() == 0 {
        Seq::empty()
    } else {
        let rest = staged_changes(lines.drop_last());
        if line_staged(lines.last()) {
            rest.push(change_of(lines.last()))
        } else {
            rest
        }
    }
}

/// The unstaged changes of a line list, in order.
pub open spec fn unstaged_changes(lines: Seq<Seq<char>>) -> Seq<GitFileChangeView>
    decreases lines.len(),
{
    if lines.len() == 0 {
        Seq::empty()
    } else {
        let rest = unstaged_changes(lines.drop_last());
        if line_unstaged(lines.last()) {
            rest.push(change_of(lines.last()))
        } else {
            rest
        }
    }
}

/// The views of a change list.
pub open spec fn changes_views(v: Seq<GitFileChange>) -> Seq<GitFileChangeView> {
    Seq::new(v.len(), |i: int| v[i]@)
}

/// The change kind for a status-code pair.
fn status_name(index: char, worktree: char) -> (r: String)
    ensures
        r@ == status_label(index, worktree),
{
    if index == 'M' || worktree == 'M' {
        String::from_str("modified")
    } else if index == 'A' {
        String::from_str("added")
    } else if index == 'D' || worktree == 'D' {
        String::from_str("deleted")
    } else if index == 'R' {
        String::from_str("renamed")
    } else if index == '?' && worktree == '?' {
        String::from_str("untracked")
    } else {
        String::from_str("modified")
    }
}

/// Parses machine-readable status text into its staged and unstaged
/// change lists: exactly the entries of the lines that carry a status
/// code, staged first in the pair.
pub fn parse_status_porcelain(text: &str) -> (r: (Vec<GitFileChange>, Vec<GitFileChange>))
    ensures
        changes_views(r.0@) == staged_changes(lines_of(text@)),
        changes_views(r.1@) == unstaged_changes(lines_of(text@)),
{
    let lines = split_lines(text);
    let n = lines.len();
    let mut staged: Vec<GitFileChange> = Vec::new();
    let mut unstaged: Vec<GitFileChange> = Vec::new();
    let mut i: usize = 0;
    proof {
        assert(views_of(lines@).take(0) =~= Seq::<Seq<char>>::empty());
        assert(changes_views(staged@) =~= staged_changes(views_of(lines@).take(0)));
        assert(changes_views(unstaged@) =~= unstaged_changes(views_of(lines@).take(0)));
    }
    while i < n
        invariant
            n == lines@.len(),
            views_of(lines@) == lines_of(text@),
            0 <= i <= n,
            changes_views(staged@) == staged_changes(views_of(lines@).take(i as int)),
            changes_views(unstaged@) == unstaged_changes(views_of(lines@).take(i as int)),
        decreases n - i,
    {
        proof {
            assert(views_of(lines@).take(i + 1).drop_last() =~= views_of(lines@).take(i as int));
            assert(views_of(lines@).take(i + 1).last() == lines@[i as int]@);
        }
        let line = &lines[i];
        let m = line.unicode_len();
        if m >= 4 {
            let index_status = line.get_char(0);
            let worktree_status = line.get_char(1);
            let path = line.substring_char(3, m).to_owned();
            let status = status_name(index_status, worktree_status);
            if index_status != ' ' && index_status != '?' {
                let c = GitFileChange { path: path.clone(), status: status.clone() };
                proof {
                    assert(changes_views(staged@.push(c)) =~= changes_views(staged@).push(
                        change_of(lines@[i as int]@),
                    ));
                }
                staged.push(c);
            }
            if worktree_status != ' ' {
                let c = GitFileChange { path, status };
                proof {
                    assert(changes_views(unstaged@.push(c)) =~= changes_views(unstaged@).push(
                        change_of(lines@[i as int]@),
                    ));
                }
                unstaged.push(c);
            }
        }
        i += 1;
    }
    proof {
        assert(views_of(lines@).take(n as int) =~= views_of(lines@));
    }
    (staged, unstaged)
}

} // verus!
