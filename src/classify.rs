//! The line classifier: the diff state machine and the file extension of a
//! file-diff header.
use vstd::prelude::*;
use crate::text::{starts_with, has_prefix, chars_of};

verus! {

/// The role of the current line within a diff.
#[derive(Clone, Copy, Debug, PartialEq, Eq, Structural)]
pub enum DiffState {
    Commit,
    DiffMeta,
    DiffHunk,
    Unknown,
}

pub open spec fn diff_meta_prefix() -> Seq<char> {
    seq!['d', 'i', 'f', 'f', ' ', '-', '-']
}

pub open spec fn commit_prefix() -> Seq<char> {
    seq!['c', 'o', 'm', 'm', 'i', 't']
}

pub open spec fn hunk_prefix() -> Seq<char> {
    seq!['@', '@']
}

/// The line opens a file diff.
pub open spec fn opens_file_diff(line: Seq<char>) -> bool {
    starts_with(line, diff_meta_prefix())
}

/// The state after `line`, given the state before it: the first matching
/// prefix decides, and any other line keeps the state.
pub open spec fn next_state(state: DiffState, line: Seq<char>) -> DiffState {
    if starts_with(line, diff_meta_prefix()) {
        DiffState::DiffMeta
    } else if starts_with(line, commit_prefix()) {
        DiffState::Commit
    } else if starts_with(line, hunk_prefix()) {
        DiffState::DiffHunk
    } else {
        state
    }
}

/// `line` is hunk content: the state is already `DiffHunk` and the line
/// opens nothing new.
pub open spec fn is_hunk_content(state: DiffState, line: Seq<char>) -> bool {
    state == DiffState::DiffHunk && !starts_with(line, diff_meta_prefix())
        && !starts_with(line, commit_prefix()) && !starts_with(line, hunk_prefix())
}

/// Index of the last `.` of the last path component of `s` (components end
/// at `/` or a space), if it has one.
pub open spec fn last_dot(s: Seq<char>) -> Option<int>
    decreases s.len(),
{
    if s.len() == 0 {
        None
    } else if s.last() == '.' {
        Some(s.len() - 1)
    } else if s.last() == '/' || s.last() == ' ' {
        None
    } else {
        last_dot(s.drop_last())
    }
}

/// The file extension named at the end of a line: the non-empty text after
/// the last dot of its last path component.
pub open spec fn extension_of(line: Seq<char>) -> Option<Seq<char>> {
    match last_dot(line) {
        Some(i) => if i + 1 < line.len() {
            Some(line.subrange(i + 1, line.len() as int))
        } else {
            None
        },
        None => None,
    }
}

fn prefixes() -> (r: (Vec<char>, Vec<char>, Vec<char>))
    ensures
        r.0@ == diff_meta_prefix(),
        r.1@ == commit_prefix(),
        r.2@ == hunk_prefix(),
{
    proof {
        reveal_strlit("diff --");
        reveal_strlit("commit");
        reveal_strlit("@@");
    }
    let meta = chars_of("diff --");
    let commit = chars_of("commit");
    let hunk = chars_of("@@");
    assert(meta@ =~= diff_meta_prefix());
    assert(commit@ =~= commit_prefix());
    assert(hunk@ =~= hunk_prefix());
    (meta, commit, hunk)
}

/// Whether `line` opens a file diff.
pub fn opens_file_diff_line(line: &Vec<char>) -> (r: bool)
    ensures
        r == opens_file_diff(line@),
{
    let (meta, _, _) = prefixes();
    has_prefix(line, &meta)
}

/// Whether `line` is hunk content when it follows a line that left `state`.
pub fn hunk_content(state: DiffState, line: &Vec<char>) -> (r: bool)
    ensures
        r == is_hunk_content(state, line@),
{
    let (meta, commit, hunk) = prefixes();
    state == DiffState::DiffHunk && !has_prefix(line, &meta) && !has_prefix(line, &commit)
        && !has_prefix(line, &hunk)
}

/// The state after `line`.
pub fn classify(state: DiffState, line: &Vec<char>) -> (r: DiffState)
    ensures
        r == next_state(state, line@),
{
    let (meta, commit, hunk) = prefixes();
    if has_prefix(line, &meta) {
        DiffState::DiffMeta
    } else if has_prefix(line, &commit) {
        DiffState::Commit
    } else if has_prefix(line, &hunk) {
        DiffState::DiffHunk
    } else {
        state
    }
}

/// The file extension at the end of a file-diff header line, if any.
pub fn file_extension(line: &Vec<char>) -> (r: Option<String>)
    ensures
        match extension_of(line@) {
            Some(e) => r is Some && r->0@ == e,
            None => r is None,
        },
{
    let mut i: usize = line.len();
    assert(line@.subrange(0, i as int) == line@);
    while i > 0
        invariant
            i <= line@.len(),
            last_dot(line@) == last_dot(line@.subrange(0, i as int)),
        decreases i,
    {
        let c = line[i - 1];
        assert(line@.subrange(0, i as int).drop_last() == line@.subrange(0, i - 1));
        if c == '.' {
            if i < line.len() {
                let mut e = String::new();
                let mut j: usize = i;
                while j < line.len()
                    invariant
                        i <= j <= line@.len(),
                        e@ == line@.subrange(i as int, j as int),
                    decreases line@.len() - j,
                {
                    crate::text::push_char(&mut e, line[j]);
                    j = j + 1;
                    assert(line@.subrange(i as int, j as int)
                        == line@.subrange(i as int, j - 1).push(line@[j - 1]));
                }
                return Some(e);
            }
            return None;
        }
        if c == '/' || c == ' ' {
            return None;
        }
        i = i - 1;
    }
    None
}

} // verus!
