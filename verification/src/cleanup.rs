//! Removing the directories that a deleted object leaves empty.
//!
//! After an object's file is gone, its parent directories below the bucket's
//! objects directory are looked at from the deepest upward. One that is empty
//! is removed, and the walk goes on to its parent; the first one that is not
//! empty, or cannot be read, ends the walk.

use vstd::prelude::*;
use vstd::string::*;
use crate::text::{chars_of, string_of, texts};

verus! {

/// A slash at position `i` of `key` closes the name of a directory: it is not
/// the first character and does not follow another slash.
pub open spec fn closes_dir(key: Seq<char>, i: int) -> bool {
    0 < i < key.len() && key[i] == '/' && key[i - 1] != '/'
}

/// The directories named by the slashes before position `n` of `key`, the
/// deepest first.
pub open spec fn dirs_before(key: Seq<char>, n: int) -> Seq<Seq<char>>
    decreases n,
{
    if n <= 0 {
        Seq::empty()
    } else if closes_dir(key, n - 1) {
        seq![key.take(n - 1)] + dirs_before(key, n - 1)
    } else {
        dirs_before(key, n - 1)
    }
}

/// The directories, relative to the bucket's objects directory, that hold the
/// object `key`, the deepest first: for `a/b/c.txt`, `a/b` and then `a`.
pub open spec fn parent_dirs(key: Seq<char>) -> Seq<Seq<char>> {
    dirs_before(key, key.len() as int)
}

/// One step of a walk that stands at `position` among `len` directories and
/// finds `entries` in the current one: whether the directory is removed, and
/// where the walk stands then. An empty directory is removed and the walk
/// goes on; anything else ends the walk.
pub open spec fn step(position: int, len: int, entries: Option<u64>) -> (bool, int) {
    if position < len && entries == Some(0u64) {
        (true, position + 1)
    } else {
        (false, len)
    }
}

/// The number of directories that a walk removes from `position` on, among
/// `len` directories, when it finds `seen[position]`, `seen[position + 1]`
/// and so on as it goes.
pub open spec fn removed_from(position: int, len: int, seen: Seq<Option<u64>>) -> nat
    decreases len - position,
{
    if 0 <= position < len && position < seen.len() && step(position, len, seen[position]).0 {
        1 + removed_from(position + 1, len, seen)
    } else {
        0
    }
}

/// A walk up the parent directories of a deleted object.
pub struct DirCleanup {
    dirs: Vec<String>,
    next: usize,
}

impl DirCleanup {
    /// The directories of the walk, the deepest first.
    pub closed spec fn candidates(&self) -> Seq<Seq<char>> {
        texts(self.dirs@)
    }

    /// How many directories the walk has passed; the number of candidates
    /// once it has ended.
    pub closed spec fn position(&self) -> int {
        self.next as int
    }

    /// The walk is within its candidates.
    pub closed spec fn wf(&self) -> bool {
        self.next <= self.dirs.len()
    }

    /// Whether the walk has ended.
    pub open spec fn done(&self) -> bool {
        self.position() == self.candidates().len()
    }

    /// The directory to look at next, or `None` once the walk has ended.
    pub fn current(&self) -> (dir: Option<&str>)
        requires
            self.wf(),
        ensures
            match dir {
                Some(d) => !self.done() && d@ == self.candidates()[self.position()],
                None => self.done(),
            },
    {
        if self.next < self.dirs.len() {
            Some(self.dirs[self.next].as_str())
        } else {
            None
        }
    }

    /// Takes in what was found in the current directory, the number of its
    /// entries or `None` where it could not be read, and says whether to
    /// remove it: an empty directory is removed and the walk moves on to its
    /// parent; anything else ends the walk.
    pub fn observe(&mut self, entries: Option<u64>) -> (remove: bool)
        requires
            old(self).wf(),
        ensures
            final(self).wf(),
            final(self).candidates() == old(self).candidates(),
            (remove, final(self).position()) == step(
                old(self).position(),
                old(self).candidates().len() as int,
                entries,
            ),
    {
        if self.next < self.dirs.len() {
            match entries {
                Some(0) => {
                    self.next = self.next + 1;
                    true
                },
                _ => {
                    self.next = self.dirs.len();
                    false
                },
            }
        } else {
            false
        }
    }
}

/// Starts the walk up the parent directories of the deleted object `key`.
pub fn cleanup_empty_dirs(key: &str) -> (walk: DirCleanup)
    ensures
        walk.wf(),
        walk.candidates() == parent_dirs(key@),
        walk.position() == 0,
{
    let chars = chars_of(key);
    let mut dirs: Vec<String> = Vec::new();
    let mut n: usize = chars.len();
    assert(texts(dirs@) + dirs_before(key@, n as int) =~= parent_dirs(key@));
    while n > 0
        invariant
            n <= chars.len(),
            chars@ == key@,
            texts(dirs@) + dirs_before(key@, n as int) == parent_dirs(key@),
        decreases n,
    {
        let i = n - 1;
        if i > 0 && chars[i] == '/' && chars[i - 1] != '/' {
            let ghost before = dirs@;
            dirs.push(string_of(&chars, 0, i));
            assert(texts(dirs@) =~= texts(before) + seq![key@.take(i as int)]);
            assert(texts(dirs@) + dirs_before(key@, i as int) =~= texts(before)
                + dirs_before(key@, n as int));
        }
        n = i;
    }
    assert(texts(dirs@) + dirs_before(key@, 0) =~= texts(dirs@));
    DirCleanup { dirs, next: 0 }
}

} // verus!
