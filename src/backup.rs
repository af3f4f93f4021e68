use vstd::prelude::*;

verus! {

/// Bytes copied so far out of the directory's total size.
#[derive(Debug, Clone, Copy, PartialEq, Eq, Structural)]
pub struct Progress {
    pub copied: u64,
    pub total: u64,
}

/// The kind of a directory entry met while copying a tree.
#[derive(Debug, Clone, Copy, PartialEq, Eq, Structural)]
pub enum EntryKind {
    File,
    Dir,
    Symlink,
    Other,
}

/// Why a tree copy stopped.
#[derive(Debug, Clone, Copy, PartialEq, Eq, Structural)]
pub enum CopyError {
    /// Symbolic links are not followed nor recreated: the copy fails on them.
    Symlink,
    /// Neither a file, a directory nor a link.
    Unsupported,
}

/// What the copy does with one directory entry.
#[derive(Debug, Clone, Copy, PartialEq, Eq, Structural)]
pub enum CopyAction {
    CopyFile,
    Descend,
    Fail(CopyError),
}

/// Files are copied, directories descended into, anything else stops the copy.
pub fn copy_action(kind: EntryKind) -> (r: CopyAction)
    ensures
        r == match kind {
            EntryKind::File => CopyAction::CopyFile,
            EntryKind::Dir => CopyAction::Descend,
            EntryKind::Symlink => CopyAction::Fail(CopyError::Symlink),
            EntryKind::Other => CopyAction::Fail(CopyError::Unsupported),
        },
{
    match kind {
        EntryKind::File => CopyAction::CopyFile,
        EntryKind::Dir => CopyAction::Descend,
        EntryKind::Symlink => CopyAction::Fail(CopyError::Symlink),
        EntryKind::Other => CopyAction::Fail(CopyError::Unsupported),
    }
}

/// The running byte count of a copy whose total size was measured beforehand,
/// with the sizes of the files counted so far, in order.
pub struct CopyTracker {
    pub copied: u64,
    pub total: u64,
    pub sizes: Ghost<Seq<u64>>,
}

/// The sum of the first `n` file sizes.
pub open spec fn bytes_after(sizes: Seq<u64>, n: int) -> int
    decreases n,
{
    if n <= 0 || sizes.len() == 0 {
        0
    } else if n > sizes.len() {
        bytes_after(sizes, sizes.len() as int)
    } else {
        bytes_after(sizes, n - 1) + sizes[n - 1]
    }
}

/// The byte counts reported after each file never go down.
pub proof fn lemma_progress_monotone(sizes: Seq<u64>, i: int, j: int)
    requires
        0 <= i <= j <= sizes.len(),
    ensures
        bytes_after(sizes, i) <= bytes_after(sizes, j),
    decreases j - i,
{
    if i < j {
        lemma_progress_monotone(sizes, i, j - 1);
    }
}

/// Counting one more file adds its size and leaves the earlier sums alone.
pub proof fn lemma_bytes_after_push(sizes: Seq<u64>, x: u64, k: int)
    requires
        0 <= k <= sizes.len(),
    ensures
        bytes_after(sizes.push(x), k) == bytes_after(sizes, k),
    decreases k,
{
    if k > 0 {
        lemma_bytes_after_push(sizes, x, k - 1);
    }
}

/// The sum after one more file is the previous sum plus its size.
pub proof fn lemma_bytes_after_next(sizes: Seq<u64>, x: u64)
    ensures
        bytes_after(sizes.push(x), sizes.len() as int + 1) == bytes_after(sizes, sizes.len() as int) + x,
{
    lemma_bytes_after_push(sizes, x, sizes.len() as int);
    assert(sizes.push(x)[sizes.len() as int] == x);
}

impl CopyTracker {
    /// The count is the sum of the sizes counted so far.
    pub open spec fn well_formed(&self) -> bool {
        self.copied as int == bytes_after(self.sizes@, self.sizes@.len() as int)
    }

    pub fn new(total: u64) -> (r: CopyTracker)
        ensures
            r.copied == 0,
            r.total == total,
            r.sizes@ == Seq::<u64>::empty(),
            r.well_formed(),
    {
        CopyTracker { copied: 0, total, sizes: Ghost(Seq::empty()) }
    }

    /// Counts one copied file of `size` bytes and returns the progress to report:
    /// after the i-th file, the sum of the first i sizes, out of the total.
    pub fn file_copied(&mut self, size: u64) -> (r: Progress)
        requires
            old(self).well_formed(),
            old(self).copied + size <= u64::MAX,
        ensures
            final(self).well_formed(),
            final(self).sizes@ == old(self).sizes@.push(size),
            r.copied as int == bytes_after(final(self).sizes@, final(self).sizes@.len() as int),
            final(self).copied == old(self).copied + size,
            final(self).total == old(self).total,
            r == (Progress { copied: final(self).copied, total: old(self).total }),
            r.copied >= old(self).copied,
    {
        proof { lemma_bytes_after_next(self.sizes@, size); }
        self.copied = self.copied + size;
        self.sizes = Ghost(self.sizes@.push(size));
        Progress { copied: self.copied, total: self.total }
    }
}

/// The backup directory of a server directory: its sibling with `.bak` appended to
/// the name. A path without a final name (empty, or ending in `/`) has none.
pub open spec fn backup_dir_spec(path: Seq<char>) -> Option<Seq<char>> {
    if path.len() == 0 || path.last() == '/' {
        None
    } else {
        Some(path + ".bak"@)
    }
}

pub fn backup_dir_of(path: &str) -> (r: Option<String>)
    ensures
        match r {
            Some(p) => backup_dir_spec(path@) == Some(p@),
            None => backup_dir_spec(path@) is None,
        },
{
    let n = vstd::string::StrSliceExecFns::unicode_len(path);
    if n == 0 || vstd::string::StrSliceExecFns::get_char(path, n - 1) == '/' {
        return None;
    }
    let mut p = path.to_owned();
    vstd::string::StringExecFns::append(&mut p, ".bak");
    Some(p)
}

} // verus!
