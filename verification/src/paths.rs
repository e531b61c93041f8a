//! Eligibility and root classification.
//!
//! An entry is formatted when its path carries the source extension `.rs`
//! and the entry is a regular file or a symbolic link; a directory, or a
//! symbolic link without the extension, is recursed into; anything else is
//! skipped.  Paths are taken as directory enumeration hands them out, with
//! `/` as the separator: the file name is what follows the last `/`.  A
//! platform whose paths use another separator must hand them over in this
//! form.

use vstd::prelude::*;
use vstd::string::StrSliceExecFns;

verus! {

/// The file name of a path: what follows the last `/`, or the whole path
/// when it has none.
pub open spec fn file_name_of(p: Seq<char>) -> Seq<char>
    decreases p.len(),
{
    if p.len() == 0 {
        Seq::empty()
    } else if p.last() == '/' {
        Seq::empty()
    } else {
        file_name_of(p.drop_last()).push(p.last())
    }
}

/// Whether a path carries the source extension: its file name ends in `.rs`
/// and has a nonempty stem before the dot.
pub open spec fn has_source_extension(p: Seq<char>) -> bool {
    let name = file_name_of(p);
    &&& name.len() >= 4
    &&& name[name.len() - 3] == '.'
    &&& name[name.len() - 2] == 'r'
    &&& name[name.len() - 1] == 's'
}

/// What the walker does with one directory entry.
#[derive(Clone, Copy, PartialEq, Eq, Structural, Debug)]
pub enum EntryClass {
    /// Format the entry in place.
    FormatFile,
    /// Recurse into the entry.
    Recurse,
    /// Ignore the entry.
    Skip,
}

/// What a run does with the root path.
#[derive(Clone, Copy, PartialEq, Eq, Structural, Debug)]
pub enum RootClass {
    /// The root is a single eligible file.
    SingleFile,
    /// The root is a directory: walk it.
    Tree,
    /// The root is neither: the run fails without touching the filesystem.
    Invalid,
}

/// How one directory entry is classified, from its path and file type.
pub open spec fn classify_entry_spec(
    p: Seq<char>,
    is_file: bool,
    is_symlink: bool,
    is_dir: bool,
) -> EntryClass {
    if has_source_extension(p) && (is_file || is_symlink) {
        EntryClass::FormatFile
    } else if is_dir || is_symlink {
        EntryClass::Recurse
    } else {
        EntryClass::Skip
    }
}

/// How the root path is classified, from its path and file type.
pub open spec fn classify_root_spec(
    p: Seq<char>,
    is_file: bool,
    is_symlink: bool,
    is_dir: bool,
) -> RootClass {
    if has_source_extension(p) && (is_file || is_symlink) {
        RootClass::SingleFile
    } else if is_dir {
        RootClass::Tree
    } else {
        RootClass::Invalid
    }
}

/// The file name of `p` is its suffix from `k` on, provided `k` is just past
/// the last `/`.
proof fn lemma_file_name_is_suffix(p: Seq<char>, k: int)
    requires
        0 <= k <= p.len(),
        forall|i: int| k <= i < p.len() ==> p[i] != '/',
        k == 0 || p[k - 1] == '/',
    ensures
        file_name_of(p) == p.subrange(k, p.len() as int),
    decreases p.len(),
{
    if p.len() == 0 {
        assert(file_name_of(p) =~= p.subrange(k, p.len() as int));
    } else if p.last() == '/' {
        assert(k == p.len());
        assert(file_name_of(p) =~= p.subrange(k, p.len() as int));
    } else {
        assert(k < p.len());
        lemma_file_name_is_suffix(p.drop_last(), k);
        assert(p.drop_last().subrange(k, p.drop_last().len() as int).push(p.last()) =~= p
            .subrange(k, p.len() as int));
    }
}

/// Whether a `/`-separated path carries the source extension.
pub fn is_source_path(path: &str) -> (r: bool)
    ensures
        r == has_source_extension(path@),
{
    let len: usize = path.unicode_len();
    let mut name_start: usize = 0;
    let mut i: usize = 0;
    while i < len
        invariant
            len == path@.len(),
            0 <= name_start <= i <= len,
            name_start == 0 || path@[name_start - 1] == '/',
            forall|j: int| name_start <= j < i ==> path@[j] != '/',
        decreases len - i,
    {
        if path.get_char(i) == '/' {
            name_start = i + 1;
        }
        i += 1;
    }
    proof {
        lemma_file_name_is_suffix(path@, name_start as int);
    }
    let ghost name = file_name_of(path@);
    if len - name_start >= 4 {
        let dot = path.get_char(len - 3);
        let r_ch = path.get_char(len - 2);
        let s_ch = path.get_char(len - 1);
        proof {
            assert(name.len() == len - name_start);
            assert(name[name.len() - 3] == path@[len - 3]);
            assert(name[name.len() - 2] == path@[len - 2]);
            assert(name[name.len() - 1] == path@[len - 1]);
        }
        dot == '.' && r_ch == 'r' && s_ch == 's'
    } else {
        false
    }
}

/// Classifies one directory entry from its path and file type, as the
/// walker's eligibility rule demands.
pub fn classify_entry(path: &str, is_file: bool, is_symlink: bool, is_dir: bool) -> (r: EntryClass)
    ensures
        r == classify_entry_spec(path@, is_file, is_symlink, is_dir),
{
    if is_source_path(path) && (is_file || is_symlink) {
        EntryClass::FormatFile
    } else if is_dir || is_symlink {
        EntryClass::Recurse
    } else {
        EntryClass::Skip
    }
}

/// Classifies the root path: a single eligible file, a tree to walk, or an
/// invalid root that fails the run before any filesystem work.
pub fn classify_root(path: &str, is_file: bool, is_symlink: bool, is_dir: bool) -> (r: RootClass)
    ensures
        r == classify_root_spec(path@, is_file, is_symlink, is_dir),
{
    if is_source_path(path) && (is_file || is_symlink) {
        RootClass::SingleFile
    } else if is_dir {
        RootClass::Tree
    } else {
        RootClass::Invalid
    }
}

} // verus!
