//! The data the walker works on.
//!
//! A run of the formatter observes a filesystem: what listing each directory
//! yields, what reading each eligible file yields, and whether rewriting a
//! file is accepted.  A [`Node`] records those observations for one subtree;
//! the walker is verified for every possible observation, so its contracts
//! hold whatever the filesystem does.

use vstd::prelude::*;

verus! {

/// One eligible source file: its path, what reading it yielded, and whether
/// writing the canonical form back is accepted.
pub struct SourceFile {
    pub path: String,
    /// The file's text, or the error that reading it produced.
    pub read: Result<String, String>,
    /// Whether rewriting the file is accepted, or the error the write
    /// produced.
    pub write: Result<(), String>,
}

/// A directory (or an entry recursed into like one): its path and what
/// listing it yielded.
pub struct Directory {
    pub path: String,
    /// The entries of the directory, or the error that listing it produced.
    pub listing: Result<Vec<Node>, String>,
}

/// One entry of the tree, already classified.
pub enum Node {
    /// An entry with the source extension that is a regular file or a
    /// symbolic link: it is formatted in place.
    Source(SourceFile),
    /// A directory, or a symbolic link without the source extension: it is
    /// recursed into.
    Branch(Directory),
    /// Any other entry: it contributes nothing.
    Skipped,
}

/// Which step of one file's formatting failed.
#[derive(Clone, Copy, PartialEq, Eq, Structural, Debug)]
pub enum FailureKind {
    Read,
    Parse,
    Write,
}

/// One file's failure, isolated from its siblings.
pub struct Failure {
    pub path: String,
    pub kind: FailureKind,
    pub cause: String,
}

/// One file to be rewritten: the canonical text that replaces its content,
/// beside the byte length the content had before.
pub struct Rewrite {
    pub path: String,
    pub content: String,
    pub original: usize,
}

/// A structural failure: a directory could not be listed.  Fatal for the
/// whole walk.
pub struct TraversalError {
    pub path: String,
    pub cause: String,
}

/// Byte totals over the successfully formatted files of a subtree.
pub struct Totals {
    pub original: usize,
    pub formatted: usize,
}

/// What a completed walk reports: either totals with no failure at all, or
/// the collected failures, never both.
pub enum TreeSummary {
    AllFormatted(Totals),
    HadFailures(Vec<Failure>),
}

/// The mathematical form of a [`Failure`].
pub struct FailureSpec {
    pub path: Seq<char>,
    pub kind: FailureKind,
    pub cause: Seq<char>,
}

/// The mathematical form of a [`Rewrite`].
pub struct RewriteSpec {
    pub path: Seq<char>,
    pub content: Seq<char>,
    pub original: nat,
}

impl View for Failure {
    type V = FailureSpec;

    open spec fn view(&self) -> FailureSpec {
        FailureSpec { path: self.path@, kind: self.kind, cause: self.cause@ }
    }
}

impl View for Rewrite {
    type V = RewriteSpec;

    open spec fn view(&self) -> RewriteSpec {
        RewriteSpec { path: self.path@, content: self.content@, original: self.original as nat }
    }
}

/// The failures of a vector, in mathematical form.
pub open spec fn failures_view(v: Vec<Failure>) -> Seq<FailureSpec> {
    v@.map_values(|f: Failure| f@)
}

/// The rewrites of a vector, in mathematical form.
pub open spec fn rewrites_view(v: Vec<Rewrite>) -> Seq<RewriteSpec> {
    v@.map_values(|r: Rewrite| r@)
}

} // verus!
