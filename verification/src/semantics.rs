//! What the walker computes, stated mathematically.
//!
//! [`file_spec`] gives the outcome of formatting one source file and
//! [`walk_node`] the outcome of walking a subtree: byte totals and collected
//! per-file failures while every directory lists, or the first structural
//! failure, which is fatal.  A per-file failure never stops the walk; it is
//! carried upward and reported with the rest.

use vstd::prelude::*;
use crate::model::{FailureKind, FailureSpec, Node, RewriteSpec, SourceFile};
use crate::reformat::{canonical, parse_error_of, parses, pretty_of};

verus! {

/// The length in bytes of a text.
pub open spec fn byte_len(s: Seq<char>) -> nat {
    vstd::utf8::encode_utf8(s).len()
}

/// The outcome of formatting one source file: the file is rewritten, with
/// its old and new byte lengths recorded, or one step fails and the file is
/// left as it stands.
pub enum FileSpec {
    Written { original: nat, formatted: nat, content: Seq<char> },
    Failed { kind: FailureKind, cause: Seq<char> },
}

/// Formatting one file: read, parse, then write the canonical form back.
/// The first step that fails decides the failure; nothing is written unless
/// all three succeed.
pub open spec fn file_spec(f: SourceFile) -> FileSpec {
    match f.read {
        Result::Err(cause) => FileSpec::Failed { kind: FailureKind::Read, cause: cause@ },
        Result::Ok(content) => if !parses(content@) {
            FileSpec::Failed { kind: FailureKind::Parse, cause: parse_error_of(content@) }
        } else {
            match f.write {
                Result::Err(cause) => FileSpec::Failed {
                    kind: FailureKind::Write,
                    cause: cause@,
                },
                Result::Ok(u) => FileSpec::Written {
                    original: byte_len(content@),
                    formatted: byte_len(pretty_of(content@)),
                    content: pretty_of(content@),
                },
            }
        },
    }
}

/// The outcome of walking a subtree.  `Done` carries exact byte totals, the
/// failures collected in traversal order, and the rewrites performed;
/// `Halted` is a structural failure, carrying the rewrites performed before
/// the walk stopped.
pub enum WalkSpec {
    Halted { path: Seq<char>, cause: Seq<char>, rewrites: Seq<RewriteSpec> },
    Done {
        original: nat,
        formatted: nat,
        failures: Seq<FailureSpec>,
        rewrites: Seq<RewriteSpec>,
    },
}

/// The outcome of walking one node.
pub open spec fn walk_node(n: Node) -> WalkSpec
    decreases n,
{
    match n {
        Node::Source(f) => match file_spec(f) {
            FileSpec::Written { original, formatted, content } => WalkSpec::Done {
                original,
                formatted,
                failures: Seq::empty(),
                rewrites: seq![RewriteSpec { path: f.path@, content, original }],
            },
            FileSpec::Failed { kind, cause } => WalkSpec::Done {
                original: 0,
                formatted: 0,
                failures: seq![FailureSpec { path: f.path@, kind, cause }],
                rewrites: Seq::empty(),
            },
        },
        Node::Branch(d) => match d.listing {
            Result::Err(cause) => WalkSpec::Halted {
                path: d.path@,
                cause: cause@,
                rewrites: Seq::empty(),
            },
            Result::Ok(children) => walk_children(children@),
        },
        Node::Skipped => WalkSpec::Done {
            original: 0,
            formatted: 0,
            failures: Seq::empty(),
            rewrites: Seq::empty(),
        },
    }
}

/// The outcome of walking a row of sibling entries, head first: totals,
/// failures and rewrites accumulate until a structural failure stops the
/// walk.
pub open spec fn walk_children(s: Seq<Node>) -> WalkSpec
    decreases s,
{
    if s.len() == 0 {
        WalkSpec::Done {
            original: 0,
            formatted: 0,
            failures: Seq::empty(),
            rewrites: Seq::empty(),
        }
    } else {
        match walk_node(s[0]) {
            WalkSpec::Halted { path, cause, rewrites } => WalkSpec::Halted {
                path,
                cause,
                rewrites,
            },
            WalkSpec::Done { original: o1, formatted: f1, failures: fl1, rewrites: rw1 } => {
                match walk_children(s.drop_first()) {
                    WalkSpec::Halted { path, cause, rewrites } => WalkSpec::Halted {
                        path,
                        cause,
                        rewrites: rw1 + rewrites,
                    },
                    WalkSpec::Done {
                        original: o2,
                        formatted: f2,
                        failures: fl2,
                        rewrites: rw2,
                    } => WalkSpec::Done {
                        original: o1 + o2,
                        formatted: f1 + f2,
                        failures: fl1 + fl2,
                        rewrites: rw1 + rw2,
                    },
                }
            },
        }
    }
}

/// Every source file of the subtree whose text the pipeline accepts has a stable
/// canonical form: printing the printed form changes nothing.  The walker
/// establishes this for every subtree it finishes, since each formatted
/// text comes back from the printer with that guarantee.
pub open spec fn pretty_stable(n: Node) -> bool
    decreases n,
{
    match n {
        Node::Source(f) => match f.read {
            Result::Ok(content) => parses(content@) ==> canonical(pretty_of(content@)),
            Result::Err(cause) => true,
        },
        Node::Branch(d) => match d.listing {
            Result::Ok(children) => forall|i: int|
                0 <= i < children@.len() ==> pretty_stable(#[trigger] children@[i]),
            Result::Err(cause) => true,
        },
        Node::Skipped => true,
    }
}

/// Every source file of the subtree reads back a canonical text and accepts
/// its rewrite, and every directory lists: the shape a tree has right after
/// a fully successful walk.
pub open spec fn canonical_sources(n: Node) -> bool
    decreases n,
{
    match n {
        Node::Source(f) => {
            &&& f.read matches Result::Ok(content) && canonical(content@)
            &&& f.write is Ok
        },
        Node::Branch(d) => {
            &&& d.listing matches Result::Ok(children)
            &&& d.listing matches Result::Ok(children) ==> forall|i: int|
                0 <= i < children@.len() ==> canonical_sources(#[trigger] children@[i])
        },
        Node::Skipped => true,
    }
}

/// Every directory of the subtree lists.
pub open spec fn fully_listable(n: Node) -> bool
    decreases n,
{
    match n {
        Node::Source(f) => true,
        Node::Branch(d) => {
            &&& d.listing matches Result::Ok(children)
            &&& d.listing matches Result::Ok(children) ==> forall|i: int|
                0 <= i < children@.len() ==> fully_listable(#[trigger] children@[i])
        },
        Node::Skipped => true,
    }
}

/// Every source file of the subtree formats: it reads, the pipeline accepts
/// its text, and its rewrite is accepted.
pub open spec fn all_sources_format(n: Node) -> bool
    decreases n,
{
    match n {
        Node::Source(f) => file_spec(f) is Written,
        Node::Branch(d) => match d.listing {
            Result::Ok(children) => forall|i: int|
                0 <= i < children@.len() ==> all_sources_format(#[trigger] children@[i]),
            Result::Err(cause) => true,
        },
        Node::Skipped => true,
    }
}

/// The subtree holds no source file at all, and every directory lists.
pub open spec fn empty_of_sources(n: Node) -> bool
    decreases n,
{
    match n {
        Node::Source(f) => false,
        Node::Branch(d) => {
            &&& d.listing matches Result::Ok(children)
            &&& d.listing matches Result::Ok(children) ==> forall|i: int|
                0 <= i < children@.len() ==> empty_of_sources(#[trigger] children@[i])
        },
        Node::Skipped => true,
    }
}

/// `n2` is `n1` as a finished walk leaves it: every file the walk rewrote
/// now reads back the canonical text, every other entry stands unchanged,
/// and the filesystem's fates for listing and writing are the same.
pub open spec fn updated_from(n2: Node, n1: Node) -> bool
    decreases n1,
{
    match n1 {
        Node::Source(f1) => {
            &&& n2 matches Node::Source(f2)
            &&& n2 matches Node::Source(f2) ==> {
                &&& f2.path@ == f1.path@
                &&& result_unit_view(f2.write) == result_unit_view(f1.write)
                &&& match file_spec(f1) {
                    FileSpec::Written { content, .. } => f2.read matches Result::Ok(c2)
                        && c2@ == content,
                    FileSpec::Failed { .. } => result_str_view(f2.read) == result_str_view(
                        f1.read,
                    ),
                }
            }
        },
        Node::Branch(d1) => {
            &&& n2 matches Node::Branch(d2)
            &&& n2 matches Node::Branch(d2) ==> {
                &&& d2.path@ == d1.path@
                &&& match d1.listing {
                    Result::Ok(c1) => d2.listing matches Result::Ok(c2) && c1@.len()
                        == c2@.len() && forall|i: int|
                        0 <= i < c1@.len() ==> updated_from(
                            #[trigger] c2@[i],
                            c1@[i],
                        ),
                    Result::Err(e1) => d2.listing matches Result::Err(e2) && e2@ == e1@,
                }
            }
        },
        Node::Skipped => n2 is Skipped,
    }
}

/// A read fate, at the level of texts.
pub open spec fn result_str_view(r: Result<String, String>) -> Result<Seq<char>, Seq<char>> {
    match r {
        Result::Ok(s) => Result::Ok(s@),
        Result::Err(s) => Result::Err(s@),
    }
}

/// A write fate, at the level of texts.
pub open spec fn result_unit_view(r: Result<(), String>) -> Result<(), Seq<char>> {
    match r {
        Result::Ok(u) => Result::Ok(()),
        Result::Err(s) => Result::Err(s@),
    }
}

} // verus!
