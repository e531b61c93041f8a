//! The tree-formatting walker.
//!
//! [`format_file`] formats one source file; [`walk`] recurses over a
//! subtree, isolating per-file failures while letting a structural failure
//! halt the whole walk; [`format_tree`] wraps the walk's outcome into the
//! either-totals-or-failures summary the caller sees.

use vstd::prelude::*;
use crate::model::{
    Failure, FailureKind, Node, Rewrite, SourceFile, Totals, TraversalError, TreeSummary,
    failures_view, rewrites_view,
};
use crate::reformat::{canonical, parses, pretty_of, reformat};
use crate::semantics::{
    FileSpec, WalkSpec, byte_len, file_spec, pretty_stable, walk_children, walk_node,
};

verus! {

broadcast use vstd::std_specs::vec::group_vec_axioms;

/// A total as the walker reports it: exact while it fits the machine word,
/// pinned to the maximum beyond it.
pub open spec fn clamped(n: nat) -> nat {
    if n > (usize::MAX as nat) {
        usize::MAX as nat
    } else {
        n
    }
}

/// Relies on `str::len`: the length of a string in bytes.  vstd specifies
/// the same call as `spec_bytes().len() as usize`; all this wrapper adds is
/// that the byte length fits `usize` with nothing cut off by the cast,
/// which holds of any string the machine holds, so the contracts can record
/// lengths exactly.
#[verifier::external_body]
fn byte_length(s: &str) -> (r: usize)
    ensures
        r == byte_len(s@),
{
    s.len()
}

/// The outcome of formatting one file: it was rewritten, or one step failed
/// and it stands untouched.
pub enum FileOutcome {
    Written { original: usize, formatted: usize, content: String },
    Failed { kind: FailureKind, cause: String },
}

/// Whether an executable outcome is the mathematical one.
pub open spec fn file_outcome_matches(r: FileOutcome, s: FileSpec) -> bool {
    match s {
        FileSpec::Written { original, formatted, content } => r matches FileOutcome::Written {
            original: o,
            formatted: fo,
            content: c,
        } && o == original && fo == formatted && c@ == content,
        FileSpec::Failed { kind, cause } => r matches FileOutcome::Failed { kind: k, cause: c }
            && k == kind && c@ == cause,
    }
}

/// The text of this file, once printed canonically, stays canonical.
pub open spec fn file_pretty_stable(f: SourceFile) -> bool {
    match f.read {
        Result::Ok(content) => parses(content@) ==> canonical(pretty_of(content@)),
        Result::Err(cause) => true,
    }
}

/// Formats one source file: read, parse, then write the canonical form
/// back.  The outcome is exactly [`file_spec`]: the first failing step
/// decides the failure, and the file is rewritten only when all three steps
/// succeed.
pub fn format_file(f: &SourceFile) -> (r: FileOutcome)
    ensures
        file_outcome_matches(r, file_spec(*f)),
        file_pretty_stable(*f),
{
    match &f.read {
        Result::Err(cause) => FileOutcome::Failed {
            kind: FailureKind::Read,
            cause: cause.clone(),
        },
        Result::Ok(content) => {
            let original = byte_length(content.as_str());
            match reformat(content.as_str()) {
                Result::Err(cause) => FileOutcome::Failed { kind: FailureKind::Parse, cause },
                Result::Ok(formatted_text) => match &f.write {
                    Result::Err(cause) => FileOutcome::Failed {
                        kind: FailureKind::Write,
                        cause: cause.clone(),
                    },
                    Result::Ok(u) => {
                        let formatted = byte_length(formatted_text.as_str());
                        FileOutcome::Written { original, formatted, content: formatted_text }
                    },
                },
            }
        },
    }
}

/// What one walk hands upward: accumulated totals, collected failures, the
/// rewrites performed, and the structural failure that halted it, if any.
pub struct WalkOutcome {
    pub original: usize,
    pub formatted: usize,
    pub failures: Vec<Failure>,
    pub rewrites: Vec<Rewrite>,
    pub halt: Option<TraversalError>,
}

/// Whether an executable walk outcome is the mathematical one.
pub open spec fn outcome_matches(r: WalkOutcome, w: WalkSpec) -> bool {
    match w {
        WalkSpec::Halted { path, cause, rewrites } => {
            &&& r.halt matches Some(t) && t.path@ == path && t.cause@ == cause
            &&& rewrites_view(r.rewrites) == rewrites
        },
        WalkSpec::Done { original, formatted, failures, rewrites } => {
            &&& r.halt is None
            &&& r.original == clamped(original)
            &&& r.formatted == clamped(formatted)
            &&& failures_view(r.failures) == failures
            &&& rewrites_view(r.rewrites) == rewrites
        },
    }
}

/// Walks one subtree depth first.  Per-file failures are collected and
/// never stop the walk; a directory that fails to list halts it, keeping
/// the rewrites performed up to that point.
pub fn walk(n: &Node) -> (r: WalkOutcome)
    ensures
        outcome_matches(r, walk_node(*n)),
        walk_node(*n) is Done ==> pretty_stable(*n),
    decreases *n,
{
    match n {
        Node::Source(f) => {
            let mut failures: Vec<Failure> = Vec::new();
            let mut rewrites: Vec<Rewrite> = Vec::new();
            match format_file(f) {
                FileOutcome::Written { original, formatted, content } => {
                    rewrites.push(Rewrite { path: f.path.clone(), content, original });
                    proof {
                        assert(rewrites_view(rewrites) =~= walk_node(*n)->Done_rewrites);
                        assert(failures_view(failures) =~= Seq::empty());
                    }
                    WalkOutcome { original, formatted, failures, rewrites, halt: None }
                },
                FileOutcome::Failed { kind, cause } => {
                    failures.push(Failure { path: f.path.clone(), kind, cause });
                    proof {
                        assert(failures_view(failures) =~= walk_node(*n)->Done_failures);
                        assert(rewrites_view(rewrites) =~= Seq::empty());
                    }
                    WalkOutcome { original: 0, formatted: 0, failures, rewrites, halt: None }
                },
            }
        },
        Node::Branch(d) => match &d.listing {
            Result::Err(cause) => {
                let r = WalkOutcome {
                    original: 0,
                    formatted: 0,
                    failures: Vec::new(),
                    rewrites: Vec::new(),
                    halt: Some(TraversalError { path: d.path.clone(), cause: cause.clone() }),
                };
                proof {
                    assert(rewrites_view(r.rewrites) =~= Seq::empty());
                }
                r
            },
            Result::Ok(children) => {
                proof {
                    assert(children@.skip(0) =~= children@);
                }
                walk_list(children, 0)
            },
        },
        Node::Skipped => {
            let r = WalkOutcome {
                original: 0,
                formatted: 0,
                failures: Vec::new(),
                rewrites: Vec::new(),
                halt: None,
            };
            proof {
                assert(failures_view(r.failures) =~= Seq::empty());
                assert(rewrites_view(r.rewrites) =~= Seq::empty());
            }
            r
        },
    }
}

/// Walks the siblings of one directory from position `i` on.
fn walk_list(children: &Vec<Node>, i: usize) -> (r: WalkOutcome)
    requires
        i <= children.len(),
    ensures
        outcome_matches(r, walk_children(children@.skip(i as int))),
        walk_children(children@.skip(i as int)) is Done ==> forall|j: int|
            i <= j < children@.len() ==> pretty_stable(#[trigger] children@[j]),
    decreases children@.skip(i as int),
{
    let ghost suffix = children@.skip(i as int);
    if i == children.len() {
        let r = WalkOutcome {
            original: 0,
            formatted: 0,
            failures: Vec::new(),
            rewrites: Vec::new(),
            halt: None,
        };
        proof {
            assert(suffix =~= Seq::empty());
            assert(failures_view(r.failures) =~= Seq::empty());
            assert(rewrites_view(r.rewrites) =~= Seq::empty());
        }
        r
    } else {
        proof {
            assert(suffix[0] == children@[i as int]);
            assert(suffix.drop_first() =~= children@.skip(i as int + 1));
        }
        let head = walk(&children[i]);
        if head.halt.is_some() {
            head
        } else {
            let mut rest = walk_list(children, i + 1);
            let mut rewrites = head.rewrites;
            let mut more_rewrites = rest.rewrites;
            rewrites.append(&mut more_rewrites);
            proof {
                assert(rewrites_view(rewrites) =~= rewrites_view(head.rewrites) + rewrites_view(
                    rest.rewrites,
                ));
            }
            if rest.halt.is_some() {
                WalkOutcome {
                    original: 0,
                    formatted: 0,
                    failures: Vec::new(),
                    rewrites,
                    halt: rest.halt,
                }
            } else {
                let mut failures = head.failures;
                let mut more_failures = rest.failures;
                failures.append(&mut more_failures);
                proof {
                    assert(failures_view(failures) =~= failures_view(head.failures)
                        + failures_view(rest.failures));
                }
                WalkOutcome {
                    original: head.original.saturating_add(rest.original),
                    formatted: head.formatted.saturating_add(rest.formatted),
                    failures,
                    rewrites,
                    halt: None,
                }
            }
        }
    }
}

/// Whether a rewrite list and a run result are the mathematical walk
/// outcome: the rewrites are always handed back, and the result is the
/// structural failure, the collected failures, or totals with no failure at
/// all — never totals beside failures.
pub open spec fn summary_matches(
    rewrites: Vec<Rewrite>,
    res: Result<TreeSummary, TraversalError>,
    w: WalkSpec,
) -> bool {
    match w {
        WalkSpec::Halted { path, cause, rewrites: rw } => {
            &&& res matches Result::Err(t) && t.path@ == path && t.cause@ == cause
            &&& rewrites_view(rewrites) == rw
        },
        WalkSpec::Done { original, formatted, failures, rewrites: rw } => {
            &&& rewrites_view(rewrites) == rw
            &&& if failures.len() == 0 {
                res matches Result::Ok(TreeSummary::AllFormatted(t)) && t.original == clamped(
                    original,
                ) && t.formatted == clamped(formatted)
            } else {
                res matches Result::Ok(TreeSummary::HadFailures(v)) && failures_view(v)
                    == failures
            }
        },
    }
}

/// Formats a whole tree.  Hands back the rewrites the walk performed and
/// either the byte totals (when every file formatted), the collected
/// per-file failures, or the structural failure that halted the walk.
pub fn format_tree(root: &Node) -> (r: (Vec<Rewrite>, Result<TreeSummary, TraversalError>))
    ensures
        summary_matches(r.0, r.1, walk_node(*root)),
        walk_node(*root) is Done ==> pretty_stable(*root),
{
    let out = walk(root);
    match out.halt {
        Some(t) => (out.rewrites, Err(t)),
        None => {
            if out.failures.len() == 0 {
                proof {
                    assert(failures_view(out.failures).len() == 0);
                }
                (
                    out.rewrites,
                    Ok(
                        TreeSummary::AllFormatted(
                            Totals { original: out.original, formatted: out.formatted },
                        ),
                    ),
                )
            } else {
                (out.rewrites, Ok(TreeSummary::HadFailures(out.failures)))
            }
        },
    }
}

} // verus!
