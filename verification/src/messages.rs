//! The human-readable rendering of failures, specified to the byte.

use vstd::prelude::*;
use crate::model::{Failure, FailureKind, FailureSpec, failures_view};
use vstd::string::StringExecFns;

verus! {

/// The label of a failing step.
pub open spec fn kind_label(k: FailureKind) -> Seq<char> {
    match k {
        FailureKind::Read => "failed to read file "@,
        FailureKind::Parse => "failed to parse file "@,
        FailureKind::Write => "failed to write file "@,
    }
}

/// One file's failure as the formatter describes it.
pub open spec fn failure_message(f: FailureSpec) -> Seq<char> {
    kind_label(f.kind) + f.path + ": "@ + f.cause
}

/// One line of the aggregated report.
pub open spec fn failure_line(f: FailureSpec) -> Seq<char> {
    "error: "@ + f.path + ": "@ + failure_message(f)
}

/// The aggregated report: every collected failure, one line each, joined by
/// newlines.
pub open spec fn joined_failure_lines(fs: Seq<FailureSpec>) -> Seq<char>
    decreases fs.len(),
{
    if fs.len() == 0 {
        Seq::empty()
    } else if fs.len() == 1 {
        failure_line(fs[0])
    } else {
        failure_line(fs[0]) + "\n"@ + joined_failure_lines(fs.drop_first())
    }
}

/// Appending one failure to the row appends one line to the report.
proof fn lemma_joined_lines_push(fs: Seq<FailureSpec>, f: FailureSpec)
    ensures
        joined_failure_lines(fs.push(f)) == if fs.len() == 0 {
            failure_line(f)
        } else {
            joined_failure_lines(fs) + "\n"@ + failure_line(f)
        },
    decreases fs.len(),
{
    if fs.len() == 0 {
        assert(fs.push(f)[0] == f);
    } else {
        assert(fs.push(f).drop_first() =~= fs.drop_first().push(f));
        lemma_joined_lines_push(fs.drop_first(), f);
        assert(joined_failure_lines(fs.push(f)) =~= joined_failure_lines(fs) + "\n"@
            + failure_line(f));
    }
}

/// Renders one file's failure.
pub fn render_failure_message(f: &Failure) -> (r: String)
    ensures
        r@ == failure_message(f@),
{
    let mut s = String::new();
    match f.kind {
        FailureKind::Read => s.append("failed to read file "),
        FailureKind::Parse => s.append("failed to parse file "),
        FailureKind::Write => s.append("failed to write file "),
    }
    s.append(f.path.as_str());
    s.append(": ");
    s.append(f.cause.as_str());
    proof {
        assert(s@ =~= failure_message(f@));
    }
    s
}

/// Renders one line of the aggregated report.
pub fn render_failure_line(f: &Failure) -> (r: String)
    ensures
        r@ == failure_line(f@),
{
    let mut s = String::new();
    s.append("error: ");
    s.append(f.path.as_str());
    s.append(": ");
    let message = render_failure_message(f);
    s.append(message.as_str());
    proof {
        assert(s@ =~= failure_line(f@));
    }
    s
}

/// Renders the aggregated report of a walk's collected failures: one line
/// per failure, in the order they were collected, joined by newlines.
pub fn render_failures(failures: &Vec<Failure>) -> (r: String)
    ensures
        r@ == joined_failure_lines(failures_view(*failures)),
{
    let ghost fs = failures_view(*failures);
    let mut s = String::new();
    let mut i: usize = 0;
    while i < failures.len()
        invariant
            i <= failures.len(),
            fs == failures_view(*failures),
            fs.len() == failures.len(),
            s@ == joined_failure_lines(fs.take(i as int)),
        decreases failures.len() - i,
    {
        if i > 0 {
            s.append("\n");
        }
        let line = render_failure_line(&failures[i]);
        s.append(line.as_str());
        proof {
            assert(fs.take(i as int).push(fs[i as int]) =~= fs.take(i as int + 1));
            lemma_joined_lines_push(fs.take(i as int), fs[i as int]);
            assert(s@ =~= joined_failure_lines(fs.take(i as int + 1)));
        }
        i += 1;
    }
    proof {
        assert(fs.take(fs.len() as int) =~= fs);
    }
    s
}

/// The report of an invalid root: the path is neither an eligible file nor
/// a directory.
pub open spec fn invalid_root_message(p: Seq<char>) -> Seq<char> {
    "path "@ + p + " is not a file, symlink or directory"@
}

/// Renders the invalid-root report.
pub fn render_invalid_root(path: &str) -> (r: String)
    ensures
        r@ == invalid_root_message(path@),
{
    let mut s = String::new();
    s.append("path ");
    s.append(path);
    s.append(" is not a file, symlink or directory");
    proof {
        assert(s@ =~= invalid_root_message(path@));
    }
    s
}

} // verus!
