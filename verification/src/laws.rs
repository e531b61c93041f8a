//! The laws of the walker: what holds of every tree, proved once and for
//! all over the mathematical outcomes of [`crate::semantics`].

use vstd::prelude::*;
use crate::model::{FailureKind, FailureSpec, Node, RewriteSpec, SourceFile};
use crate::paths::{EntryClass, classify_entry_spec, has_source_extension};
use crate::reformat::{canonical, parse_error_of, parses};
use crate::semantics::{
    FileSpec, WalkSpec, all_sources_format, byte_len, canonical_sources, empty_of_sources,
    file_spec, fully_listable, pretty_stable, updated_from, walk_children, walk_node,
};

verus! {

/// A tree without a single source file, all of whose directories list,
/// formats to nothing: zero totals, no failure, no rewrite.
pub proof fn lemma_empty_tree_formats_to_nothing(n: Node)
    requires
        empty_of_sources(n),
    ensures
        walk_node(n) == (WalkSpec::Done {
            original: 0,
            formatted: 0,
            failures: Seq::<FailureSpec>::empty(),
            rewrites: Seq::<RewriteSpec>::empty(),
        }),
    decreases n,
{
    match n {
        Node::Source(f) => {
        },
        Node::Branch(d) => {
            let children = d.listing->Ok_0;
            lemma_empty_children_format_to_nothing(children@);
        },
        Node::Skipped => {
        },
    }
}

proof fn lemma_empty_children_format_to_nothing(s: Seq<Node>)
    requires
        forall|i: int| 0 <= i < s.len() ==> empty_of_sources(#[trigger] s[i]),
    ensures
        walk_children(s) == (WalkSpec::Done {
            original: 0,
            formatted: 0,
            failures: Seq::<FailureSpec>::empty(),
            rewrites: Seq::<RewriteSpec>::empty(),
        }),
    decreases s,
{
    if s.len() == 0 {
    } else {
        lemma_empty_tree_formats_to_nothing(s[0]);
        lemma_empty_children_format_to_nothing(s.drop_first());
        assert(Seq::<FailureSpec>::empty() + Seq::<FailureSpec>::empty()
            =~= Seq::<FailureSpec>::empty());
        assert(Seq::<RewriteSpec>::empty() + Seq::<RewriteSpec>::empty()
            =~= Seq::<RewriteSpec>::empty());
    }
}

/// A readable, writable source file whose text is already canonical is
/// rewritten with its own text: the recorded lengths agree and the content
/// on disk is byte-identical to what it was.
pub proof fn lemma_canonical_file_unchanged(f: SourceFile)
    requires
        f.read matches Ok(content) && canonical(content@),
        f.write is Ok,
    ensures
        file_spec(f) matches FileSpec::Written { original, formatted, content } && original
            == formatted && content == f.read->Ok_0@ && original == byte_len(f.read->Ok_0@),
        walk_node(Node::Source(f)) matches WalkSpec::Done {
            original,
            formatted,
            failures,
            rewrites,
        } && original == formatted && failures.len() == 0 && rewrites =~= seq![
            RewriteSpec {
                path: f.path@,
                content: f.read->Ok_0@,
                original: byte_len(f.read->Ok_0@),
            },
        ],
{
}

/// A readable source file whose text the pipeline rejects — it does not
/// parse, or holds a construct the printer refuses — reports a parse
/// failure and is left untouched: the write step is never reached, so the
/// walk performs no rewrite for it.
pub proof fn lemma_invalid_file_untouched(f: SourceFile)
    requires
        f.read matches Ok(content) && !parses(content@),
    ensures
        file_spec(f) == (FileSpec::Failed {
            kind: FailureKind::Parse,
            cause: parse_error_of(f.read->Ok_0@),
        }),
        walk_node(Node::Source(f)) matches WalkSpec::Done {
            original,
            formatted,
            failures,
            rewrites,
        } && original == 0 && formatted == 0 && rewrites.len() == 0 && failures =~= seq![
            FailureSpec {
                path: f.path@,
                kind: FailureKind::Parse,
                cause: parse_error_of(f.read->Ok_0@),
            },
        ],
{
}

/// A tree all of whose source files read back canonical text and accept
/// their rewrite formats in place: the walk finishes with equal totals and
/// no failure.  That each such file's rewrite carries the very text it
/// already holds is [`lemma_canonical_file_unchanged`].
pub proof fn lemma_canonical_tree_formats_in_place(n: Node)
    requires
        canonical_sources(n),
    ensures
        walk_node(n) matches WalkSpec::Done { original, formatted, failures, rewrites }
            && original == formatted && failures.len() == 0,
    decreases n,
{
    match n {
        Node::Source(f) => {
        },
        Node::Branch(d) => {
            let children = d.listing->Ok_0;
            lemma_canonical_children_format_in_place(children@);
        },
        Node::Skipped => {
        },
    }
}

proof fn lemma_canonical_children_format_in_place(s: Seq<Node>)
    requires
        forall|i: int| 0 <= i < s.len() ==> canonical_sources(#[trigger] s[i]),
    ensures
        walk_children(s) matches WalkSpec::Done { original, formatted, failures, rewrites }
            && original == formatted && failures.len() == 0,
    decreases s,
{
    if s.len() == 0 {
    } else {
        lemma_canonical_tree_formats_in_place(s[0]);
        lemma_canonical_children_format_in_place(s.drop_first());
    }
}

/// Idempotence.  A tree that a walk has just finished formatting without a
/// single failure is, on a second run with no outside modification, a tree
/// of canonical sources: the second walk succeeds, its totals agree with
/// each other, and it reports no failure.  The first walk certifies
/// `pretty_stable` for the tree it finished (see [`crate::walker::walk`]).
pub proof fn lemma_second_run_changes_nothing(n1: Node, n2: Node)
    requires
        walk_node(n1) matches WalkSpec::Done { failures, .. } && failures.len() == 0,
        pretty_stable(n1),
        updated_from(n2, n1),
    ensures
        canonical_sources(n2),
        walk_node(n2) matches WalkSpec::Done { original, formatted, failures, rewrites }
            && original == formatted && failures.len() == 0,
    decreases n1,
{
    lemma_updated_tree_is_canonical(n1, n2);
    lemma_canonical_tree_formats_in_place(n2);
}

proof fn lemma_updated_tree_is_canonical(n1: Node, n2: Node)
    requires
        walk_node(n1) matches WalkSpec::Done { failures, .. } && failures.len() == 0,
        pretty_stable(n1),
        updated_from(n2, n1),
    ensures
        canonical_sources(n2),
    decreases n1,
{
    match n1 {
        Node::Source(f1) => {
            assert(file_spec(f1) is Written) by {
                if file_spec(f1) is Failed {
                    assert(walk_node(n1)->Done_failures.len() == 1);
                }
            }
        },
        Node::Branch(d1) => {
            let children1 = d1.listing->Ok_0;
            let children2 = (n2->Branch_0).listing->Ok_0;
            lemma_updated_children_are_canonical(children1@, children2@);
        },
        Node::Skipped => {
        },
    }
}

proof fn lemma_updated_children_are_canonical(s1: Seq<Node>, s2: Seq<Node>)
    requires
        walk_children(s1) matches WalkSpec::Done { failures, .. } && failures.len() == 0,
        forall|i: int| 0 <= i < s1.len() ==> pretty_stable(#[trigger] s1[i]),
        s2.len() == s1.len(),
        forall|i: int| 0 <= i < s1.len() ==> updated_from(#[trigger] s2[i], s1[i]),
    ensures
        forall|i: int| 0 <= i < s2.len() ==> canonical_sources(#[trigger] s2[i]),
    decreases s1,
{
    if s1.len() == 0 {
    } else {
        assert(walk_node(s1[0]) is Done && walk_children(s1.drop_first()) is Done);
        assert(walk_node(s1[0])->Done_failures.len() == 0
            && walk_children(s1.drop_first())->Done_failures.len() == 0) by {
            assert(walk_node(s1[0])->Done_failures + walk_children(
                s1.drop_first(),
            )->Done_failures =~= walk_children(s1)->Done_failures);
        }
        lemma_updated_tree_is_canonical(s1[0], s2[0]);
        assert forall|i: int| 0 <= i < s1.drop_first().len() implies pretty_stable(
            #[trigger] s1.drop_first()[i],
        ) && updated_from(s2.drop_first()[i], s1.drop_first()[i]) by {
            assert(s1.drop_first()[i] == s1[i + 1]);
            assert(s2.drop_first()[i] == s2[i + 1]);
        }
        lemma_updated_children_are_canonical(s1.drop_first(), s2.drop_first());
        assert forall|i: int| 0 <= i < s2.len() implies canonical_sources(
            #[trigger] s2[i],
        ) by {
            if i > 0 {
                assert(s2.drop_first()[i - 1] == s2[i]);
            }
        }
    }
}

/// The flattened byte total over a row of siblings.
pub open spec fn children_original(s: Seq<Node>) -> nat
    decreases s,
{
    if s.len() == 0 {
        0
    } else {
        walk_node(s[0])->Done_original + children_original(s.drop_first())
    }
}

/// The flattened formatted byte total over a row of siblings.
pub open spec fn children_formatted(s: Seq<Node>) -> nat
    decreases s,
{
    if s.len() == 0 {
        0
    } else {
        walk_node(s[0])->Done_formatted + children_formatted(s.drop_first())
    }
}

/// The failures of a row of siblings, concatenated in order.
pub open spec fn children_failures(s: Seq<Node>) -> Seq<FailureSpec>
    decreases s,
{
    if s.len() == 0 {
        Seq::empty()
    } else {
        walk_node(s[0])->Done_failures + children_failures(s.drop_first())
    }
}

/// The rewrites of a row of siblings, concatenated in order.
pub open spec fn children_rewrites(s: Seq<Node>) -> Seq<RewriteSpec>
    decreases s,
{
    if s.len() == 0 {
        Seq::empty()
    } else {
        walk_node(s[0])->Done_rewrites + children_rewrites(s.drop_first())
    }
}

/// Isolation.  When no entry of a directory halts the walk structurally,
/// the directory's outcome is exactly the concatenation of its entries'
/// outcomes: every entry's rewrites are performed and every entry's
/// failures are reported, each independent of what happened to its
/// siblings — one bad file costs nothing but its own rewrite.
pub proof fn lemma_siblings_are_isolated(s: Seq<Node>)
    requires
        forall|i: int| 0 <= i < s.len() ==> (#[trigger] walk_node(s[i])) is Done,
    ensures
        walk_children(s) == (WalkSpec::Done {
            original: children_original(s),
            formatted: children_formatted(s),
            failures: children_failures(s),
            rewrites: children_rewrites(s),
        }),
    decreases s,
{
    if s.len() == 0 {
        assert(walk_children(s) == WalkSpec::Done {
            original: children_original(s),
            formatted: children_formatted(s),
            failures: children_failures(s),
            rewrites: children_rewrites(s),
        });
    } else {
        assert(forall|i: int| 0 <= i < s.drop_first().len() ==> (#[trigger] walk_node(
            s.drop_first()[i],
        )) is Done) by {
            assert(forall|i: int| 0 <= i < s.drop_first().len() ==> s.drop_first()[i] == s[i
                + 1]);
        }
        lemma_siblings_are_isolated(s.drop_first());
    }
}

/// A walk finishes exactly when every directory of the tree lists: the
/// structural failure is owed if and only if some listing fails, and
/// nothing else can halt a walk.
pub proof fn lemma_walk_finishes_iff_every_directory_lists(n: Node)
    ensures
        walk_node(n) is Done <==> fully_listable(n),
    decreases n,
{
    match n {
        Node::Source(f) => {
        },
        Node::Branch(d) => {
            if d.listing is Ok {
                let children = d.listing->Ok_0;
                lemma_children_finish_iff_each_finishes(children@);
            }
        },
        Node::Skipped => {
        },
    }
}

proof fn lemma_children_finish_iff_each_finishes(s: Seq<Node>)
    ensures
        walk_children(s) is Done <==> forall|i: int|
            0 <= i < s.len() ==> fully_listable(#[trigger] s[i]),
    decreases s,
{
    if s.len() == 0 {
    } else {
        lemma_walk_finishes_iff_every_directory_lists(s[0]);
        lemma_children_finish_iff_each_finishes(s.drop_first());
        assert(forall|i: int| 0 <= i < s.drop_first().len() ==> s.drop_first()[i] == s[i + 1]);
        if walk_children(s) is Done {
            assert forall|i: int| 0 <= i < s.len() implies fully_listable(#[trigger] s[i]) by {
                if i > 0 {
                    assert(s.drop_first()[i - 1] == s[i]);
                }
            }
        }
    }
}

/// A finished walk reports no failure exactly when every source file of the
/// tree formats: each file reads, the pipeline accepts its text, and its
/// rewrite is accepted.  Together with the walk's outcome this says
/// precisely when totals are owed.
pub proof fn lemma_totals_owed_iff_every_file_formats(n: Node)
    requires
        fully_listable(n),
    ensures
        walk_node(n) is Done,
        walk_node(n)->Done_failures.len() == 0 <==> all_sources_format(n),
    decreases n,
{
    lemma_walk_finishes_iff_every_directory_lists(n);
    match n {
        Node::Source(f) => {
        },
        Node::Branch(d) => {
            let children = d.listing->Ok_0;
            lemma_totals_owed_children(children@);
        },
        Node::Skipped => {
        },
    }
}

proof fn lemma_totals_owed_children(s: Seq<Node>)
    requires
        forall|i: int| 0 <= i < s.len() ==> fully_listable(#[trigger] s[i]),
    ensures
        walk_children(s) is Done,
        walk_children(s)->Done_failures.len() == 0 <==> forall|i: int|
            0 <= i < s.len() ==> all_sources_format(#[trigger] s[i]),
    decreases s,
{
    if s.len() == 0 {
    } else {
        lemma_totals_owed_iff_every_file_formats(s[0]);
        assert(forall|i: int| 0 <= i < s.drop_first().len() ==> s.drop_first()[i] == s[i + 1]);
        lemma_totals_owed_children(s.drop_first());
        assert(walk_children(s)->Done_failures =~= walk_node(s[0])->Done_failures
            + walk_children(s.drop_first())->Done_failures);
        if walk_children(s)->Done_failures.len() == 0 {
            assert forall|i: int| 0 <= i < s.len() implies all_sources_format(
                #[trigger] s[i],
            ) by {
                if i > 0 {
                    assert(s.drop_first()[i - 1] == s[i]);
                }
            }
        }
    }
}

/// Extension filtering.  An entry that is a plain file without the source
/// extension is classified as skipped, and a skipped entry is left
/// untouched and contributes nothing to totals, whatever its content.
pub proof fn lemma_ineligible_file_contributes_nothing(p: Seq<char>, is_file: bool)
    requires
        !has_source_extension(p),
    ensures
        classify_entry_spec(p, is_file, false, false) == EntryClass::Skip,
        walk_node(Node::Skipped) == (WalkSpec::Done {
            original: 0,
            formatted: 0,
            failures: Seq::<FailureSpec>::empty(),
            rewrites: Seq::<RewriteSpec>::empty(),
        }),
{
}

} // verus!
