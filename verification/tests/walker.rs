use pretty_thanks::model::{Directory, FailureKind, Node, SourceFile, TreeSummary};
use pretty_thanks::walker::{format_file, format_tree, FileOutcome};

fn source(path: &str, content: &str) -> Node {
    Node::Source(SourceFile {
        path: String::from(path),
        read: Ok(String::from(content)),
        write: Ok(()),
    })
}

fn branch(path: &str, children: Vec<Node>) -> Node {
    Node::Branch(Directory { path: String::from(path), listing: Ok(children) })
}

fn canonical_main() -> String {
    // The canonical form of any rendering of `fn main() {}`.
    match format_file(&SourceFile {
        path: String::from("seed.rs"),
        read: Ok(String::from("fn  main( ) { }")),
        write: Ok(()),
    }) {
        FileOutcome::Written { content, .. } => content,
        FileOutcome::Failed { .. } => panic!("seed failed to format"),
    }
}

#[test]
fn empty_directory_formats_to_nothing() {
    let tree = branch("root", vec![branch("root/sub", vec![]), Node::Skipped]);
    let (rewrites, result) = format_tree(&tree);
    assert!(rewrites.is_empty());
    match result {
        Ok(TreeSummary::AllFormatted(t)) => {
            assert_eq!(t.original, 0);
            assert_eq!(t.formatted, 0);
        }
        _ => panic!("expected totals"),
    }
}

#[test]
fn canonical_file_is_rewritten_unchanged() {
    let canon = canonical_main();
    let outcome = format_file(&SourceFile {
        path: String::from("a.rs"),
        read: Ok(canon.clone()),
        write: Ok(()),
    });
    match outcome {
        FileOutcome::Written { original, formatted, content } => {
            assert_eq!(original, canon.len());
            assert_eq!(formatted, canon.len());
            assert_eq!(content, canon);
        }
        FileOutcome::Failed { .. } => panic!("canonical file must format"),
    }
}

#[test]
fn formatting_produces_exact_canonical_text() {
    // An exact expected value: the canonical rendering of a main function.
    assert_eq!(canonical_main(), "fn main() {}\n");
}

#[test]
fn formatter_actually_reformats() {
    // Would fail if the reformatting step handed its argument back.
    let outcome = format_file(&SourceFile {
        path: String::from("messy.rs"),
        read: Ok(String::from("fn  main( ) { let    x=1 ; }")),
        write: Ok(()),
    });
    match outcome {
        FileOutcome::Written { original, formatted, content } => {
            assert_ne!(content, "fn  main( ) { let    x=1 ; }");
            assert_eq!(content, "fn main() {\n    let x = 1;\n}\n");
            assert_eq!(original, 28);
            assert_eq!(formatted, content.len());
        }
        FileOutcome::Failed { .. } => panic!("valid file must format"),
    }
}

#[test]
fn invalid_file_reports_parse_error() {
    let outcome = format_file(&SourceFile {
        path: String::from("bad.rs"),
        read: Ok(String::from("fn {")),
        write: Ok(()),
    });
    match outcome {
        FileOutcome::Failed { kind, .. } => assert_eq!(kind, FailureKind::Parse),
        FileOutcome::Written { .. } => panic!("invalid file must not format"),
    }
}

#[test]
fn verbatim_construct_is_rejected_not_aborted() {
    // `fn f();` parses, but the parser keeps it only as raw tokens, which
    // the printer refuses: the file must fail cleanly, not abort.
    let outcome = format_file(&SourceFile {
        path: String::from("sig.rs"),
        read: Ok(String::from("fn f();")),
        write: Ok(()),
    });
    match outcome {
        FileOutcome::Failed { kind, .. } => assert_eq!(kind, FailureKind::Parse),
        FileOutcome::Written { .. } => panic!("verbatim construct must not format"),
    }
}

#[test]
fn nested_verbatim_construct_is_rejected_not_aborted() {
    // A static without a type inside an extern block is kept verbatim too.
    let outcome = format_file(&SourceFile {
        path: String::from("nested.rs"),
        read: Ok(String::from("extern \"C\" { static x; }")),
        write: Ok(()),
    });
    match outcome {
        FileOutcome::Failed { kind, .. } => assert_eq!(kind, FailureKind::Parse),
        FileOutcome::Written { .. } => panic!("verbatim construct must not format"),
    }
}

#[test]
fn malformed_macro_rules_is_rejected_not_aborted() {
    // `macro_rules! m { foo }` parses as a macro item with an arbitrary
    // token body, but the printer refuses a rules body that is not
    // matcher => expander pairs: the file must fail cleanly, not abort.
    let outcome = format_file(&SourceFile {
        path: String::from("badrules.rs"),
        read: Ok(String::from("macro_rules! m { foo }")),
        write: Ok(()),
    });
    match outcome {
        FileOutcome::Failed { kind, .. } => assert_eq!(kind, FailureKind::Parse),
        FileOutcome::Written { .. } => panic!("malformed macro_rules must not format"),
    }
}

#[test]
fn nested_malformed_macro_rules_is_rejected_not_aborted() {
    let outcome = format_file(&SourceFile {
        path: String::from("nestedrules.rs"),
        read: Ok(String::from("fn f() { macro_rules! inner { bad } }")),
        write: Ok(()),
    });
    match outcome {
        FileOutcome::Failed { kind, .. } => assert_eq!(kind, FailureKind::Parse),
        FileOutcome::Written { .. } => panic!("malformed macro_rules must not format"),
    }
}

#[test]
fn well_formed_macro_rules_still_formats() {
    let outcome = format_file(&SourceFile {
        path: String::from("macros.rs"),
        read: Ok(String::from("macro_rules! pass { ($x:expr) => { $x }; }")),
        write: Ok(()),
    });
    match outcome {
        FileOutcome::Written { content, .. } => {
            assert!(content.contains("macro_rules! pass"));
        }
        FileOutcome::Failed { .. } => panic!("macro_rules must format"),
    }
}

#[test]
fn invalid_file_is_left_untouched() {
    let tree = branch("root", vec![source("root/bad.rs", "fn {")]);
    let (rewrites, result) = format_tree(&tree);
    assert!(rewrites.is_empty());
    match result {
        Ok(TreeSummary::HadFailures(failures)) => {
            assert_eq!(failures.len(), 1);
            assert_eq!(failures[0].path, "root/bad.rs");
            assert_eq!(failures[0].kind, FailureKind::Parse);
        }
        _ => panic!("expected failures"),
    }
}

#[test]
fn unreadable_file_reports_read_error() {
    let outcome = format_file(&SourceFile {
        path: String::from("gone.rs"),
        read: Err(String::from("permission denied")),
        write: Ok(()),
    });
    match outcome {
        FileOutcome::Failed { kind, cause } => {
            assert_eq!(kind, FailureKind::Read);
            assert_eq!(cause, "permission denied");
        }
        FileOutcome::Written { .. } => panic!("unreadable file must not format"),
    }
}

#[test]
fn unwritable_file_reports_write_error() {
    let outcome = format_file(&SourceFile {
        path: String::from("locked.rs"),
        read: Ok(String::from("fn main() {}\n")),
        write: Err(String::from("disk full")),
    });
    match outcome {
        FileOutcome::Failed { kind, cause } => {
            assert_eq!(kind, FailureKind::Write);
            assert_eq!(cause, "disk full");
        }
        FileOutcome::Written { .. } => panic!("unwritable file must not format"),
    }
}

#[test]
fn unlistable_directory_halts_the_walk() {
    let tree = branch(
        "root",
        vec![
            source("root/ok.rs", "fn  main( ) { }"),
            Node::Branch(Directory {
                path: String::from("root/secret"),
                listing: Err(String::from("permission denied")),
            }),
        ],
    );
    let (rewrites, result) = format_tree(&tree);
    // The file walked before the halt keeps its rewrite.
    assert_eq!(rewrites.len(), 1);
    assert_eq!(rewrites[0].path, "root/ok.rs");
    match result {
        Err(halt) => {
            assert_eq!(halt.path, "root/secret");
            assert_eq!(halt.cause, "permission denied");
        }
        Ok(_) => panic!("expected a structural failure"),
    }
}

#[test]
fn failures_do_not_stop_siblings() {
    // One invalid file beside two valid ones: both valid files are still
    // rewritten, and the failure names only the invalid one.
    let tree = branch(
        "root",
        vec![
            source("root/a.rs", "fn  a( ) { }"),
            source("root/bad.rs", "fn {"),
            source("root/b.rs", "fn  b( ) { }"),
        ],
    );
    let (rewrites, result) = format_tree(&tree);
    assert_eq!(rewrites.len(), 2);
    assert_eq!(rewrites[0].path, "root/a.rs");
    assert_eq!(rewrites[1].path, "root/b.rs");
    assert_eq!(rewrites[0].content, "fn a() {}\n");
    assert_eq!(rewrites[1].content, "fn b() {}\n");
    match result {
        Ok(TreeSummary::HadFailures(failures)) => {
            assert_eq!(failures.len(), 1);
            assert_eq!(failures[0].path, "root/bad.rs");
        }
        _ => panic!("expected failures"),
    }
}

#[test]
fn second_run_changes_nothing() {
    // Idempotence: apply the first run's rewrites, walk again, and every
    // file is already canonical.
    let tree = branch(
        "d",
        vec![
            source("d/a.rs", "fn  a( ) { }"),
            branch("d/sub", vec![source("d/sub/b.rs", "fn b( x : u8 ) { }")]),
        ],
    );
    let (rewrites, first) = format_tree(&tree);
    assert!(matches!(first, Ok(TreeSummary::AllFormatted(_))));
    assert_eq!(rewrites.len(), 2);
    let again = branch(
        "d",
        vec![
            source("d/a.rs", &rewrites[0].content),
            branch("d/sub", vec![source("d/sub/b.rs", &rewrites[1].content)]),
        ],
    );
    let (rewrites2, second) = format_tree(&again);
    match second {
        Ok(TreeSummary::AllFormatted(t)) => {
            assert_eq!(t.original, t.formatted);
            assert_eq!(
                t.original,
                rewrites[0].content.len() + rewrites[1].content.len()
            );
        }
        _ => panic!("second run must succeed with no failures"),
    }
    assert_eq!(rewrites2.len(), 2);
    assert_eq!(rewrites2[0].content, rewrites[0].content);
    assert_eq!(rewrites2[1].content, rewrites[1].content);
}

#[test]
fn totals_add_up_across_the_tree() {
    let canon = canonical_main();
    let tree = branch(
        "d",
        vec![
            source("d/a.rs", &canon),
            source("d/b.rs", "fn  main( ) { }"),
        ],
    );
    let (rewrites, result) = format_tree(&tree);
    assert_eq!(rewrites.len(), 2);
    match result {
        Ok(TreeSummary::AllFormatted(t)) => {
            assert_eq!(t.original, canon.len() + "fn  main( ) { }".len());
            assert_eq!(t.formatted, canon.len() + canon.len());
        }
        _ => panic!("expected totals"),
    }
}

#[test]
fn tree_scenario_reports_the_one_bad_file() {
    // A canonical file, a non-canonical file, and an invalid file in a
    // subdirectory: the two good files are rewritten, the bad one is
    // reported by path, and no totals are handed out.
    let canon = canonical_main();
    let messy = "fn  main( ) { let    x=1 ; }";
    let tree = branch(
        "d",
        vec![
            source("d/a.rs", &canon),
            source("d/b.rs", messy),
            branch("d/sub", vec![source("d/sub/c.rs", "fn {")]),
        ],
    );
    let (rewrites, result) = format_tree(&tree);
    assert_eq!(rewrites.len(), 2);
    assert_eq!(rewrites[0].path, "d/a.rs");
    assert_eq!(rewrites[0].content, canon);
    assert_eq!(rewrites[1].path, "d/b.rs");
    assert!(rewrites[1].content.len() < messy.len() + 10);
    match result {
        Ok(TreeSummary::HadFailures(failures)) => {
            assert_eq!(failures.len(), 1);
            assert_eq!(failures[0].path, "d/sub/c.rs");
            assert_eq!(failures[0].kind, FailureKind::Parse);
        }
        _ => panic!("expected failures"),
    }
}
