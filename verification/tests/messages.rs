use pretty_thanks::messages::{render_failure_line, render_failure_message, render_failures, render_invalid_root};
use pretty_thanks::model::{Failure, FailureKind};

fn failure(path: &str, kind: FailureKind, cause: &str) -> Failure {
    Failure { path: String::from(path), kind, cause: String::from(cause) }
}

#[test]
fn one_failure_renders_as_one_message() {
    let f = failure("d/a.rs", FailureKind::Parse, "boom");
    assert_eq!(render_failure_message(&f), "failed to parse file d/a.rs: boom");
    assert_eq!(render_failure_line(&f), "error: d/a.rs: failed to parse file d/a.rs: boom");
}

#[test]
fn each_step_has_its_label() {
    assert_eq!(
        render_failure_message(&failure("x.rs", FailureKind::Read, "no")),
        "failed to read file x.rs: no"
    );
    assert_eq!(
        render_failure_message(&failure("x.rs", FailureKind::Write, "no")),
        "failed to write file x.rs: no"
    );
}

#[test]
fn failures_join_with_newlines() {
    let fs = vec![
        failure("a.rs", FailureKind::Read, "gone"),
        failure("b.rs", FailureKind::Parse, "bad"),
    ];
    assert_eq!(
        render_failures(&fs),
        "error: a.rs: failed to read file a.rs: gone\nerror: b.rs: failed to parse file b.rs: bad"
    );
}

#[test]
fn no_failures_render_as_nothing() {
    assert_eq!(render_failures(&Vec::new()), "");
}

#[test]
fn invalid_root_names_the_path() {
    assert_eq!(
        render_invalid_root("/no/such"),
        "path /no/such is not a file, symlink or directory"
    );
}
