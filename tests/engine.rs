use filer::args::Args;
use filer::command::{append, filter, prepend};
use filer::confirm::{on_input, open_gate, read_answer, GateStep, Rejection};
use filer::execute::{Execution, RenameOutcome};
use filer::path::FilePath;
use filer::plan::{build_plan, normalize_extension, RenamePlan};

fn paths(names: &[&str]) -> Vec<FilePath> {
    names.iter().map(|n| FilePath::new(n)).collect()
}

fn args() -> Args {
    Args {
        path: ".".to_owned(),
        suffix: None,
        prefix: None,
        replace: None,
        delete: None,
        extensions: None,
    }
}

fn sources(plan: &RenamePlan) -> Vec<FilePath> {
    (0..plan.len()).map(|i| plan.source(i).clone()).collect()
}

fn targets(plan: &RenamePlan) -> Vec<FilePath> {
    (0..plan.len()).map(|i| plan.target(i).clone()).collect()
}

#[test]
fn lib_append_paths() {
    let paths = vec![FilePath::new("./foo.txt"), FilePath::new("./bar.txt")];

    assert_eq!(
        vec![FilePath::new("./foobaz.txt"), FilePath::new("./barbaz.txt")],
        append("baz", &paths)
    );
}

#[test]
fn lib_prepend_paths() {
    let paths = vec![FilePath::new("./foo.txt"), FilePath::new("./bar.txt")];

    assert_eq!(
        vec![FilePath::new("./bazfoo.txt"), FilePath::new("./bazbar.txt")],
        prepend("baz", &paths)
    );
}

#[test]
fn lib_filter_by_extensions_paths() {
    let paths = vec![
        FilePath::new("./foo.txt"),
        FilePath::new("./bar.txt"),
        FilePath::new("./baz.txt"),
    ];

    assert_eq!(
        vec![
            FilePath::new("./foo.txt"),
            FilePath::new("./bar.txt"),
            FilePath::new("./baz.txt")
        ],
        filter(vec!["txt".to_owned()], paths)
    );
}

#[test]
fn plan_prepends_before_appending() {
    let mut a = args();
    a.prefix = Some("pre_".to_owned());
    a.suffix = Some("_post".to_owned());
    let plan = build_plan(paths(&["./foo.txt", "./bar"]), &a);
    assert_eq!(paths(&["./foo.txt", "./bar"]), sources(&plan));
    assert_eq!(paths(&["./pre_foo_post.txt", "./pre_bar_post"]), targets(&plan));
}

#[test]
fn plan_filters_by_normalized_extensions() {
    let mut a = args();
    a.suffix = Some("2".to_owned());
    a.extensions = Some(vec![".txt".to_owned(), "rs".to_owned()]);
    let plan = build_plan(paths(&["a.txt", "b.md", "c.rs", "d"]), &a);
    assert_eq!(paths(&["a.txt", "c.rs"]), sources(&plan));
    assert_eq!(paths(&["a2.txt", "c2.rs"]), targets(&plan));
}

#[test]
fn plan_with_empty_extension_list_skips_filter() {
    let mut a = args();
    a.prefix = Some("x".to_owned());
    a.extensions = Some(vec![]);
    let plan = build_plan(paths(&["a.txt", "b.md"]), &a);
    assert_eq!(paths(&["xa.txt", "xb.md"]), targets(&plan));
}

#[test]
fn plan_runs_replace_then_delete() {
    let mut a = args();
    a.replace = Some(("foo".to_owned(), "barbar".to_owned()));
    a.delete = Some("bar".to_owned());
    let plan = build_plan(paths(&["d/foo.txt", "d/zap.foo"]), &a);
    assert_eq!(paths(&["d/foo.txt", "d/zap.foo"]), sources(&plan));
    assert_eq!(paths(&["d/.txt", "d/zap."]), targets(&plan));
}

#[test]
fn plan_stays_aligned_when_entries_are_dropped() {
    let mut a = args();
    a.suffix = Some("/".to_owned());
    a.delete = Some("x".to_owned());
    let plan = build_plan(paths(&["d/ax", "d/", "d/b.txt"]), &a);
    assert_eq!(plan.len(), 1);
    assert_eq!(paths(&["d/b.txt"]), sources(&plan));
    assert_eq!(paths(&["d/b/.tt"]), targets(&plan));
}

#[test]
fn normalize_strips_one_leading_dot() {
    assert_eq!("txt", normalize_extension(".txt"));
    assert_eq!("txt", normalize_extension("txt"));
    assert_eq!(".txt", normalize_extension("..txt"));
}

#[test]
fn empty_plan_is_rejected_without_prompt() {
    let mut a = args();
    a.suffix = Some("x".to_owned());
    a.extensions = Some(vec!["md".to_owned()]);
    let plan = build_plan(paths(&["a.txt"]), &a);
    assert!(plan.is_empty());
    assert_eq!(GateStep::Reject(Rejection::NoMatchingFiles), open_gate(&plan));
    assert_eq!(
        "There are no files to rename that match the provided arguments!",
        Rejection::NoMatchingFiles.message()
    );
}

#[test]
fn nonempty_plan_prompts() {
    let mut a = args();
    a.suffix = Some("x".to_owned());
    let plan = build_plan(paths(&["a.txt"]), &a);
    assert_eq!(GateStep::Prompt, open_gate(&plan));
}

#[test]
fn answers_accept_cancel_or_ask_again() {
    assert_eq!(GateStep::Accept, read_answer(""));
    assert_eq!(GateStep::Accept, read_answer("y"));
    assert_eq!(GateStep::Accept, read_answer("Y"));
    assert_eq!(GateStep::Reject(Rejection::Cancelled), read_answer("n"));
    assert_eq!(GateStep::Reject(Rejection::Cancelled), read_answer("N"));
    assert_eq!(GateStep::Prompt, read_answer("yes"));
    assert_eq!(GateStep::Prompt, read_answer("q"));
    assert_eq!("Operation cancelled", Rejection::Cancelled.message());
}

#[test]
fn typed_lines_are_trimmed() {
    assert_eq!(GateStep::Accept, on_input("\n"));
    assert_eq!(GateStep::Accept, on_input("  y \n"));
    assert_eq!(GateStep::Reject(Rejection::Cancelled), on_input("N\r\n"));
    assert_eq!(GateStep::Prompt, on_input("  maybe\n"));
}

#[test]
fn failure_in_the_middle_does_not_stop_the_run() {
    let mut a = args();
    a.suffix = Some("x".to_owned());
    let plan = build_plan(paths(&["a", "b", "c"]), &a);
    let mut run = Execution::new(&plan);
    assert_eq!(Some(0), run.next_index());
    run.record(RenameOutcome::Succeeded);
    assert_eq!(Some(1), run.next_index());
    run.record(RenameOutcome::Failed("exists".to_owned()));
    assert_eq!(Some(2), run.next_index());
    assert!(!run.is_finished());
    run.record(RenameOutcome::Succeeded);
    assert_eq!(None, run.next_index());
    assert!(run.is_finished());
    assert_eq!(
        vec![
            RenameOutcome::Succeeded,
            RenameOutcome::Failed("exists".to_owned()),
            RenameOutcome::Succeeded
        ],
        run.into_outcomes()
    );
}
