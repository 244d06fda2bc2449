use mcpatch::upload::{
    diff, difference, enabled_backends, exit_code, holds, Backend, FileListCache, Operation,
    Reconciliation,
};

fn list(names: &[&str]) -> Vec<String> {
    names.iter().map(|n| n.to_string()).collect()
}

fn show(operation: &Operation) -> String {
    match operation {
        Operation::Upload(name) => format!("upload {}", name),
        Operation::Delete(name) => format!("delete {}", name),
    }
}

/// Runs a reconciliation to its end. The operation that is made when `n`
/// went through comes to `results(n)`.
fn run(
    mut reconciliation: Reconciliation,
    results: &dyn Fn(usize) -> Result<(), String>,
) -> (Vec<String>, Result<(), String>) {
    let mut made = Vec::new();
    let mut through = 0;
    while let Some(operation) = reconciliation.next() {
        assert!(reconciliation.outcome().is_none());
        made.push(show(&operation));
        let result = results(through);
        if result.is_ok() {
            through += 1;
        }
        reconciliation.record(result);
        assert!(made.len() < 1000);
    }
    (made, reconciliation.outcome().unwrap())
}

#[test]
fn diff_correctness() {
    let plan = diff(&list(&["a", "b", "c"]), &list(&["b", "c", "d"]));
    assert_eq!(plan.need_upload, list(&["a"]));
    assert_eq!(plan.need_delete, list(&["d"]));
}

#[test]
fn diff_is_a_no_op_when_the_sets_are_equal() {
    let plan = diff(&list(&["a", "b", "c"]), &list(&["c", "a", "b"]));
    assert!(plan.need_upload.is_empty());
    assert!(plan.need_delete.is_empty());
    let plan = diff(&list(&[]), &list(&[]));
    assert!(plan.need_upload.is_empty());
    assert!(plan.need_delete.is_empty());
}

#[test]
fn diff_keeps_the_order_of_the_listing() {
    let plan = diff(&list(&["z", "m", "a", "k"]), &list(&["m", "q", "b"]));
    assert_eq!(plan.need_upload, list(&["z", "a", "k"]));
    assert_eq!(plan.need_delete, list(&["q", "b"]));
}

#[test]
fn diff_compares_names_letter_for_letter() {
    let plan = diff(&list(&["A.txt", "dir/x"]), &list(&["a.txt", "dir\\x"]));
    assert_eq!(plan.need_upload, list(&["A.txt", "dir/x"]));
    assert_eq!(plan.need_delete, list(&["a.txt", "dir\\x"]));
}

#[test]
fn diff_against_an_empty_store_uploads_everything() {
    let plan = diff(&list(&["a", "b"]), &list(&[]));
    assert_eq!(plan.need_upload, list(&["a", "b"]));
    assert!(plan.need_delete.is_empty());
    let plan = diff(&list(&[]), &list(&["a", "b"]));
    assert!(plan.need_upload.is_empty());
    assert_eq!(plan.need_delete, list(&["a", "b"]));
}

#[test]
fn holds_and_difference() {
    assert!(holds(&list(&["a", "b"]), &"b".to_string()));
    assert!(!holds(&list(&["a", "b"]), &"c".to_string()));
    assert!(!holds(&list(&[]), &"c".to_string()));
    assert_eq!(difference(&list(&["a", "b", "a"]), &list(&["b"])), list(&["a", "a"]));
}

#[test]
fn reconciliation_uploads_then_deletes() {
    let start = Reconciliation::start(&list(&["a", "b", "c", "e"]), Ok(list(&["b", "d", "f"])));
    let (made, end) = run(start, &|_| Ok(()));
    assert_eq!(made, vec!["upload a", "upload c", "upload e", "delete d", "delete f"]);
    assert_eq!(end, Ok(()));
}

#[test]
fn reconciliation_of_equal_sets_does_nothing() {
    let start = Reconciliation::start(&list(&["a", "b"]), Ok(list(&["b", "a"])));
    assert!(start.next().is_none());
    assert_eq!(start.outcome(), Some(Ok(())));
    let (made, end) = run(start, &|_| Err("never asked".to_string()));
    assert!(made.is_empty());
    assert_eq!(end, Ok(()));
}

#[test]
fn the_first_error_aborts_the_rest() {
    let start = Reconciliation::start(&list(&["a", "b", "c"]), Ok(list(&["d", "e"])));
    let (made, end) = run(start, &|n| if n == 1 { Err("quota".to_string()) } else { Ok(()) });
    assert_eq!(made, vec!["upload a", "upload b"]);
    assert_eq!(end, Err("quota".to_string()));
}

#[test]
fn an_error_in_a_deletion_aborts_the_rest() {
    let start = Reconciliation::start(&list(&["a"]), Ok(list(&["d", "e", "f"])));
    let (made, end) = run(start, &|n| if n == 2 { Err("locked".to_string()) } else { Ok(()) });
    assert_eq!(made, vec!["upload a", "delete d", "delete e"]);
    assert_eq!(end, Err("locked".to_string()));
}

#[test]
fn a_failed_listing_fails_the_reconciliation() {
    let start = Reconciliation::start(&list(&["a"]), Err("401".to_string()));
    assert!(start.next().is_none());
    assert_eq!(start.outcome(), Some(Err("401".to_string())));
}

#[test]
fn a_result_with_nothing_due_changes_nothing() {
    let mut done = Reconciliation::start(&list(&["a"]), Ok(list(&["a"])));
    done.record(Err("stray".to_string()));
    assert_eq!(done.outcome(), Some(Ok(())));
    let mut failed = Reconciliation::start(&list(&["a", "b"]), Ok(list(&[])));
    failed.record(Err("first".to_string()));
    failed.record(Err("second".to_string()));
    failed.record(Ok(()));
    assert!(failed.next().is_none());
    assert_eq!(failed.outcome(), Some(Err("first".to_string())));
}

#[test]
fn the_cache_keeps_the_first_listing() {
    let mut cache = FileListCache::new();
    assert!(cache.list().is_none());
    cache.store(list(&["a", "b"]));
    assert_eq!(cache.list(), Some(&list(&["a", "b"])));
    cache.store(list(&["c"]));
    assert_eq!(cache.list(), Some(&list(&["a", "b"])));
}

#[test]
fn the_cache_keeps_an_empty_listing() {
    let mut cache = FileListCache::new();
    cache.store(list(&[]));
    cache.store(list(&["c"]));
    assert_eq!(cache.list(), Some(&list(&[])));
}

#[test]
fn backends_are_taken_in_order() {
    assert_eq!(enabled_backends(true, true), vec![Backend::Webdav, Backend::S3]);
    assert_eq!(enabled_backends(true, false), vec![Backend::Webdav]);
    assert_eq!(enabled_backends(false, true), vec![Backend::S3]);
    assert_eq!(enabled_backends(false, false), Vec::<Backend>::new());
}

#[test]
fn exit_code_is_one_where_any_store_failed() {
    assert_eq!(exit_code(&vec![]), 0);
    assert_eq!(exit_code(&vec![Ok(()), Ok(())]), 0);
    assert_eq!(exit_code(&vec![Err("x".to_string()), Ok(())]), 1);
    assert_eq!(exit_code(&vec![Ok(()), Err("x".to_string())]), 1);
}
