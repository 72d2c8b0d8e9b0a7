use gaspy::exclude::ExclusionSet;
use gaspy::lines::CountRule;
use gaspy::summary::RunTotals;
use gaspy::walker::{Entry, EntryKind, Notice, Request, RootError, WalkConfig, Walker};

#[derive(Clone, Debug)]
enum Fake {
    File(Result<String, String>),
    Dir(Result<Vec<(String, Fake)>, String>),
    Other,
}

fn kind(n: &Fake) -> EntryKind {
    match n {
        Fake::File(_) => EntryKind::File,
        Fake::Dir(_) => EntryKind::Dir,
        Fake::Other => EntryKind::Other,
    }
}

fn file(text: &str) -> Fake {
    Fake::File(Ok(text.to_string()))
}

fn lines(n: usize) -> Fake {
    file(&"line\n".repeat(n))
}

fn dir(entries: Vec<(&str, Fake)>) -> Fake {
    Fake::Dir(Ok(entries.into_iter().map(|(n, f)| (n.to_string(), f)).collect()))
}

fn config(recursive: bool, excluded: &[&str], rule: CountRule) -> WalkConfig {
    WalkConfig {
        recursive,
        excluded: ExclusionSet::from_names(excluded.iter().map(|s| s.to_string()).collect()),
        rule,
    }
}

type Handle = (String, Fake);

struct Outcome {
    result: Result<usize, RootError<String>>,
    notices: Vec<Notice<Handle, String>>,
    listed: Vec<String>,
}

fn walk(root_path: &str, root: Fake, cfg: WalkConfig) -> Outcome {
    let k = kind(&root);
    let (mut w, mut notices) = Walker::<Handle, String>::start(root_path, (root_path.to_string(), root), k, cfg);
    let mut listed = Vec::new();
    loop {
        match w.next() {
            Request::Finished => break,
            Request::ReadFile((p, node)) => {
                let result = match &node {
                    Fake::File(r) => r.clone(),
                    _ => Err("not a file".to_string()),
                };
                notices.extend(w.file_read((p, node), result));
            }
            Request::ListDir((p, node)) => {
                listed.push(p.clone());
                let result = match &node {
                    Fake::Dir(Ok(es)) => Ok(es
                        .iter()
                        .map(|(name, child)| Entry {
                            path: (format!("{}/{}", p, name), child.clone()),
                            name: Some(name.clone()),
                            kind: kind(child),
                        })
                        .collect()),
                    Fake::Dir(Err(e)) => Err(e.clone()),
                    _ => Err("not a directory".to_string()),
                };
                notices.extend(w.dir_listed((p, node), result));
            }
        }
    }
    Outcome { result: w.finish(), notices, listed }
}

fn count(o: &Outcome) -> usize {
    match &o.result {
        Ok(k) => *k,
        Err(_) => panic!("the root failed"),
    }
}

#[test]
fn single_file_root_counts_its_lines() {
    let o = walk("notes.txt", file("x\ny\n"), config(false, &[], CountRule::AllLines));
    assert_eq!(count(&o), 2);
    assert!(o.notices.is_empty());
}

#[test]
fn flat_directory_sums_its_files_without_inspecting_subdirectories() {
    let root = dir(vec![("f1", lines(3)), ("f2", lines(5)), ("sub", dir(vec![("g", lines(7))]))]);
    let o = walk("root", root, config(false, &[], CountRule::AllLines));
    assert_eq!(count(&o), 8);
    assert_eq!(o.listed, vec!["root".to_string()]);
    assert!(o.notices.is_empty());
}

#[test]
fn excluded_subdirectory_is_skipped_with_one_notice() {
    let git = dir(vec![("objects", lines(60)), ("config", lines(40))]);
    let root = dir(vec![(".git", git), ("README", lines(4))]);
    let o = walk("repo", root, config(true, &[".git"], CountRule::AllLines));
    assert_eq!(count(&o), 4);
    assert_eq!(o.notices.len(), 1);
    assert!(matches!(&o.notices[0], Notice::Skipped((p, _)) if p == "repo/.git"));
}

#[test]
fn failed_root_adds_nothing_to_the_grand_total() {
    let first = walk("root1", dir(vec![("a", lines(6)), ("b", lines(4))]), config(true, &[], CountRule::AllLines));
    let second = walk("root2", Fake::Other, config(true, &[], CountRule::AllLines));
    assert_eq!(count(&first), 10);
    assert!(matches!(second.result, Err(RootError::NotFound)));
    let mut totals = RunTotals::new();
    totals.record(first.result.ok());
    totals.record(second.result.ok());
    assert_eq!(totals.grand_total(), Some(10));
}

#[test]
fn one_root_gives_no_grand_total() {
    let mut totals = RunTotals::new();
    totals.record(Some(3));
    assert_eq!(totals.grand_total(), None);
    totals.record(Some(usize::MAX));
    assert_eq!(totals.grand_total(), Some(usize::MAX));
}

#[test]
fn recursive_count_is_the_sum_of_the_children() {
    let sub = dir(vec![("c", lines(2)), ("deeper", dir(vec![("d", lines(9))]))]);
    let root = dir(vec![("a", lines(1)), ("sub", sub.clone()), ("b", lines(5))]);
    let whole = walk("r", root, config(true, &[], CountRule::AllLines));
    let part = walk("r/sub", sub, config(true, &[], CountRule::AllLines));
    assert_eq!(count(&part), 11);
    assert_eq!(count(&whole), 1 + 11 + 5);
}

#[test]
fn excluding_a_subdirectory_removes_its_whole_count() {
    let x = dir(vec![("c", lines(2)), ("deeper", dir(vec![("d", lines(9))]))]);
    let root = dir(vec![("a", lines(1)), ("x", x.clone()), ("b", lines(5))]);
    let all = walk("r", root.clone(), config(true, &[], CountRule::AllLines));
    let inner = walk("r/x", x, config(true, &[], CountRule::AllLines));
    let without = walk("r", root, config(true, &["x"], CountRule::AllLines));
    assert_eq!(count(&without), count(&all) - count(&inner));
    assert_eq!(count(&without), 6);
}

#[test]
fn non_recursive_walk_ignores_subdirectories() {
    let root = dir(vec![("a", lines(2)), ("sub", dir(vec![("big", lines(100))]))]);
    let o = walk("r", root, config(false, &[], CountRule::AllLines));
    assert_eq!(count(&o), 2);
}

#[test]
fn unreadable_file_counts_zero_with_one_notice() {
    let root = dir(vec![
        ("a", lines(3)),
        ("locked", Fake::File(Err("permission denied".to_string()))),
        ("b", lines(4)),
        ("c", lines(5)),
    ]);
    let o = walk("r", root, config(true, &[], CountRule::AllLines));
    assert_eq!(count(&o), 12);
    assert_eq!(o.notices.len(), 1);
    assert!(matches!(&o.notices[0], Notice::FileFailed((p, _), e) if p == "r/locked" && e == "permission denied"));
}

#[test]
fn unlistable_subdirectory_counts_zero_with_one_notice() {
    let root = dir(vec![("a", lines(3)), ("sub", Fake::Dir(Err("denied".to_string())))]);
    let o = walk("r", root, config(true, &[], CountRule::AllLines));
    assert_eq!(count(&o), 3);
    assert_eq!(o.notices.len(), 1);
    assert!(matches!(&o.notices[0], Notice::DirFailed((p, _), _) if p == "r/sub"));
}

#[test]
fn entry_of_neither_kind_is_reported() {
    let root = dir(vec![("a", lines(3)), ("dangling", Fake::Other)]);
    let o = walk("r", root, config(true, &[], CountRule::AllLines));
    assert_eq!(count(&o), 3);
    assert_eq!(o.notices.len(), 1);
    assert!(matches!(&o.notices[0], Notice::NotFound((p, _)) if p == "r/dangling"));
}

#[test]
fn excluded_root_counts_zero() {
    let o = walk("node_modules", dir(vec![("a", lines(3))]), config(true, &["node_modules"], CountRule::AllLines));
    assert_eq!(count(&o), 0);
    assert_eq!(o.notices.len(), 1);
    assert!(matches!(&o.notices[0], Notice::Skipped(_)));
    assert!(o.listed.is_empty());
}

#[test]
fn unreadable_root_fails() {
    let o = walk("r", Fake::File(Err("denied".to_string())), config(true, &[], CountRule::AllLines));
    assert!(matches!(o.result, Err(RootError::Io(ref e)) if e == "denied"));
    let o = walk("r", Fake::Dir(Err("denied".to_string())), config(true, &[], CountRule::AllLines));
    assert!(matches!(o.result, Err(RootError::Io(_))));
    assert!(o.notices.is_empty());
}

#[test]
fn trimmed_rule_applies_to_every_file() {
    let root = dir(vec![("a", file("a\n\n   \nb")), ("sub", dir(vec![("c", file("\n x \n\t\n"))]))]);
    let o = walk("r", root, config(true, &[], CountRule::NonEmptyTrimmedLines));
    assert_eq!(count(&o), 3);
}

#[test]
fn exclusion_applies_at_every_depth() {
    let root = dir(vec![("a", lines(1)), ("sub", dir(vec![("skip", lines(50)), ("c", lines(2))])), ("skip", lines(7))]);
    let o = walk("r", root, config(true, &["skip"], CountRule::AllLines));
    assert_eq!(count(&o), 3);
    assert_eq!(o.notices.len(), 2);
}
