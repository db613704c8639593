use starship_jj::data::CommitDiff;
use starship_jj::data::FileChange;
use starship_jj::state::Fact;
use starship_jj::state::State;

type Cache = State<&'static str, &'static str, u32, String, Vec<u8>>;

fn ok<T>(value: T) -> Result<T, String> {
    Ok(value)
}

fn loaded_to_commit() -> Cache {
    let mut cache = Cache::new(true);
    cache.load_workspace(ok("workspace")).unwrap();
    cache.load_repo("repo");
    cache.load_commit_id(Some(7));
    cache.load_commit(ok("commit".to_string())).unwrap();
    cache
}

#[test]
fn new_cache_holds_nothing() {
    let cache = Cache::new(false);
    assert!(!cache.snapshot());
    assert!(Cache::new(true).snapshot());
    let facts = [
        Fact::Workspace,
        Fact::Repo,
        Fact::CommitId,
        Fact::Commit,
        Fact::ParentCommits,
        Fact::Tree,
        Fact::ParentTree,
    ];
    for fact in facts {
        assert!(!cache.has(fact));
    }
    assert_eq!(cache.workspace_helper(), None);
    assert_eq!(cache.repo(), None);
    assert_eq!(cache.commit_id(), None);
    assert_eq!(cache.commit(), None);
    assert_eq!(cache.parent_commits(), None);
    assert_eq!(cache.tree(), None);
    assert_eq!(cache.parent_tree(), None);
    assert_eq!(cache.diff_stats(), None);
    assert_eq!(cache.commit_is_empty(), None);
}

#[test]
fn facts_are_loaded_leaves_first() {
    let mut cache = Cache::new(true);
    assert_eq!(cache.next_load(Fact::Tree), Some(Fact::Workspace));
    cache.load_workspace(ok("workspace")).unwrap();
    assert_eq!(cache.next_load(Fact::Tree), Some(Fact::Repo));
    cache.load_repo("repo");
    assert_eq!(cache.next_load(Fact::Tree), Some(Fact::CommitId));
    cache.load_commit_id(Some(7));
    assert_eq!(cache.next_load(Fact::Tree), Some(Fact::Commit));
    cache.load_commit(ok("commit".to_string())).unwrap();
    assert_eq!(cache.next_load(Fact::Tree), Some(Fact::Tree));
    cache.load_tree(ok(vec![1, 2])).unwrap();
    assert_eq!(cache.next_load(Fact::Tree), None);
    assert_eq!(cache.tree(), Some(&Some(vec![1, 2])));
    assert_eq!(cache.next_load(Fact::ParentTree), Some(Fact::ParentTree));
    assert_eq!(cache.next_load(Fact::ParentCommits), Some(Fact::ParentCommits));
    assert_eq!(cache.next_load(Fact::Commit), None);
    assert_eq!(cache.next_load(Fact::Workspace), None);
}

#[test]
fn each_goal_asks_for_itself_last() {
    let mut cache = Cache::new(true);
    assert_eq!(cache.next_load(Fact::Workspace), Some(Fact::Workspace));
    assert_eq!(cache.next_load(Fact::Repo), Some(Fact::Workspace));
    cache.load_workspace(ok("workspace")).unwrap();
    assert_eq!(cache.next_load(Fact::Repo), Some(Fact::Repo));
    assert_eq!(cache.next_load(Fact::CommitId), Some(Fact::Repo));
    cache.load_repo("repo");
    assert_eq!(cache.next_load(Fact::CommitId), Some(Fact::CommitId));
    assert_eq!(cache.next_load(Fact::Commit), Some(Fact::CommitId));
}

#[test]
fn a_fact_is_stored_only_once() {
    let mut cache = loaded_to_commit();
    cache.load_workspace(ok("other workspace")).unwrap();
    cache.load_repo("other repo");
    cache.load_commit_id(Some(8));
    cache.load_commit_id(None);
    cache.load_commit(ok("other commit".to_string())).unwrap();
    assert_eq!(cache.workspace_helper(), Some(&"workspace"));
    assert_eq!(cache.repo(), Some(&"repo"));
    assert_eq!(cache.commit_id(), Some(&Some(7)));
    assert_eq!(cache.commit(), Some(&Some("commit".to_string())));
    cache.load_tree(ok(vec![1])).unwrap();
    cache.load_tree(ok(vec![2])).unwrap();
    assert_eq!(cache.tree(), Some(&Some(vec![1])));
    cache.load_parent_tree(ok(vec![3])).unwrap();
    cache.load_parent_tree(ok(vec![4])).unwrap();
    assert_eq!(cache.parent_tree(), Some(&Some(vec![3])));
    cache.load_parent_commits(ok(vec!["p".to_string()])).unwrap();
    cache.load_parent_commits(ok(Vec::new())).unwrap();
    assert_eq!(cache.parent_commits(), Some(&vec!["p".to_string()]));
}

#[test]
fn a_fact_is_not_stored_before_what_it_rests_on() {
    let mut cache = Cache::new(true);
    cache.load_repo("repo");
    cache.load_commit_id(Some(7));
    cache.load_commit(ok("commit".to_string())).unwrap();
    cache.load_tree(ok(vec![1])).unwrap();
    cache.load_parent_tree(ok(vec![1])).unwrap();
    cache.load_parent_commits(ok(Vec::new())).unwrap();
    assert_eq!(cache.repo(), None);
    assert_eq!(cache.commit_id(), None);
    assert_eq!(cache.commit(), None);
    assert_eq!(cache.tree(), None);
    assert_eq!(cache.parent_tree(), None);
    assert_eq!(cache.parent_commits(), None);
    cache.load_workspace(ok("workspace")).unwrap();
    cache.load_commit_id(Some(7));
    assert_eq!(cache.commit_id(), None);
    cache.load_repo("repo");
    cache.load_tree(ok(vec![1])).unwrap();
    assert_eq!(cache.tree(), None);
}

#[test]
fn workspace_without_commit_needs_no_more_loads() {
    let mut cache = Cache::new(true);
    cache.load_workspace(ok("workspace")).unwrap();
    cache.load_repo("repo");
    cache.load_commit_id(None);
    assert_eq!(cache.commit_id(), Some(&None));
    assert_eq!(cache.next_load(Fact::Tree), None);
    assert_eq!(cache.commit(), Some(&None));
    assert_eq!(cache.tree(), Some(&None));
    assert_eq!(cache.parent_tree(), None);
    assert_eq!(cache.next_load(Fact::ParentTree), None);
    assert_eq!(cache.parent_tree(), Some(&None));
    assert_eq!(cache.next_load(Fact::ParentCommits), None);
    assert_eq!(cache.parent_commits(), Some(&Vec::new()));
    assert_eq!(cache.next_load(Fact::Commit), None);
    cache.load_commit(ok("commit".to_string())).unwrap();
    cache.load_tree(ok(vec![1])).unwrap();
    assert_eq!(cache.commit(), Some(&None));
    assert_eq!(cache.tree(), Some(&None));
    assert_eq!(cache.diff_stats(), None);
    assert_eq!(cache.commit_is_empty(), None);
}

#[test]
fn commit_with_equal_trees_is_empty() {
    let mut cache = loaded_to_commit();
    cache.load_tree(ok(vec![1, 2, 3])).unwrap();
    assert_eq!(cache.commit_is_empty(), None);
    cache.load_parent_tree(ok(vec![1, 2, 3])).unwrap();
    assert_eq!(cache.commit_is_empty(), Some(true));
}

#[test]
fn commit_with_other_tree_is_not_empty() {
    let mut cache = loaded_to_commit();
    cache.load_parent_tree(ok(vec![1, 2, 3])).unwrap();
    cache.load_tree(ok(vec![1, 2, 4])).unwrap();
    assert_eq!(cache.commit_is_empty(), Some(false));
}

#[test]
fn diff_takes_commit_and_both_trees() {
    let mut cache = loaded_to_commit();
    assert_eq!(cache.diff_stats(), None);
    cache.load_tree(ok(vec![2])).unwrap();
    assert_eq!(cache.diff_stats(), None);
    cache.load_parent_tree(ok(vec![1])).unwrap();
    assert_eq!(cache.diff_stats(), Some((&"commit".to_string(), &vec![1], &vec![2])));
}

#[test]
fn diff_counts_files_and_lines() {
    let changes = vec![
        FileChange::Text { added: 3, removed: 1 },
        FileChange::Binary,
        FileChange::Text { added: 10, removed: 0 },
    ];
    let diff = CommitDiff::summarize(&changes).unwrap();
    assert_eq!(diff, CommitDiff { files_changed: 3, lines_added: 13, lines_removed: 1 });
    assert!(!diff.is_empty());
}

#[test]
fn diff_of_nothing_is_empty() {
    let diff = CommitDiff::summarize(&Vec::new()).unwrap();
    assert_eq!(diff, CommitDiff::default());
    assert!(diff.is_empty());
    assert!(!CommitDiff { files_changed: 1, lines_added: 0, lines_removed: 0 }.is_empty());
    assert!(!CommitDiff { files_changed: 0, lines_added: 1, lines_removed: 0 }.is_empty());
    assert!(!CommitDiff { files_changed: 0, lines_added: 0, lines_removed: 1 }.is_empty());
}

#[test]
fn diff_that_does_not_fit_has_no_counters() {
    let changes = vec![
        FileChange::Text { added: usize::MAX, removed: 0 },
        FileChange::Text { added: 1, removed: 0 },
    ];
    assert_eq!(CommitDiff::summarize(&changes), None);
    let changes = vec![
        FileChange::Text { added: 0, removed: usize::MAX },
        FileChange::Text { added: 0, removed: 1 },
    ];
    assert_eq!(CommitDiff::summarize(&changes), None);
    let changes = vec![FileChange::Text { added: usize::MAX, removed: usize::MAX }];
    assert!(CommitDiff::summarize(&changes).is_some());
}

#[test]
fn a_failure_is_handed_back_and_nothing_is_stored() {
    let mut cache = Cache::new(true);
    let failed: Result<&'static str, String> = Err("no workspace".to_string());
    assert_eq!(cache.load_workspace(failed), Err("no workspace".to_string()));
    assert_eq!(cache.workspace_helper(), None);
    assert_eq!(cache.next_load(Fact::Commit), Some(Fact::Workspace));
    cache.load_workspace(ok("workspace")).unwrap();
    cache.load_repo("repo");
    cache.load_commit_id(Some(7));
    let corrupt = "corrupt object".to_string();
    assert_eq!(cache.load_commit(Err(corrupt.clone())), Err(corrupt));
    assert_eq!(cache.commit(), None);
    assert_eq!(cache.next_load(Fact::Tree), Some(Fact::Commit));
    cache.load_commit(ok("commit".to_string())).unwrap();
    assert_eq!(cache.load_tree(Err("unreadable".to_string())), Err("unreadable".to_string()));
    let unreadable = "unreadable".to_string();
    assert_eq!(cache.load_parent_tree(Err(unreadable.clone())), Err(unreadable));
    assert_eq!(cache.load_parent_commits(Err(3u8)), Err(3u8));
    assert_eq!(cache.tree(), None);
    assert_eq!(cache.parent_tree(), None);
    assert_eq!(cache.parent_commits(), None);
    assert_eq!(cache.next_load(Fact::Tree), Some(Fact::Tree));
}

#[test]
fn a_failure_does_not_touch_a_stored_fact() {
    let mut cache = loaded_to_commit();
    cache.load_tree(ok(vec![1])).unwrap();
    assert_eq!(cache.load_tree(Err("late".to_string())), Err("late".to_string()));
    assert_eq!(cache.tree(), Some(&Some(vec![1])));
    assert_eq!(cache.load_commit(Err("late".to_string())), Err("late".to_string()));
    assert_eq!(cache.commit(), Some(&Some("commit".to_string())));
}

#[test]
fn has_tells_what_was_looked_up() {
    let mut cache = loaded_to_commit();
    assert!(cache.has(Fact::Workspace));
    assert!(cache.has(Fact::Repo));
    assert!(cache.has(Fact::CommitId));
    assert!(cache.has(Fact::Commit));
    assert!(!cache.has(Fact::Tree));
    assert!(!cache.has(Fact::ParentTree));
    assert!(!cache.has(Fact::ParentCommits));
    cache.load_parent_commits(ok(vec!["p".to_string(), "q".to_string()])).unwrap();
    assert!(cache.has(Fact::ParentCommits));
    assert_eq!(cache.next_load(Fact::ParentCommits), None);
}
