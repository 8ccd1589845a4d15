use git2::{Oid, Repository, Signature};
use git_diff_stat::{diff_stats_at, render_stats, StatError};
use std::time::{SystemTime, UNIX_EPOCH};

fn fresh_dir(tag: &str) -> String {
    let nanos = SystemTime::now().duration_since(UNIX_EPOCH).unwrap().as_nanos();
    format!("/tmp/git_diff_stat_repos/{}_{}", tag, nanos)
}

fn commit_file(repo: &Repository, text: &str, parent: Option<Oid>) -> Oid {
    commit_on(repo, Some("HEAD"), text, &parent.into_iter().collect::<Vec<_>>())
}

fn commit_on(repo: &Repository, head: Option<&str>, text: &str, parent_ids: &[Oid]) -> Oid {
    let blob = repo.blob(text.as_bytes()).unwrap();
    let mut builder = repo.treebuilder(None).unwrap();
    builder.insert("notes.txt", blob, 0o100644).unwrap();
    let tree = repo.find_tree(builder.write().unwrap()).unwrap();
    let sig = Signature::now("Tester", "tester@example.com").unwrap();
    let parents: Vec<git2::Commit> =
        parent_ids.iter().map(|id| repo.find_commit(*id).unwrap()).collect();
    let parent_refs: Vec<&git2::Commit> = parents.iter().collect();
    repo.commit(head, &sig, &sig, "change", &tree, &parent_refs).unwrap()
}

/// Root with 3 lines, then 5 lines added, then 1 line changed and 1 added.
fn three_commit_repo(tag: &str) -> (String, Oid, Oid, Oid) {
    let dir = fresh_dir(tag);
    let repo = Repository::init(&dir).unwrap();
    let c1 = commit_file(&repo, "a\nb\nc\n", None);
    let c2 = commit_file(&repo, "a\nb\nc\nd\ne\nf\ng\nh\n", Some(c1));
    let c3 = commit_file(&repo, "x\nb\nc\nd\ne\nf\ng\nh\ni\n", Some(c2));
    (dir, c1, c2, c3)
}

#[test]
fn three_commits_with_room_to_spare() {
    let (dir, c1, c2, c3) = three_commit_repo("spare");
    let stats = diff_stats_at(&dir, 10).unwrap();
    let rows: Vec<(String, usize, usize)> =
        stats.iter().map(|s| (s.commit_id.clone(), s.insertions, s.deletions)).collect();
    assert_eq!(
        rows,
        vec![
            (c3.to_string(), 2, 1),
            (c2.to_string(), 5, 0),
            (c1.to_string(), 3, 0),
        ]
    );
    let text = String::from_utf8(render_stats(&stats)).unwrap();
    assert_eq!(
        text,
        format!("commit_id,insertions,deletions\n{},2,1\n{},5,0\n{},3,0\n", c3, c2, c1)
    );
}

#[test]
fn exact_history_length_gives_count_rows() {
    let (dir, _c1, c2, c3) = three_commit_repo("exact");
    let stats = diff_stats_at(&dir, 2).unwrap();
    assert_eq!(stats.len(), 2);
    assert_eq!(stats[0].commit_id, c3.to_string());
    assert_eq!((stats[0].insertions, stats[0].deletions), (2, 1));
    assert_eq!(stats[1].commit_id, c2.to_string());
    assert_eq!((stats[1].insertions, stats[1].deletions), (5, 0));
}

#[test]
fn one_commit_asked_of_longer_history() {
    let (dir, _c1, _c2, c3) = three_commit_repo("one");
    let stats = diff_stats_at(&dir, 1).unwrap();
    assert_eq!(stats.len(), 1);
    assert_eq!(stats[0].commit_id, c3.to_string());
    assert_eq!((stats[0].insertions, stats[0].deletions), (2, 1));
}

#[test]
fn zero_count_gives_header_only() {
    let (dir, _c1, _c2, _c3) = three_commit_repo("zero");
    let stats = diff_stats_at(&dir, 0).unwrap();
    assert!(stats.is_empty());
    assert_eq!(render_stats(&stats), b"commit_id,insertions,deletions\n".to_vec());
}

#[test]
fn running_twice_gives_identical_output() {
    let (dir, _c1, _c2, _c3) = three_commit_repo("twice");
    let first = render_stats(&diff_stats_at(&dir, 10).unwrap());
    let second = render_stats(&diff_stats_at(&dir, 10).unwrap());
    assert_eq!(first, second);
}

#[test]
fn no_repository_is_reported() {
    match diff_stats_at("/", 10) {
        Err(StatError::RepositoryUnavailable(_)) => {}
        other => panic!("expected RepositoryUnavailable, got {:?}", other),
    }
}

#[test]
fn repository_without_commits_gives_no_rows() {
    let dir = fresh_dir("unborn");
    Repository::init(&dir).unwrap();
    assert_eq!(diff_stats_at(&dir, 10), Ok(Vec::new()));
}

#[test]
fn merge_follows_first_parent() {
    let dir = fresh_dir("merge");
    let repo = Repository::init(&dir).unwrap();
    let root = commit_file(&repo, "a\n", None);
    let side = commit_on(&repo, None, "a\nside\n", &[root]);
    let main = commit_file(&repo, "a\nmain1\nmain2\n", Some(root));
    let merge = commit_on(&repo, Some("HEAD"), "a\nmain1\nmain2\nside\n", &[main, side]);
    let stats = diff_stats_at(&dir, 10).unwrap();
    let rows: Vec<(String, usize, usize)> =
        stats.iter().map(|s| (s.commit_id.clone(), s.insertions, s.deletions)).collect();
    assert_eq!(
        rows,
        vec![
            (merge.to_string(), 1, 0),
            (main.to_string(), 2, 0),
            (root.to_string(), 1, 0),
        ]
    );
}

#[test]
fn commit_ids_are_forty_lowercase_hex_digits() {
    let (dir, _c1, _c2, _c3) = three_commit_repo("hex");
    let stats = diff_stats_at(&dir, 10).unwrap();
    assert_eq!(stats.len(), 3);
    for s in &stats {
        assert_eq!(s.commit_id.len(), 40);
        assert!(s.commit_id.chars().all(|c| c.is_ascii_digit() || ('a'..='f').contains(&c)));
    }
}
