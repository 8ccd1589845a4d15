use git_diff_stat::{pair_commits, CommitPair};

#[test]
fn full_history_gives_count_pairs() {
    let pairs = pair_commits(&vec![30u64, 20, 10], 2);
    assert_eq!(
        pairs,
        vec![
            CommitPair { current: 30, previous: Some(20) },
            CommitPair { current: 20, previous: Some(10) },
        ]
    );
}

#[test]
fn short_history_ends_with_empty_tree() {
    let pairs = pair_commits(&vec![30u64, 20, 10], 10);
    assert_eq!(
        pairs,
        vec![
            CommitPair { current: 30, previous: Some(20) },
            CommitPair { current: 20, previous: Some(10) },
            CommitPair { current: 10, previous: None },
        ]
    );
}

#[test]
fn history_one_short_still_reaches_root() {
    let pairs = pair_commits(&vec![2u64, 1], 2);
    assert_eq!(
        pairs,
        vec![
            CommitPair { current: 2, previous: Some(1) },
            CommitPair { current: 1, previous: None },
        ]
    );
}

#[test]
fn empty_history_gives_no_pairs() {
    let pairs = pair_commits(&Vec::<u64>::new(), 10);
    assert!(pairs.is_empty());
    let pairs = pair_commits(&Vec::<u64>::new(), 0);
    assert!(pairs.is_empty());
}

#[test]
fn zero_count_gives_no_pairs() {
    let pairs = pair_commits(&vec![7u64], 0);
    assert!(pairs.is_empty());
}

#[test]
fn single_root_commit_is_against_empty_tree() {
    let pairs = pair_commits(&vec![7u64], 1);
    assert_eq!(pairs, vec![CommitPair { current: 7, previous: None }]);
}
