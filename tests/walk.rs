use git2::Oid;
use git_diff_stat::history::walk_step;
use git_diff_stat::StatError;

fn id(n: u8) -> Oid {
    Oid::from_bytes(&[n; 20]).unwrap()
}

#[test]
fn end_of_history_stops_without_change() {
    let mut commits = vec![id(1)];
    assert_eq!(walk_step(&mut commits, 3, None), Ok(false));
    assert_eq!(commits, vec![id(1)]);
}

#[test]
fn commit_is_appended_and_more_wanted() {
    let mut commits = vec![id(1)];
    assert_eq!(walk_step(&mut commits, 3, Some(Ok(id(2)))), Ok(true));
    assert_eq!(commits, vec![id(1), id(2)]);
}

#[test]
fn last_wanted_commit_ends_walk() {
    let mut commits = vec![id(1), id(2)];
    assert_eq!(walk_step(&mut commits, 2, Some(Ok(id(3)))), Ok(false));
    assert_eq!(commits, vec![id(1), id(2), id(3)]);
}

#[test]
fn zero_count_takes_only_head() {
    let mut commits = Vec::new();
    assert_eq!(walk_step(&mut commits, 0, Some(Ok(id(9)))), Ok(false));
    assert_eq!(commits, vec![id(9)]);
}

#[test]
fn walker_error_is_history_read_error() {
    let mut commits = vec![id(1)];
    let r = walk_step(&mut commits, 3, Some(Err("corrupt object".to_string())));
    assert_eq!(r, Err(StatError::HistoryReadError("corrupt object".to_string())));
    assert_eq!(commits, vec![id(1)]);
}
