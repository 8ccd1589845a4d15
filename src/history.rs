//! Walking a repository's history and reducing each commit's diff to counters.

use vstd::prelude::*;
use crate::pairing::{lemma_full_history, lemma_short_history, pair_commits, pairs_of, CommitPair};
use crate::stats::{
    ascii_bytes, decimal, lemma_ascii_encoding, lemma_row_line, plain_field, record_of, row_fields,
    DiffStat,
};
use vstd::utf8::encode_utf8;

verus! {

#[verifier::external_type_specification]
#[verifier::external_body]
pub struct ExRepository(git2::Repository);

#[verifier::external_type_specification]
#[verifier::external_body]
pub struct ExRevwalk<'repo>(git2::Revwalk<'repo>);

#[verifier::external_type_specification]
#[verifier::external_body]
pub struct ExCommit<'repo>(git2::Commit<'repo>);

#[verifier::external_type_specification]
#[verifier::external_body]
pub struct ExTree<'repo>(git2::Tree<'repo>);

#[verifier::external_type_specification]
#[verifier::external_body]
pub struct ExDiff<'repo>(git2::Diff<'repo>);

#[verifier::external_type_specification]
#[verifier::external_body]
pub struct ExDiffStats(git2::DiffStats);

#[verifier::external_type_specification]
#[verifier::external_body]
pub struct ExOid(git2::Oid);

#[verifier::external_type_specification]
#[verifier::external_body]
pub struct ExError(git2::Error);

/// Why a run stopped. Each variant carries the underlying engine's message.
#[derive(Clone, Debug, PartialEq, Eq)]
pub enum StatError {
    /// No repository encloses the starting directory.
    RepositoryUnavailable(String),
    /// The history walk could not start or could not produce the next commit.
    HistoryReadError(String),
    /// A walked commit or its tree could not be loaded.
    CommitResolutionError(String),
    /// The diff of two trees, or its statistics, could not be computed.
    DiffComputationError(String),
    /// The table could not be written.
    OutputError(String),
}

/// The text form of a commit identifier, as `git2::Oid`'s `Display` writes it.
pub uninterp spec fn oid_text(id: git2::Oid) -> Seq<char>;

/// Forty lowercase hexadecimal digits.
pub open spec fn hex_id(s: Seq<char>) -> bool {
    &&& s.len() == 40
    &&& forall|i: int| 0 <= i < s.len() ==> ('0' <= #[trigger] s[i] <= '9' || 'a' <= s[i] <= 'f')
}

/// Relies on `git2::Oid`'s `Display`, which writes `git_oid_tostr`'s output:
/// the identifier's lowercase hexadecimal form, which depends on the identifier
/// alone and has forty digits for the SHA-1 identifiers of this build.
#[verifier::external_body]
fn commit_id_text(id: git2::Oid) -> (r: String)
    ensures
        r@ == oid_text(id),
        hex_id(r@),
{
    format!("{}", id)
}

/// Relies on `git2::Error::message`: the error's description.
#[verifier::external_body]
fn error_message(e: &git2::Error) -> String {
    e.message().to_string()
}

/// Relies on `git2::Repository::discover`: the repository enclosing `path`,
/// searching upward as git does.
#[verifier::external_body]
fn discover(path: &str) -> Result<git2::Repository, git2::Error> {
    git2::Repository::discover(path)
}

/// Relies on `git2::Repository::is_empty`: whether the repository was just
/// initialised, with HEAD on an unborn branch and no other reference.
#[verifier::external_body]
fn repository_is_empty(repo: &git2::Repository) -> Result<bool, git2::Error> {
    repo.is_empty()
}

/// Relies on `git2::Repository::revwalk`: a new walker over the repository.
#[verifier::external_body]
fn new_revwalk(repo: &git2::Repository) -> Result<git2::Revwalk<'_>, git2::Error> {
    repo.revwalk()
}

/// Relies on `git2::Revwalk::push_head`: starts the walk at HEAD.
#[verifier::external_body]
fn push_head(walk: &mut git2::Revwalk<'_>) -> Result<(), git2::Error> {
    walk.push_head()
}

/// Relies on `git2::Revwalk::simplify_first_parent`: the walk follows first
/// parents only.
#[verifier::external_body]
fn follow_first_parents(walk: &mut git2::Revwalk<'_>) -> Result<(), git2::Error> {
    walk.simplify_first_parent()
}

/// Relies on `git2::Revwalk`'s `Iterator::next`: the next commit of the walk,
/// `None` once the history is exhausted.
#[verifier::external_body]
fn next_commit(walk: &mut git2::Revwalk<'_>) -> Option<Result<git2::Oid, git2::Error>> {
    walk.next()
}

/// Relies on `git2::Repository::find_commit`: the commit with this identifier.
#[verifier::external_body]
fn find_commit<'r>(repo: &'r git2::Repository, id: git2::Oid) -> Result<git2::Commit<'r>, git2::Error> {
    repo.find_commit(id)
}

/// Relies on `git2::Commit::tree`: the commit's tree.
#[verifier::external_body]
fn commit_tree<'r>(commit: &git2::Commit<'r>) -> Result<git2::Tree<'r>, git2::Error> {
    commit.tree()
}

/// Relies on `git2::Repository::diff_tree_to_tree` with default options: the
/// diff from `old` (the empty tree when `None`) to `new`.
#[verifier::external_body]
fn diff_trees<'r>(
    repo: &'r git2::Repository,
    old: Option<&git2::Tree<'_>>,
    new: &git2::Tree<'_>,
) -> Result<git2::Diff<'r>, git2::Error> {
    repo.diff_tree_to_tree(old, Some(new), None)
}

/// Relies on `git2::Diff::stats`: the diff's accumulated statistics.
#[verifier::external_body]
fn diff_totals(diff: &git2::Diff<'_>) -> Result<git2::DiffStats, git2::Error> {
    diff.stats()
}

/// Relies on `git2::DiffStats::insertions`: the number of inserted lines.
#[verifier::external_body]
fn inserted_lines(stats: &git2::DiffStats) -> usize {
    stats.insertions()
}

/// Relies on `git2::DiffStats::deletions`: the number of deleted lines.
#[verifier::external_body]
fn deleted_lines(stats: &git2::DiffStats) -> usize {
    stats.deletions()
}

/// One step of the walk, given what the walker returned: `None` ends the walk,
/// an id is appended, and an error stops the walk with `HistoryReadError`.
/// `Ok(true)` means that more commits are wanted.
pub fn walk_step(
    commits: &mut Vec<git2::Oid>,
    count: usize,
    next: Option<Result<git2::Oid, String>>,
) -> (r: Result<bool, StatError>)
    requires
        old(commits)@.len() <= count,
    ensures
        next is None ==> r == Ok::<bool, StatError>(false) && final(commits)@ == old(commits)@,
        next matches Some(Ok(id)) ==> final(commits)@ == old(commits)@.push(id) && r == Ok::<bool, StatError>(final(commits)@.len() <= count),
        next matches Some(Err(m)) ==> r == Err::<bool, StatError>(StatError::HistoryReadError(m)) && final(commits)@ == old(commits)@,
{
    match next {
        None => Ok(false),
        Some(Ok(id)) => {
            commits.push(id);
            Ok(commits.len() <= count)
        },
        Some(Err(m)) => Err(StatError::HistoryReadError(m)),
    }
}

/// Collects up to `count + 1` commits from `walk`, fewer only when the history
/// runs out first. A failing step stops the walk with `HistoryReadError`.
pub fn walk_history(walk: &mut git2::Revwalk<'_>, count: usize) -> (r: Result<Vec<git2::Oid>, StatError>)
    ensures
        r matches Ok(v) ==> v@.len() <= count + 1,
        r matches Err(e) ==> e is HistoryReadError,
{
    let mut commits: Vec<git2::Oid> = Vec::new();
    loop
        invariant_except_break
            commits@.len() <= count,
        ensures
            commits@.len() <= count + 1,
        decreases count - commits@.len(),
    {
        let next = match next_commit(walk) {
            None => None,
            Some(Ok(id)) => Some(Ok(id)),
            Some(Err(e)) => Some(Err(error_message(&e))),
        };
        match walk_step(&mut commits, count, next) {
            Ok(true) => {},
            Ok(false) => break,
            Err(e) => return Err(e),
        }
    }
    Ok(commits)
}

/// Whether `stats` reports on `pairs`, one stat per pair in the same order,
/// each named by its pair's current commit.
pub open spec fn reports_on(stats: Seq<DiffStat>, pairs: Seq<CommitPair<git2::Oid>>) -> bool {
    &&& stats.len() == pairs.len()
    &&& forall|i: int| 0 <= i < stats.len() ==> (#[trigger] stats[i]).commit_id@ == oid_text(pairs[i].current)
    &&& forall|i: int| 0 <= i < stats.len() ==> hex_id((#[trigger] stats[i]).commit_id@)
}

/// A run whose walk found all `count + 1` commits reports exactly `count`
/// rows, the i-th naming the i-th most recent commit.
pub proof fn lemma_rows_of_full_walk(stats: Seq<DiffStat>, walked: Seq<git2::Oid>, count: nat)
    requires
        walked.len() == count + 1,
        reports_on(stats, pairs_of(walked, count)),
    ensures
        stats.len() == count,
        forall|i: int| 0 <= i < count ==> (#[trigger] stats[i]).commit_id@ == oid_text(walked[i]),
{
    lemma_full_history(walked, count);
}

/// A run whose walk ran out after `m <= count` commits reports exactly `m`
/// rows, the i-th naming the i-th most recent commit, and the last row's diff
/// is taken against the empty tree.
pub proof fn lemma_rows_of_short_walk(stats: Seq<DiffStat>, walked: Seq<git2::Oid>, count: nat)
    requires
        walked.len() <= count,
        reports_on(stats, pairs_of(walked, count)),
    ensures
        stats.len() == walked.len(),
        forall|i: int| 0 <= i < walked.len() ==> (#[trigger] stats[i]).commit_id@ == oid_text(walked[i]),
        walked.len() > 0 ==> pairs_of(walked, count)[walked.len() - 1].previous is None,
{
    lemma_short_history(walked, count);
}

/// The tree that a pair's diff starts from: `None` (the empty tree) exactly
/// when the pair has no previous commit, else the previous commit's tree.
pub fn old_side_tree<'r>(repo: &'r git2::Repository, previous: Option<git2::Oid>) -> (r: Result<Option<git2::Tree<'r>>, StatError>)
    ensures
        previous is None ==> (r matches Ok(t) && t is None),
        previous is Some ==> (r matches Ok(t) ==> t is Some),
        r matches Err(e) ==> e is CommitResolutionError,
{
    match previous {
        None => Ok(None),
        Some(id) => {
            let commit = match find_commit(repo, id) {
                Ok(c) => c,
                Err(e) => return Err(StatError::CommitResolutionError(error_message(&e))),
            };
            match commit_tree(&commit) {
                Ok(t) => Ok(Some(t)),
                Err(e) => Err(StatError::CommitResolutionError(error_message(&e))),
            }
        },
    }
}

/// Every row of a report is written as one plain line: the commit's forty
/// hexadecimal digits, the insertions and the deletions in decimal, separated
/// by commas and ended by a line feed.
pub proof fn lemma_report_lines(stats: Seq<DiffStat>, pairs: Seq<CommitPair<git2::Oid>>)
    requires
        reports_on(stats, pairs),
    ensures
        forall|i: int|
            0 <= i < stats.len() ==> #[trigger] record_of(row_fields(stats[i])) == ascii_bytes(
                stats[i].commit_id@,
            ).push(44u8) + decimal(stats[i].insertions as nat).push(44u8) + decimal(
                stats[i].deletions as nat,
            ) + seq![10u8],
{
    assert forall|i: int| 0 <= i < stats.len() implies #[trigger] record_of(row_fields(stats[i]))
        == ascii_bytes(stats[i].commit_id@).push(44u8) + decimal(stats[i].insertions as nat).push(
        44u8,
    ) + decimal(stats[i].deletions as nat) + seq![10u8] by {
        let c = stats[i].commit_id@;
        assert(hex_id(c));
        assert(vstd::utf8::is_ascii_chars(c));
        lemma_ascii_encoding(c);
        assert(plain_field(encode_utf8(c)));
        lemma_row_line(stats[i]);
    }
}

/// Reduces the diff from `pair.previous` (the empty tree when it is `None`, see
/// [`old_side_tree`]) to `pair.current` to its insertion and deletion counts.
pub fn diff_stat_of_pair(repo: &git2::Repository, pair: &CommitPair<git2::Oid>) -> (r: Result<DiffStat, StatError>)
    ensures
        r matches Ok(s) ==> s.commit_id@ == oid_text(pair.current),
        r matches Ok(s) ==> hex_id(s.commit_id@),
        r matches Err(e) ==> e is CommitResolutionError || e is DiffComputationError,
{
    let current = match find_commit(repo, pair.current) {
        Ok(c) => c,
        Err(e) => return Err(StatError::CommitResolutionError(error_message(&e))),
    };
    let current_tree = match commit_tree(&current) {
        Ok(t) => t,
        Err(e) => return Err(StatError::CommitResolutionError(error_message(&e))),
    };
    let old = old_side_tree(repo, pair.previous)?;
    let diff = match diff_trees(repo, old.as_ref(), &current_tree) {
        Ok(d) => d,
        Err(e) => return Err(StatError::DiffComputationError(error_message(&e))),
    };
    let totals = match diff_totals(&diff) {
        Ok(t) => t,
        Err(e) => return Err(StatError::DiffComputationError(error_message(&e))),
    };
    Ok(DiffStat {
        commit_id: commit_id_text(pair.current),
        insertions: inserted_lines(&totals),
        deletions: deleted_lines(&totals),
    })
}

/// Computes the stat of every pair in order, stopping at the first failure.
pub fn aggregate_pairs(repo: &git2::Repository, pairs: &Vec<CommitPair<git2::Oid>>) -> (r: Result<Vec<DiffStat>, StatError>)
    ensures
        r matches Ok(v) ==> reports_on(v@, pairs@),
        pairs@.len() == 0 ==> (r matches Ok(v) && v@.len() == 0),
        r matches Err(e) ==> e is CommitResolutionError || e is DiffComputationError,
{
    let mut out: Vec<DiffStat> = Vec::new();
    let mut i: usize = 0;
    while i < pairs.len()
        invariant
            i <= pairs@.len(),
            reports_on(out@, pairs@.take(i as int)),
        decreases pairs@.len() - i,
    {
        let s = diff_stat_of_pair(repo, &pairs[i])?;
        out.push(s);
        i = i + 1;
    }
    assert(pairs@.take(pairs@.len() as int) =~= pairs@);
    Ok(out)
}

/// Walks up to `count + 1` commits by first parent from HEAD, most recent first.
pub fn walk_from_head(repo: &git2::Repository, count: usize) -> (r: Result<Vec<git2::Oid>, StatError>)
    ensures
        r matches Ok(v) ==> v@.len() <= count + 1,
        r matches Err(e) ==> e is HistoryReadError,
{
    let mut walk = match new_revwalk(repo) {
        Ok(w) => w,
        Err(e) => return Err(StatError::HistoryReadError(error_message(&e))),
    };
    if let Err(e) = follow_first_parents(&mut walk) {
        return Err(StatError::HistoryReadError(error_message(&e)));
    }
    if let Err(e) = push_head(&mut walk) {
        return Err(StatError::HistoryReadError(error_message(&e)));
    }
    walk_history(&mut walk, count)
}

/// The stats of the repository enclosing `path`: an empty list for a repository
/// without commits, else one row per pair that [`pair_commits`] makes of up to
/// `count + 1` commits walked by first parent from HEAD, each row computed by
/// [`diff_stat_of_pair`], stopping at the first error.
pub fn diff_stats_at(path: &str, count: usize) -> (r: Result<Vec<DiffStat>, StatError>)
    ensures
        r matches Ok(v) ==> exists|walked: Seq<git2::Oid>|
            walked.len() <= count + 1 && #[trigger] reports_on(v@, pairs_of(walked, count as nat)),
        r matches Ok(v) ==> v@.len() <= count,
        r matches Err(e) ==> !(e is OutputError),
{
    let repo = match discover(path) {
        Ok(repo) => repo,
        Err(e) => return Err(StatError::RepositoryUnavailable(error_message(&e))),
    };
    let empty = match repository_is_empty(&repo) {
        Ok(empty) => empty,
        Err(e) => return Err(StatError::HistoryReadError(error_message(&e))),
    };
    let commits = if empty {
        Vec::new()
    } else {
        walk_from_head(&repo, count)?
    };
    let pairs = pair_commits(&commits, count);
    let stats = aggregate_pairs(&repo, &pairs)?;
    assert(reports_on(stats@, pairs_of(commits@, count as nat)));
    Ok(stats)
}

/// [`diff_stats_at`] from the current directory.
pub fn diff_stats(count: usize) -> (r: Result<Vec<DiffStat>, StatError>)
    ensures
        r matches Ok(v) ==> exists|walked: Seq<git2::Oid>|
            walked.len() <= count + 1 && #[trigger] reports_on(v@, pairs_of(walked, count as nat)),
        r matches Ok(v) ==> v@.len() <= count,
        r matches Err(e) ==> !(e is OutputError),
{
    diff_stats_at("./", count)
}

} // verus!
