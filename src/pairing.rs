//! Pairing of a most-recent-first commit sequence with each commit's predecessor.

use vstd::prelude::*;

verus! {

/// A commit and the commit it is compared against; `previous` is `None` when
/// the comparison is against the empty tree.
#[derive(Clone, Copy, Debug, PartialEq, Eq)]
pub struct CommitPair<C> {
    pub current: C,
    pub previous: Option<C>,
}

/// Number of pairs made from `len` walked commits when `count` diffs were asked
/// for: a walk that stopped short of `count + 1` commits reached the root, and
/// the root is compared against the empty tree.
pub open spec fn pair_count(len: nat, count: nat) -> nat {
    if len <= count {
        len
    } else {
        (len - 1) as nat
    }
}

/// The pairs for a walked sequence `commits` (most recent first): commit `i` is
/// paired with commit `i + 1`, and with nothing when it is the last one.
pub open spec fn pairs_of<C>(commits: Seq<C>, count: nat) -> Seq<CommitPair<C>> {
    Seq::new(
        pair_count(commits.len(), count),
        |i: int|
            CommitPair {
                current: commits[i],
                previous: if i + 1 < commits.len() {
                    Some(commits[i + 1])
                } else {
                    None
                },
            },
    )
}

/// Pairs each walked commit with the one walked after it. When fewer than
/// `count + 1` commits were walked, the history ran out, and the oldest commit
/// is paired with `None` (the empty tree).
pub fn pair_commits<C: Copy>(commits: &Vec<C>, count: usize) -> (r: Vec<CommitPair<C>>)
    ensures
        r@ == pairs_of(commits@, count as nat),
{
    let n = commits.len();
    let m = if n <= count {
        n
    } else {
        n - 1
    };
    let mut r: Vec<CommitPair<C>> = Vec::new();
    let mut i: usize = 0;
    while i < m
        invariant
            n == commits@.len(),
            m == pair_count(n as nat, count as nat),
            i <= m,
            r@ =~= pairs_of(commits@, count as nat).take(i as int),
        decreases m - i,
    {
        let previous = if i + 1 < n {
            Some(commits[i + 1])
        } else {
            None
        };
        r.push(CommitPair { current: commits[i], previous });
        i = i + 1;
    }
    r
}

/// A walk that found all `count + 1` commits gives exactly `count` pairs, in
/// walk order (most recent first), each against the commit walked after it.
pub proof fn lemma_full_history<C>(commits: Seq<C>, count: nat)
    requires
        commits.len() == count + 1,
    ensures
        pairs_of(commits, count).len() == count,
        forall|i: int|
            0 <= i < count ==> (#[trigger] pairs_of(commits, count)[i]).current == commits[i]
                && pairs_of(commits, count)[i].previous == Some(commits[i + 1]),
{
}

/// A walk that ran out after `m <= count` commits gives exactly `m` pairs, in
/// walk order, and the oldest one is compared against the empty tree.
pub proof fn lemma_short_history<C>(commits: Seq<C>, count: nat)
    requires
        commits.len() <= count,
    ensures
        pairs_of(commits, count).len() == commits.len(),
        forall|i: int|
            0 <= i < commits.len() ==> (#[trigger] pairs_of(commits, count)[i]).current
                == commits[i],
        commits.len() > 0 ==> pairs_of(commits, count)[commits.len() - 1].previous is None,
{
}

/// Asking for no diffs gives no pairs, whatever the walk of at most one commit
/// found.
pub proof fn lemma_zero_count<C>(commits: Seq<C>)
    requires
        commits.len() <= 1,
    ensures
        pairs_of(commits, 0).len() == 0,
{
}

} // verus!
