//! The version ledger: the chain of commits that have been applied, and the
//! detection of forks in it.

use vstd::prelude::*;
use crate::payload::Payload;

verus! {

/// The end commit of a version that has not been superseded.
pub const MAX_COMMIT_NUM: i64 = 9223372036854775807;

/// The height of a ledger to which no commit has been applied.
pub const GENESIS_COMMIT_NUM: i64 = 0;

/// Why the ledger refused a commit or a rollback.
#[derive(Clone, Copy, Debug, PartialEq, Eq, Structural)]
pub enum VersionError {
    /// The predecessor of the incoming commit is not the head of the ledger.
    /// The caller rolls back to `predecessor` and applies the commit again.
    ForkDetected { head: i64, predecessor: i64 },
    /// The incoming commit does not lie strictly between its predecessor and
    /// `MAX_COMMIT_NUM`.
    OutOfOrder { commit: i64, predecessor: i64 },
    /// The commit to roll back to was never applied.
    UnknownCommit { commit: i64 },
}

/// The head of a chain of commits: its last commit, or the genesis height.
pub open spec fn chain_height(chain: Seq<i64>) -> i64 {
    if chain.len() == 0 {
        GENESIS_COMMIT_NUM
    } else {
        chain.last()
    }
}

/// A chain is strictly increasing and lies strictly between the genesis
/// height and `MAX_COMMIT_NUM`.
pub open spec fn chain_ordered(chain: Seq<i64>) -> bool {
    &&& forall|i: int| 0 <= i < chain.len() ==> GENESIS_COMMIT_NUM < #[trigger] chain[i] < MAX_COMMIT_NUM
    &&& forall|i: int, j: int| 0 <= i < j < chain.len() ==> chain[i] < chain[j]
}

/// Whether `commit` is a height that the chain has passed through.
pub open spec fn chain_knows(chain: Seq<i64>, commit: i64) -> bool {
    commit == GENESIS_COMMIT_NUM || chain.contains(commit)
}

/// The chain without the commits above `commit`.
pub open spec fn chain_rolled_back(chain: Seq<i64>, commit: i64) -> Seq<i64> {
    chain.filter(|c: i64| c <= commit)
}

/// The ledger of applied commits.
#[derive(Debug, PartialEq, Eq)]
pub struct VersionLedger {
    chain: Vec<i64>,
}

impl View for VersionLedger {
    type V = Seq<i64>;

    closed spec fn view(&self) -> Seq<i64> {
        self.chain@
    }
}

impl VersionLedger {
    /// The invariant of the ledger: its chain is ordered.
    pub open spec fn well_formed(&self) -> bool {
        chain_ordered(self@)
    }

    /// Forgets every commit.
    pub fn clear(&mut self)
        ensures
            final(self)@ == Seq::<i64>::empty(),
            final(self).well_formed(),
    {
        self.chain = Vec::new();
    }

    /// A ledger to which no commit has been applied.
    pub fn new() -> (ledger: Self)
        ensures
            ledger@ == Seq::<i64>::empty(),
            ledger.well_formed(),
    {
        VersionLedger { chain: Vec::new() }
    }

    /// The highest commit applied.
    pub fn current_height(&self) -> (height: i64)
        ensures
            height == chain_height(self@),
    {
        let n: usize = self.chain.len();
        if n == 0 {
            GENESIS_COMMIT_NUM
        } else {
            self.chain[n - 1]
        }
    }

    /// Appends `commit` if it follows the head of the ledger.
    pub fn record_commit(&mut self, commit: i64, predecessor: i64) -> (result: Result<
        (),
        VersionError,
    >)
        requires
            old(self).well_formed(),
        ensures
            final(self).well_formed(),
            match result {
                Ok(()) => {
                    &&& predecessor == chain_height(old(self)@)
                    &&& predecessor < commit < MAX_COMMIT_NUM
                    &&& final(self)@ == old(self)@.push(commit)
                },
                Err(error) => {
                    &&& final(self)@ == old(self)@
                    &&& error == record_refusal(old(self)@, commit, predecessor)
                    &&& (predecessor != chain_height(old(self)@) || commit <= predecessor || commit
                        >= MAX_COMMIT_NUM)
                },
            },
    {
        let head: i64 = self.current_height();
        if predecessor != head {
            return Err(VersionError::ForkDetected { head, predecessor });
        }
        if commit <= predecessor || commit >= MAX_COMMIT_NUM {
            return Err(VersionError::OutOfOrder { commit, predecessor });
        }
        self.chain.push(commit);
        Ok(())
    }

    /// Whether `commit` is the genesis height or a commit that was applied.
    pub fn knows(&self, commit: i64) -> (known: bool)
        ensures
            known == chain_knows(self@, commit),
    {
        if commit == GENESIS_COMMIT_NUM {
            return true;
        }
        let mut i: usize = 0;
        while i < self.chain.len()
            invariant
                i <= self.chain.len(),
                forall|j: int| 0 <= j < i ==> self.chain@[j] != commit,
            decreases self.chain.len() - i,
        {
            if self.chain[i] == commit {
                return true;
            }
            i += 1;
        }
        false
    }

    /// Forgets every commit above `commit`, so that `commit` is the head again.
    pub fn rollback_to(&mut self, commit: i64) -> (result: Result<(), VersionError>)
        requires
            old(self).well_formed(),
        ensures
            final(self).well_formed(),
            match result {
                Ok(()) => {
                    &&& chain_knows(old(self)@, commit)
                    &&& final(self)@ == chain_rolled_back(old(self)@, commit)
                    &&& chain_height(final(self)@) == commit
                },
                Err(error) => {
                    &&& !chain_knows(old(self)@, commit)
                    &&& error == (VersionError::UnknownCommit { commit })
                    &&& final(self)@ == old(self)@
                },
            },
    {
        if !self.knows(commit) {
            return Err(VersionError::UnknownCommit { commit });
        }
        let ghost before = self.chain@;
        let mut kept: usize = 0;
        while kept < self.chain.len() && self.chain[kept] <= commit
            invariant
                self.chain@ == before,
                chain_ordered(before),
                kept <= before.len(),
                forall|j: int| 0 <= j < kept ==> before[j] <= commit,
            decreases before.len() - kept,
        {
            kept += 1;
        }
        self.chain.truncate(kept);
        proof {
            lemma_rolled_back_is_prefix(before, commit, kept as int);
        }
        Ok(())
    }
}

impl DeepView for VersionLedger {
    type V = Seq<i64>;

    open spec fn deep_view(&self) -> Seq<i64> {
        self@
    }
}

impl Payload for VersionLedger {
    fn duplicate(&self) -> (copy: Self) {
        let mut chain: Vec<i64> = Vec::new();
        let mut i: usize = 0;
        while i < self.chain.len()
            invariant
                i <= self.chain.len(),
                chain@ == self.chain@.take(i as int),
            decreases self.chain.len() - i,
        {
            chain.push(self.chain[i]);
            assert(chain@ =~= self.chain@.take(i + 1));
            i += 1;
        }
        assert(chain@ =~= self.chain@);
        VersionLedger { chain }
    }
}

/// The error with which `record_commit` refuses a commit: a fork is reported
/// before a commit that is out of order.
pub open spec fn record_refusal(chain: Seq<i64>, commit: i64, predecessor: i64) -> VersionError {
    if predecessor != chain_height(chain) {
        VersionError::ForkDetected { head: chain_height(chain), predecessor }
    } else {
        VersionError::OutOfOrder { commit, predecessor }
    }
}

/// A rollback to a commit that the chain knows leaves it as the head.
pub proof fn lemma_rolled_back_height(chain: Seq<i64>, commit: i64)
    requires
        chain_ordered(chain),
        chain_knows(chain, commit),
    ensures
        chain_height(chain_rolled_back(chain, commit)) == commit,
    decreases chain.len(),
{
    reveal(Seq::filter);
    if chain.len() > 0 {
        let front = chain.drop_last();
        let last = chain.last();
        assert(last == chain[chain.len() - 1]);
        if last <= commit {
            if chain.contains(commit) {
                let at = choose|j: int| 0 <= j < chain.len() && chain[j] == commit;
                assert(at == chain.len() - 1);
            }
        } else {
            if chain.contains(commit) {
                let at = choose|j: int| 0 <= j < chain.len() && chain[j] == commit;
                assert(front[at] == commit);
            }
            assert forall|i: int, j: int| 0 <= i < j < front.len() implies front[i] < front[j] by {
                assert(front[i] == chain[i] && front[j] == chain[j]);
            }
            assert forall|i: int| 0 <= i < front.len() implies GENESIS_COMMIT_NUM
                < #[trigger] front[i] < MAX_COMMIT_NUM by {
                assert(front[i] == chain[i]);
            }
            lemma_rolled_back_height(front, commit);
        }
    }
}

/// In an ordered chain the commits up to `commit` are a prefix.
pub proof fn lemma_rolled_back_is_prefix(chain: Seq<i64>, commit: i64, kept: int)
    requires
        chain_ordered(chain),
        0 <= kept <= chain.len(),
        forall|j: int| 0 <= j < kept ==> chain[j] <= commit,
        kept < chain.len() ==> chain[kept] > commit,
    ensures
        chain_rolled_back(chain, commit) == chain.subrange(0, kept),
        chain_ordered(chain.subrange(0, kept)),
        chain_knows(chain, commit) ==> chain_height(chain.subrange(0, kept)) == commit,
    decreases chain.len(),
{
    reveal(Seq::filter);
    let keep = |c: i64| c <= commit;
    if chain.len() == 0 {
    } else {
        let front = chain.drop_last();
        if kept == chain.len() {
            lemma_rolled_back_is_prefix(front, commit, kept - 1);
            assert(front.subrange(0, kept - 1).push(chain.last()) =~= chain.subrange(0, kept));
        } else {
            assert(chain.last() > commit);
            lemma_rolled_back_is_prefix(front, commit, kept);
            assert(front.subrange(0, kept) =~= chain.subrange(0, kept));
        }
    }
    if chain_knows(chain, commit) {
        if kept == 0 {
            assert(forall|j: int| 0 <= j < chain.len() ==> chain[j] > commit);
        } else {
            let last = chain[kept - 1];
            assert(chain.subrange(0, kept).last() == last);
            if commit != GENESIS_COMMIT_NUM || last != commit {
                if chain.contains(commit) {
                    let at = choose|j: int| 0 <= j < chain.len() && chain[j] == commit;
                    assert(at < kept);
                    assert(at == kept - 1);
                }
            }
        }
    }
}

} // verus!
