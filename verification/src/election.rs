//! Per-candidate elections: the unanimity-based voting state machine that
//! decides whether a candidate institute is admitted.

use vstd::prelude::*;
use crate::identity::contains_id;

verus! {

/// Lifecycle of an election. `Approved` and `Rejected` are terminal.
#[derive(Clone, Copy, PartialEq, Eq, Structural, Debug)]
pub enum VotingStatus {
    Active,
    Approved,
    Rejected,
}

/// Mathematical image of one election.
#[verifier::ext_equal]
pub struct ElectionView {
    pub candidate: [u8; 32],
    pub votes_for: Seq<[u8; 32]>,
    pub votes_against: Seq<[u8; 32]>,
    pub total_eligible_voters: u64,
    pub status: VotingStatus,
    pub created_at: i64,
    pub concluded_at: Option<i64>,
}

impl ElectionView {
    pub open spec fn total_votes(self) -> int {
        self.votes_for.len() as int + self.votes_against.len() as int
    }

    pub open spec fn has_voted(self, voter: [u8; 32]) -> bool {
        self.votes_for.contains(voter) || self.votes_against.contains(voter)
    }

    /// Election invariant: no identity votes twice (within a set or across
    /// the two sets); an active election still misses at least one eligible
    /// vote; a concluded one has exactly the snapshotted number of votes,
    /// was approved exactly when nobody voted against, and carries its
    /// conclusion timestamp.
    pub open spec fn wf(self) -> bool {
        &&& (forall|i: int, j: int|
            0 <= i < j < self.votes_for.len() ==> self.votes_for[i] != self.votes_for[j])
        &&& (forall|i: int, j: int|
            0 <= i < j < self.votes_against.len() ==> self.votes_against[i] != self.votes_against[j])
        &&& (forall|i: int, j: int|
            0 <= i < self.votes_for.len() && 0 <= j < self.votes_against.len()
                ==> self.votes_for[i] != self.votes_against[j])
        &&& self.total_eligible_voters >= 1
        &&& (self.status == VotingStatus::Active ==> self.concluded_at is None
            && self.total_votes() < self.total_eligible_voters)
        &&& (self.status != VotingStatus::Active ==> self.concluded_at is Some
            && self.total_votes() == self.total_eligible_voters)
        &&& (self.status == VotingStatus::Approved ==> self.votes_against.len() == 0)
        &&& (self.status == VotingStatus::Rejected ==> self.votes_against.len() >= 1)
    }

    /// The election after `voter`'s ballot is recorded, before the
    /// resolution check.
    pub open spec fn with_ballot(self, voter: [u8; 32], vote_for: bool) -> ElectionView {
        if vote_for {
            ElectionView { votes_for: self.votes_for.push(voter), ..self }
        } else {
            ElectionView { votes_against: self.votes_against.push(voter), ..self }
        }
    }

    /// Whether recording one more ballot makes the vote count reach the
    /// snapshotted eligible-voter count, concluding the election.
    pub open spec fn ballot_concludes(self) -> bool {
        self.total_votes() + 1 == self.total_eligible_voters
    }

    /// Whether recording this ballot concludes the election with unanimous
    /// approval, which admits the candidate.
    pub open spec fn ballot_admits(self, voter: [u8; 32], vote_for: bool) -> bool {
        self.ballot_concludes() && self.with_ballot(voter, vote_for).votes_against.len() == 0
    }

    /// The election after a successful cast of `voter`'s ballot at time
    /// `now`: the ballot is recorded and, if every eligible voter has now
    /// voted, the election concludes — `Approved` on unanimity, `Rejected`
    /// on any dissent.
    pub open spec fn after_vote(self, voter: [u8; 32], vote_for: bool, now: i64) -> ElectionView {
        let cast = self.with_ballot(voter, vote_for);
        if self.ballot_concludes() {
            ElectionView {
                status: if cast.votes_against.len() == 0 {
                    VotingStatus::Approved
                } else {
                    VotingStatus::Rejected
                },
                concluded_at: Some(now),
                ..cast
            }
        } else {
            cast
        }
    }
}

/// The voting record of one election. At most one election ever exists per
/// candidate, and a concluded election is retained forever as an audit
/// record.
pub struct VotingState {
    /// Candidate institute seeking admission.
    pub candidate_institute: [u8; 32],
    /// Members that voted in favor.
    pub votes_for: Vec<[u8; 32]>,
    /// Members that voted against.
    pub votes_against: Vec<[u8; 32]>,
    /// Number of members when the election opened: the fixed denominator of
    /// the unanimity rule.
    pub total_eligible_voters: u64,
    /// Current status.
    pub status: VotingStatus,
    /// Time the election opened.
    pub created_at: i64,
    /// Time the election concluded; present exactly when the status is no
    /// longer `Active`.
    pub concluded_at: Option<i64>,
}

impl View for VotingState {
    type V = ElectionView;

    open spec fn view(&self) -> ElectionView {
        ElectionView {
            candidate: self.candidate_institute,
            votes_for: self.votes_for@,
            votes_against: self.votes_against@,
            total_eligible_voters: self.total_eligible_voters,
            status: self.status,
            created_at: self.created_at,
            concluded_at: self.concluded_at,
        }
    }
}

/// A read-only projection of an election, as handed to callers.
#[derive(Clone, Copy, Debug)]
pub struct VotingStateView {
    pub candidate_institute: [u8; 32],
    pub votes_for_count: u64,
    pub votes_against_count: u64,
    pub total_eligible_voters: u64,
    pub status: VotingStatus,
    pub created_at: i64,
    pub concluded_at: Option<i64>,
}

impl VotingState {
    /// Bytes of the stored layout besides the two vote lists: candidate,
    /// both list heads, the eligible-voter count, status, and timestamps.
    pub const BASE_LEN: usize = 32 + 8 + 8 + 8 + 1 + 8 + 9;

    pub open spec fn wf(self) -> bool {
        self@.wf()
    }

    /// Whether `voter` already appears in either vote set.
    pub fn has_voted(&self, voter: &[u8; 32]) -> (r: bool)
        ensures
            r == self@.has_voted(*voter),
    {
        contains_id(&self.votes_for, voter) || contains_id(&self.votes_against, voter)
    }

    /// Storage bytes needed for an election holding `num_voters` ballots in
    /// each of the two vote lists.
    pub fn space(num_voters: usize) -> (r: usize)
        requires
            num_voters <= (usize::MAX - 74) / 64,
        ensures
            r == 74 + num_voters * 64,
    {
        Self::BASE_LEN + num_voters * 64
    }

    /// Votes in favor as a share of all votes cast so far, in whole percent;
    /// zero while no vote has been cast.
    pub fn approval_percentage(&self) -> (r: u32)
        ensures
            self@.total_votes() == 0 ==> r == 0,
            self@.total_votes() > 0 ==> r == self@.votes_for.len() as int * 100
                / self@.total_votes(),
    {
        let vf: u128 = self.votes_for.len() as u128;
        let va: u128 = self.votes_against.len() as u128;
        let total: u128 = vf + va;
        if total == 0 {
            return 0;
        }
        let pct: u128 = vf * 100 / total;
        proof {
            assert(vf as int * 100 / (total as int) <= 100) by (nonlinear_arith)
                requires (total as int) > 0 && (vf as int) <= (total as int);
        }
        pct as u32
    }
}

/// Unanimity correctness: a concluded election was approved exactly when
/// nobody voted against it and the votes in favor count every eligible
/// voter snapshotted at its opening.
pub proof fn lemma_unanimity(e: ElectionView)
    requires
        e.wf(),
        e.status != VotingStatus::Active,
    ensures
        (e.status == VotingStatus::Approved) <==> (e.votes_against.len() == 0
            && e.votes_for.len() == e.total_eligible_voters),
{
}

/// A recorded ballot sticks: after any successful vote the voter appears
/// in one of the vote sets, so a second ballot by the same voter is always
/// turned away as a duplicate.
pub proof fn lemma_vote_recorded(e: ElectionView, voter: [u8; 32], vote_for: bool, now: i64)
    ensures
        e.after_vote(voter, vote_for, now).has_voted(voter),
{
    let cast = e.with_ballot(voter, vote_for);
    if vote_for {
        assert(cast.votes_for.last() == voter);
        assert(cast.votes_for.contains(voter));
    } else {
        assert(cast.votes_against.last() == voter);
        assert(cast.votes_against.contains(voter));
    }
}

/// No double voting: a voter never appears twice in an election's vote
/// sets — not twice in one set and not once in each.
pub proof fn lemma_no_double_voting(e: ElectionView, voter: [u8; 32])
    requires
        e.wf(),
    ensures
        !(e.votes_for.contains(voter) && e.votes_against.contains(voter)),
        forall|i: int, j: int|
            0 <= i < e.votes_for.len() && 0 <= j < e.votes_for.len() && i != j
                ==> !(e.votes_for[i] == voter && e.votes_for[j] == voter),
        forall|i: int, j: int|
            0 <= i < e.votes_against.len() && 0 <= j < e.votes_against.len() && i != j
                ==> !(e.votes_against[i] == voter && e.votes_against[j] == voter),
{
    if e.votes_for.contains(voter) && e.votes_against.contains(voter) {
        let i = choose|i: int| 0 <= i < e.votes_for.len() && e.votes_for[i] == voter;
        let j = choose|j: int| 0 <= j < e.votes_against.len() && e.votes_against[j] == voter;
        assert(e.votes_for[i] == e.votes_against[j]);
        assert(false);
    }
}

} // verus!
