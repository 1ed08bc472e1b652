//! The institute-validator state machine: one deployment holding the
//! singleton membership registry and every election ever opened, with the
//! operations that initialize the registry, open elections, cast votes,
//! and administratively remove members.

use vstd::prelude::*;
use crate::election::{ElectionView, VotingState, VotingStateView, VotingStatus};
use crate::identity::{id_eq, index_of_id};
use crate::registry::InstituteRegistry;

verus! {

/// Failure kinds of the validator operations. Every failure leaves the
/// deployment unchanged.
#[derive(Clone, Copy, PartialEq, Eq, Structural, Debug)]
pub enum ValidatorError {
    /// The election's candidate is already a member.
    InstituteAlreadyRegistered,
    /// The voter is not a current member.
    VoterNotRegistered,
    /// The voter already appears in one of the election's vote sets.
    AlreadyVoted,
    /// The election has already concluded.
    VotingNotActive,
    /// Only the registry's authority may remove an institute.
    Unauthorized,
    /// The institute to remove is not a member.
    InstituteNotFound,
    /// The singleton registry was already created.
    RegistryAlreadyInitialized,
    /// An election for this candidate already occupies its derived address.
    ElectionAlreadyExists,
    /// The registry holds no members, so no election could ever conclude.
    NoEligibleVoters,
}

/// One deployment of the validator: the registry singleton (absent until
/// initialized) and every election, each at the address derived from its
/// candidate — so at most one election per candidate can ever exist.
pub struct ValidatorState {
    pub registry: Option<InstituteRegistry>,
    pub elections: Vec<VotingState>,
}

impl ValidatorState {
    /// Current members, in admission order.
    pub open spec fn members(self) -> Seq<[u8; 32]> {
        self.registry->0@.members
    }

    /// The registry's administrative authority.
    pub open spec fn authority(self) -> [u8; 32] {
        self.registry->0@.authority
    }

    pub open spec fn has_election(self, candidate: [u8; 32]) -> bool {
        exists|i: int|
            0 <= i < self.elections@.len() && (#[trigger] self.elections@[i])@.candidate
                == candidate
    }

    /// Index of the election for `candidate`; meaningful only when
    /// `has_election` holds, and then unique since candidates are distinct.
    pub open spec fn election_at(self, candidate: [u8; 32]) -> int {
        choose|i: int|
            0 <= i < self.elections@.len() && (#[trigger] self.elections@[i])@.candidate
                == candidate
    }

    pub open spec fn election(self, candidate: [u8; 32]) -> ElectionView {
        self.elections@[self.election_at(candidate)]@
    }

    /// Deployment invariant: the registry (once present) holds no duplicate
    /// member; elections exist only after initialization; every election is
    /// well formed with a distinct candidate; and the candidate of an
    /// election still active is never already a member.
    pub open spec fn wf(self) -> bool {
        &&& (self.registry matches Some(reg) ==> reg.wf())
        &&& (self.registry is None ==> self.elections@.len() == 0)
        &&& (forall|i: int|
            0 <= i < self.elections@.len() ==> (#[trigger] self.elections@[i])@.wf())
        &&& (forall|i: int, j: int|
            0 <= i < j < self.elections@.len() ==> (#[trigger] self.elections@[i])@.candidate
                != (#[trigger] self.elections@[j])@.candidate)
        &&& (forall|i: int|
            0 <= i < self.elections@.len() && (#[trigger] self.elections@[i])@.status
                == VotingStatus::Active ==> !self.members().contains(
                self.elections@[i]@.candidate,
            ))
    }

    /// A fresh deployment: no registry yet, no elections.
    pub fn new() -> (s: Self)
        ensures
            s.wf(),
            s.registry is None,
            s.elections@.len() == 0,
    {
        ValidatorState { registry: None, elections: Vec::new() }
    }
}

/// The index of the election for `candidate`, if one exists.
fn find_election(elections: &Vec<VotingState>, candidate: &[u8; 32]) -> (r: Option<usize>)
    ensures
        match r {
            Some(i) => 0 <= i < elections@.len() && elections@[i as int]@.candidate == *candidate,
            None => forall|j: int|
                0 <= j < elections@.len() ==> (#[trigger] elections@[j])@.candidate != *candidate,
        },
{
    let mut i: usize = 0;
    while i < elections.len()
        invariant
            0 <= i <= elections@.len(),
            forall|j: int| 0 <= j < i ==> (#[trigger] elections@[j])@.candidate != *candidate,
        decreases elections@.len() - i,
    {
        if id_eq(&elections[i].candidate_institute, candidate) {
            return Some(i);
        }
        i += 1;
    }
    None
}

/// In a well-formed deployment the election index for a candidate is
/// unique, so any index holding that candidate is `election_at`.
pub proof fn lemma_election_at(s: ValidatorState, i: int, candidate: [u8; 32])
    requires
        s.wf(),
        0 <= i < s.elections@.len(),
        s.elections@[i]@.candidate == candidate,
    ensures
        s.has_election(candidate),
        s.election_at(candidate) == i,
        s.election(candidate) == s.elections@[i]@,
{
    assert(s.has_election(candidate));
    let j = s.election_at(candidate);
    if i != j {
        assert(s.elections@[i]@.candidate != s.elections@[j]@.candidate);
    }
}

/// Create the singleton registry with a starting member set (given without
/// duplicates, as a set of identities) and an administrative authority.
/// Fails if the deployment's registry address is already occupied.
pub fn initialize_registry(
    state: &mut ValidatorState,
    initial_institutes: Vec<[u8; 32]>,
    authority: [u8; 32],
) -> (r: Result<(), ValidatorError>)
    requires
        old(state).wf(),
        forall|i: int, j: int|
            0 <= i < j < initial_institutes@.len() ==> initial_institutes@[i]
                != initial_institutes@[j],
    ensures
        final(state).wf(),
        old(state).registry is Some ==> r == Err::<(), ValidatorError>(
            ValidatorError::RegistryAlreadyInitialized,
        ) && *final(state) == *old(state),
        old(state).registry is None ==> r is Ok && final(state).registry is Some
            && final(state).members() == initial_institutes@
            && final(state).authority() == authority
            && final(state).elections@.len() == 0,
{
    if state.registry.is_some() {
        return Err(ValidatorError::RegistryAlreadyInitialized);
    }
    state.registry = Some(
        InstituteRegistry { registered_institutes: initial_institutes, authority },
    );
    Ok(())
}

/// Open an election for a candidate institute, snapshotting the number of
/// eligible voters at this instant. Fails if an election for this candidate
/// already occupies its derived address, or if the candidate is already a
/// member. A registry with no members is also rejected here: an election
/// with zero eligible voters could never satisfy the conclusion rule (all
/// eligible voters have voted), so it would stay active forever; rejecting
/// it at open time is the documented choice of this implementation.
pub fn new_institute_election(
    state: &mut ValidatorState,
    candidate_institute: [u8; 32],
    now: i64,
) -> (r: Result<(), ValidatorError>)
    requires
        old(state).wf(),
        old(state).registry is Some,
    ensures
        final(state).wf(),
        final(state).registry == old(state).registry,
        ({
            if old(state).has_election(candidate_institute) {
                r == Err::<(), ValidatorError>(ValidatorError::ElectionAlreadyExists)
                    && *final(state) == *old(state)
            } else if old(state).members().contains(candidate_institute) {
                r == Err::<(), ValidatorError>(ValidatorError::InstituteAlreadyRegistered)
                    && *final(state) == *old(state)
            } else if old(state).members().len() == 0 {
                r == Err::<(), ValidatorError>(ValidatorError::NoEligibleVoters)
                    && *final(state) == *old(state)
            } else {
                &&& r is Ok
                &&& final(state).elections@.len() == old(state).elections@.len() + 1
                &&& (forall|j: int|
                    0 <= j < old(state).elections@.len() ==> #[trigger] final(state).elections@[j]
                        == old(state).elections@[j])
                &&& final(state).elections@.last()@ == (ElectionView {
                    candidate: candidate_institute,
                    votes_for: Seq::empty(),
                    votes_against: Seq::empty(),
                    total_eligible_voters: old(state).members().len() as u64,
                    status: VotingStatus::Active,
                    created_at: now,
                    concluded_at: None,
                })
            }
        }),
{
    if find_election(&state.elections, &candidate_institute).is_some() {
        return Err(ValidatorError::ElectionAlreadyExists);
    }
    let is_member = match state.registry.as_ref() {
        Some(reg) => reg.is_institute_registered(&candidate_institute),
        None => false,
    };
    if is_member {
        return Err(ValidatorError::InstituteAlreadyRegistered);
    }
    let eligible: u64 = match state.registry.as_ref() {
        Some(reg) => reg.registered_institutes.len() as u64,
        None => 0,
    };
    if eligible == 0 {
        return Err(ValidatorError::NoEligibleVoters);
    }
    let e = VotingState {
        candidate_institute,
        votes_for: Vec::new(),
        votes_against: Vec::new(),
        total_eligible_voters: eligible,
        status: VotingStatus::Active,
        created_at: now,
        concluded_at: None,
    };
    state.elections.push(e);
    proof {
        assert(state.elections@.last()@ =~= ElectionView {
            candidate: candidate_institute,
            votes_for: Seq::empty(),
            votes_against: Seq::empty(),
            total_eligible_voters: old(state).members().len() as u64,
            status: VotingStatus::Active,
            created_at: now,
            concluded_at: None,
        });
    }
    Ok(())
}

/// Cast `voter`'s ballot in the election for `candidate_institute`.
///
/// The vote is rejected if the election has concluded, if the voter is not
/// a current member, or if the voter already voted. Recording the ballot
/// and the resolution check are atomic: as soon as the vote count reaches
/// the eligible-voter count snapshotted at opening, the election concludes
/// — `Approved`, admitting the candidate to the registry, exactly when
/// nobody voted against; `Rejected` on any dissent. No election's
/// snapshotted eligible-voter count ever changes, even when the registry
/// grows.
pub fn vote(
    state: &mut ValidatorState,
    candidate_institute: [u8; 32],
    voter: [u8; 32],
    vote_for: bool,
    now: i64,
) -> (r: Result<(), ValidatorError>)
    requires
        old(state).wf(),
        old(state).registry is Some,
        old(state).has_election(candidate_institute),
    ensures
        final(state).wf(),
        final(state).registry is Some,
        final(state).authority() == old(state).authority(),
        final(state).elections@.len() == old(state).elections@.len(),
        forall|j: int|
            0 <= j < old(state).elections@.len()
                ==> (#[trigger] final(state).elections@[j])@.total_eligible_voters
                == old(state).elections@[j]@.total_eligible_voters
                && final(state).elections@[j]@.candidate == old(state).elections@[j]@.candidate
                && final(state).elections@[j]@.created_at == old(state).elections@[j]@.created_at,
        ({
            let e = old(state).election(candidate_institute);
            let i = old(state).election_at(candidate_institute);
            if e.status != VotingStatus::Active {
                r == Err::<(), ValidatorError>(ValidatorError::VotingNotActive)
                    && *final(state) == *old(state)
            } else if !old(state).members().contains(voter) {
                r == Err::<(), ValidatorError>(ValidatorError::VoterNotRegistered)
                    && *final(state) == *old(state)
            } else if e.has_voted(voter) {
                r == Err::<(), ValidatorError>(ValidatorError::AlreadyVoted)
                    && *final(state) == *old(state)
            } else {
                &&& r is Ok
                &&& final(state).elections@[i]@ == e.after_vote(voter, vote_for, now)
                &&& (forall|j: int|
                    0 <= j < old(state).elections@.len() && j != i
                        ==> #[trigger] final(state).elections@[j] == old(state).elections@[j])
                &&& final(state).members() == if e.ballot_admits(voter, vote_for) {
                    old(state).members().push(candidate_institute)
                } else {
                    old(state).members()
                }
            }
        }),
{
    let idx = match find_election(&state.elections, &candidate_institute) {
        Some(i) => i,
        None => {
            proof {
                assert(false);
            }
            return Err(ValidatorError::VotingNotActive);
        },
    };
    proof {
        lemma_election_at(*state, idx as int, candidate_institute);
    }
    if !matches!(state.elections[idx].status, VotingStatus::Active) {
        return Err(ValidatorError::VotingNotActive);
    }
    let is_member = match state.registry.as_ref() {
        Some(reg) => reg.is_institute_registered(&voter),
        None => false,
    };
    if !is_member {
        return Err(ValidatorError::VoterNotRegistered);
    }
    if state.elections[idx].has_voted(&voter) {
        return Err(ValidatorError::AlreadyVoted);
    }

    let ghost e0 = state.elections@[idx as int]@;
    let mut e = state.elections.remove(idx);
    if vote_for {
        e.votes_for.push(voter);
    } else {
        e.votes_against.push(voter);
    }
    proof {
        assert(e@.votes_for.len() + e@.votes_against.len() == e0.total_votes() + 1);
        assert(e0.total_votes() + 1 <= e0.total_eligible_voters);
    }
    let total: u64 = e.votes_for.len() as u64 + e.votes_against.len() as u64;
    if total == e.total_eligible_voters {
        if e.votes_against.len() == 0 {
            e.status = VotingStatus::Approved;
            let mut reg = state.registry.take().unwrap();
            reg.registered_institutes.push(candidate_institute);
            state.registry = Some(reg);
        } else {
            e.status = VotingStatus::Rejected;
        }
        e.concluded_at = Some(now);
    }
    let ghost e1 = e@;
    state.elections.insert(idx, e);
    proof {
        assert(e1 =~= e0.after_vote(voter, vote_for, now));
        assert(state.elections@ =~= old(state).elections@.update(idx as int, state.elections@[idx as int]));
        if e0.ballot_admits(voter, vote_for) {
            assert(state.members() =~= old(state).members().push(candidate_institute));
        }
        assert forall|i: int, j: int|
            0 <= i < j < state.elections@.len() implies (#[trigger] state.elections@[i])@.candidate
            != (#[trigger] state.elections@[j])@.candidate by {
            assert(old(state).elections@[i]@.candidate != old(state).elections@[j]@.candidate);
        }
        assert forall|i: int|
            0 <= i < state.elections@.len() && (#[trigger] state.elections@[i])@.status
                == VotingStatus::Active implies !state.members().contains(
            state.elections@[i]@.candidate,
        ) by {
            assert(old(state).elections@[i]@.status == VotingStatus::Active || i == idx as int);
            if e0.ballot_admits(voter, vote_for) {
                assert(state.elections@[i]@.candidate != candidate_institute);
            }
        }
    }
    Ok(())
}

/// Remove an institute from the registry: the administrative escape hatch
/// outside the voting protocol, available to the registry's authority
/// alone. Elections — including their snapshotted eligible-voter counts —
/// are untouched.
pub fn remove_institute(
    state: &mut ValidatorState,
    institute_to_remove: [u8; 32],
    caller: [u8; 32],
) -> (r: Result<(), ValidatorError>)
    requires
        old(state).wf(),
        old(state).registry is Some,
    ensures
        final(state).wf(),
        final(state).registry is Some,
        final(state).elections == old(state).elections,
        ({
            if caller != old(state).authority() {
                r == Err::<(), ValidatorError>(ValidatorError::Unauthorized)
                    && *final(state) == *old(state)
            } else if !old(state).members().contains(institute_to_remove) {
                r == Err::<(), ValidatorError>(ValidatorError::InstituteNotFound)
                    && *final(state) == *old(state)
            } else {
                &&& r is Ok
                &&& final(state).authority() == old(state).authority()
                &&& final(state).members() == old(state).members().remove(
                    old(state).members().index_of(institute_to_remove),
                )
            }
        }),
{
    let authorized = match state.registry.as_ref() {
        Some(reg) => id_eq(&caller, &reg.authority),
        None => false,
    };
    if !authorized {
        return Err(ValidatorError::Unauthorized);
    }
    let mut reg = state.registry.take().unwrap();
    let pos = match index_of_id(&reg.registered_institutes, &institute_to_remove) {
        Some(p) => p,
        None => {
            state.registry = Some(reg);
            return Err(ValidatorError::InstituteNotFound);
        },
    };
    reg.registered_institutes.remove(pos);
    state.registry = Some(reg);
    proof {
        let members = old(state).members();
        let k = members.index_of(institute_to_remove);
        assert(members[pos as int] == institute_to_remove);
        assert(0 <= k < members.len() && members[k] == institute_to_remove);
        if k != pos as int {
            assert(members[k] != members[pos as int]);
        }
        assert(state.members() =~= members.remove(k));
    }
    Ok(())
}

/// A read-only projection of the election for `candidate_institute`.
pub fn get_voting_state(state: &ValidatorState, candidate_institute: &[u8; 32]) -> (r:
    VotingStateView)
    requires
        state.wf(),
        state.has_election(*candidate_institute),
    ensures
        ({
            let e = state.election(*candidate_institute);
            &&& r.candidate_institute == e.candidate
            &&& r.votes_for_count == e.votes_for.len()
            &&& r.votes_against_count == e.votes_against.len()
            &&& r.total_eligible_voters == e.total_eligible_voters
            &&& r.status == e.status
            &&& r.created_at == e.created_at
            &&& r.concluded_at == e.concluded_at
        }),
{
    let idx = match find_election(&state.elections, candidate_institute) {
        Some(i) => i,
        None => {
            proof {
                assert(false);
            }
            return VotingStateView {
                candidate_institute: *candidate_institute,
                votes_for_count: 0,
                votes_against_count: 0,
                total_eligible_voters: 0,
                status: VotingStatus::Active,
                created_at: 0,
                concluded_at: None,
            };
        },
    };
    proof {
        lemma_election_at(*state, idx as int, *candidate_institute);
    }
    let e = &state.elections[idx];
    VotingStateView {
        candidate_institute: e.candidate_institute,
        votes_for_count: e.votes_for.len() as u64,
        votes_against_count: e.votes_against.len() as u64,
        total_eligible_voters: e.total_eligible_voters,
        status: e.status,
        created_at: e.created_at,
        concluded_at: e.concluded_at,
    }
}

} // verus!
