use certificate_system::election::VotingStatus;
use certificate_system::validator::{
    get_voting_state, initialize_registry, new_institute_election, remove_institute, vote,
    ValidatorError, ValidatorState,
};

fn id(b: u8) -> [u8; 32] {
    let mut a = [0u8; 32];
    a[0] = b;
    a
}

fn three_member_state() -> ValidatorState {
    let mut s = ValidatorState::new();
    initialize_registry(&mut s, vec![id(1), id(2), id(3)], id(9)).unwrap();
    s
}

#[test]
fn initialize_sets_members_and_authority() {
    let s = three_member_state();
    let reg = s.registry.as_ref().unwrap();
    assert_eq!(reg.registered_institutes, vec![id(1), id(2), id(3)]);
    assert_eq!(reg.authority, id(9));
}

#[test]
fn initialize_twice_fails() {
    let mut s = three_member_state();
    let r = initialize_registry(&mut s, vec![id(7)], id(8));
    assert_eq!(r, Err(ValidatorError::RegistryAlreadyInitialized));
    assert_eq!(s.registry.as_ref().unwrap().authority, id(9));
}

#[test]
fn open_for_member_fails() {
    let mut s = three_member_state();
    let r = new_institute_election(&mut s, id(2), 100);
    assert_eq!(r, Err(ValidatorError::InstituteAlreadyRegistered));
}

#[test]
fn open_twice_fails() {
    let mut s = three_member_state();
    new_institute_election(&mut s, id(4), 100).unwrap();
    let r = new_institute_election(&mut s, id(4), 101);
    assert_eq!(r, Err(ValidatorError::ElectionAlreadyExists));
}

#[test]
fn open_with_empty_registry_fails() {
    let mut s = ValidatorState::new();
    initialize_registry(&mut s, vec![], id(9)).unwrap();
    let r = new_institute_election(&mut s, id(4), 100);
    assert_eq!(r, Err(ValidatorError::NoEligibleVoters));
}

#[test]
fn single_dissent_rejects() {
    // Three members; two in favor, one against: rejected on the third
    // vote, candidate not admitted.
    let mut s = three_member_state();
    new_institute_election(&mut s, id(4), 100).unwrap();
    vote(&mut s, id(4), id(1), true, 101).unwrap();
    vote(&mut s, id(4), id(2), true, 102).unwrap();
    let view = get_voting_state(&s, &id(4));
    assert_eq!(view.status, VotingStatus::Active);
    vote(&mut s, id(4), id(3), false, 103).unwrap();
    let view = get_voting_state(&s, &id(4));
    assert_eq!(view.status, VotingStatus::Rejected);
    assert_eq!(view.concluded_at, Some(103));
    assert_eq!(view.votes_for_count, 2);
    assert_eq!(view.votes_against_count, 1);
    assert!(!s.registry.as_ref().unwrap().is_institute_registered(&id(4)));
}

#[test]
fn unanimous_vote_admits() {
    // Three members, all in favor: approved on the third vote and the
    // candidate joins the members.
    let mut s = three_member_state();
    new_institute_election(&mut s, id(4), 100).unwrap();
    vote(&mut s, id(4), id(1), true, 101).unwrap();
    vote(&mut s, id(4), id(2), true, 102).unwrap();
    vote(&mut s, id(4), id(3), true, 103).unwrap();
    let view = get_voting_state(&s, &id(4));
    assert_eq!(view.status, VotingStatus::Approved);
    assert_eq!(view.concluded_at, Some(103));
    let reg = s.registry.as_ref().unwrap();
    assert_eq!(reg.registered_institutes, vec![id(1), id(2), id(3), id(4)]);
}

#[test]
fn double_vote_fails() {
    let mut s = three_member_state();
    new_institute_election(&mut s, id(4), 100).unwrap();
    vote(&mut s, id(4), id(1), true, 101).unwrap();
    let r = vote(&mut s, id(4), id(1), false, 102);
    assert_eq!(r, Err(ValidatorError::AlreadyVoted));
    let view = get_voting_state(&s, &id(4));
    assert_eq!(view.votes_for_count, 1);
    assert_eq!(view.votes_against_count, 0);
}

#[test]
fn non_member_vote_fails() {
    let mut s = three_member_state();
    new_institute_election(&mut s, id(4), 100).unwrap();
    let r = vote(&mut s, id(4), id(5), true, 101);
    assert_eq!(r, Err(ValidatorError::VoterNotRegistered));
}

#[test]
fn vote_after_conclusion_fails() {
    let mut s = ValidatorState::new();
    initialize_registry(&mut s, vec![id(1)], id(9)).unwrap();
    new_institute_election(&mut s, id(4), 100).unwrap();
    vote(&mut s, id(4), id(1), true, 101).unwrap();
    // id(4) is now a member; it never voted in its own election, but the
    // election has concluded.
    let r = vote(&mut s, id(4), id(4), true, 102);
    assert_eq!(r, Err(ValidatorError::VotingNotActive));
}

#[test]
fn snapshot_survives_registry_growth() {
    // Two elections open with two members; concluding the first grows the
    // registry, but the second election's snapshot stays at two.
    let mut s = ValidatorState::new();
    initialize_registry(&mut s, vec![id(1), id(2)], id(9)).unwrap();
    new_institute_election(&mut s, id(4), 100).unwrap();
    new_institute_election(&mut s, id(5), 100).unwrap();
    vote(&mut s, id(4), id(1), true, 101).unwrap();
    vote(&mut s, id(4), id(2), true, 102).unwrap();
    assert_eq!(s.registry.as_ref().unwrap().registered_institutes.len(), 3);
    let view = get_voting_state(&s, &id(5));
    assert_eq!(view.total_eligible_voters, 2);
    // The newly admitted member may vote in the still-open election; with
    // the old snapshot, two ballots conclude it.
    vote(&mut s, id(5), id(4), true, 103).unwrap();
    vote(&mut s, id(5), id(1), false, 104).unwrap();
    let view = get_voting_state(&s, &id(5));
    assert_eq!(view.status, VotingStatus::Rejected);
    assert_eq!(view.total_eligible_voters, 2);
}

#[test]
fn remove_requires_authority() {
    let mut s = three_member_state();
    let r = remove_institute(&mut s, id(1), id(1));
    assert_eq!(r, Err(ValidatorError::Unauthorized));
    assert_eq!(s.registry.as_ref().unwrap().registered_institutes.len(), 3);
}

#[test]
fn remove_missing_member_fails() {
    let mut s = three_member_state();
    let r = remove_institute(&mut s, id(4), id(9));
    assert_eq!(r, Err(ValidatorError::InstituteNotFound));
}

#[test]
fn remove_drops_exactly_the_member() {
    let mut s = three_member_state();
    remove_institute(&mut s, id(2), id(9)).unwrap();
    let reg = s.registry.as_ref().unwrap();
    assert_eq!(reg.registered_institutes, vec![id(1), id(3)]);
}
