use certificate_system::certificate::Certificate;
use certificate_system::codec::{decode_registry, encode_registry};
use certificate_system::election::{VotingState, VotingStatus};
use certificate_system::registry::InstituteRegistry;

fn id(b: u8) -> [u8; 32] {
    let mut a = [0u8; 32];
    a[0] = b;
    a
}

#[test]
fn registry_layout_round_trips() {
    let reg = InstituteRegistry {
        registered_institutes: vec![id(1), id(2), id(3)],
        authority: id(9),
    };
    let bytes = encode_registry(&reg);
    assert_eq!(bytes.len(), 40 + 3 * 32);
    assert_eq!(bytes[0], 3);
    let back = decode_registry(&bytes).unwrap();
    assert_eq!(back.registered_institutes, vec![id(1), id(2), id(3)]);
    assert_eq!(back.authority, id(9));
}

#[test]
fn empty_registry_round_trips() {
    let reg = InstituteRegistry { registered_institutes: vec![], authority: id(9) };
    let bytes = encode_registry(&reg);
    assert_eq!(bytes.len(), 40);
    let back = decode_registry(&bytes).unwrap();
    assert!(back.registered_institutes.is_empty());
    assert_eq!(back.authority, id(9));
}

#[test]
fn truncated_bytes_are_rejected() {
    let reg = InstituteRegistry { registered_institutes: vec![id(1)], authority: id(9) };
    let mut bytes = encode_registry(&reg);
    bytes.pop();
    assert!(decode_registry(&bytes).is_none());
    assert!(decode_registry(&vec![]).is_none());
    assert!(decode_registry(&vec![0u8; 39]).is_none());
}

#[test]
fn count_mismatch_is_rejected() {
    let reg = InstituteRegistry { registered_institutes: vec![id(1)], authority: id(9) };
    let mut bytes = encode_registry(&reg);
    bytes[0] = 2;
    assert!(decode_registry(&bytes).is_none());
}

#[test]
fn space_formulas() {
    assert_eq!(InstituteRegistry::space(0), 40);
    assert_eq!(InstituteRegistry::space(3), 40 + 96);
    assert_eq!(VotingState::space(0), 74);
    assert_eq!(VotingState::space(50), 74 + 50 * 64);
    assert_eq!(Certificate::LEN, 115);
}

#[test]
fn vote_bookkeeping_helpers() {
    let e = VotingState {
        candidate_institute: id(4),
        votes_for: vec![id(1), id(2)],
        votes_against: vec![id(3)],
        total_eligible_voters: 4,
        status: VotingStatus::Active,
        created_at: 100,
        concluded_at: None,
    };
    assert!(e.has_voted(&id(1)));
    assert!(e.has_voted(&id(3)));
    assert!(!e.has_voted(&id(4)));
    assert_eq!(e.approval_percentage(), 66);
    let fresh = VotingState {
        candidate_institute: id(4),
        votes_for: vec![],
        votes_against: vec![],
        total_eligible_voters: 4,
        status: VotingStatus::Active,
        created_at: 100,
        concluded_at: None,
    };
    assert_eq!(fresh.approval_percentage(), 0);
    let unanimous = VotingState {
        candidate_institute: id(4),
        votes_for: vec![id(1), id(2)],
        votes_against: vec![],
        total_eligible_voters: 2,
        status: VotingStatus::Approved,
        created_at: 100,
        concluded_at: Some(102),
    };
    assert_eq!(unanimous.approval_percentage(), 100);
}
