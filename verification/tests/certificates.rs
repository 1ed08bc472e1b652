use anchor_lang::solana_program::pubkey::Pubkey;
use certificate_system::address::expected_registry_address;
use certificate_system::certificate::{
    add_certificate, correct_certificate, verify_certificate, CertificateError, CertificateLedger,
    StoredAccount,
};
use certificate_system::codec::encode_registry;
use certificate_system::registry::InstituteRegistry;

fn id(b: u8) -> [u8; 32] {
    let mut a = [0u8; 32];
    a[0] = b;
    a
}

fn program_id() -> [u8; 32] {
    id(200)
}

fn registry_account(members: Vec<[u8; 32]>, program: &[u8; 32]) -> StoredAccount {
    let reg = InstituteRegistry { registered_institutes: members, authority: id(9) };
    StoredAccount {
        address: expected_registry_address(program).unwrap(),
        owner: *program,
        data: encode_registry(&reg),
    }
}

#[test]
fn derived_address_matches_the_derivation() {
    // The re-derived canonical address is the program-derived address of
    // the fixed domain tag — and in particular not the program id itself.
    let pid = program_id();
    let expected = expected_registry_address(&pid).unwrap();
    let (real, _bump) =
        Pubkey::find_program_address(&[b"institute_registry"], &Pubkey::new_from_array(pid));
    assert_eq!(expected, real.to_bytes());
    assert_ne!(expected, pid);
}

#[test]
fn issue_records_the_certificate() {
    let pid = program_id();
    let account = registry_account(vec![id(1), id(2)], &pid);
    let mut ledger = CertificateLedger::new();
    add_certificate(&mut ledger, id(31), id(1), &account, &pid, 500).unwrap();
    let status = verify_certificate(&ledger, &id(31));
    assert_eq!(status.certificate_hash, id(31));
    assert_eq!(status.issuer, id(1));
    assert!(status.is_valid);
    assert_eq!(status.issued_at, 500);
    assert_eq!(status.corrected_at, None);
    assert_eq!(status.replacement_hash, None);
}

#[test]
fn issue_same_hash_twice_fails() {
    let pid = program_id();
    let account = registry_account(vec![id(1), id(2)], &pid);
    let mut ledger = CertificateLedger::new();
    add_certificate(&mut ledger, id(31), id(1), &account, &pid, 500).unwrap();
    let r = add_certificate(&mut ledger, id(31), id(2), &account, &pid, 501);
    assert_eq!(r, Err(CertificateError::DuplicateCertificate));
    // The first certificate is unaffected.
    let status = verify_certificate(&ledger, &id(31));
    assert_eq!(status.issuer, id(1));
    assert!(status.is_valid);
    assert_eq!(status.issued_at, 500);
}

#[test]
fn issue_by_non_member_fails() {
    let pid = program_id();
    let account = registry_account(vec![id(1), id(2)], &pid);
    let mut ledger = CertificateLedger::new();
    let r = add_certificate(&mut ledger, id(31), id(3), &account, &pid, 500);
    assert_eq!(r, Err(CertificateError::IssuerNotRegistered));
}

#[test]
fn issue_with_wrong_address_fails() {
    // An account at any other address is refused, whatever bytes it
    // holds — here the genuine registry bytes.
    let pid = program_id();
    let mut account = registry_account(vec![id(1), id(2)], &pid);
    account.address = id(77);
    let mut ledger = CertificateLedger::new();
    let r = add_certificate(&mut ledger, id(31), id(1), &account, &pid, 500);
    assert_eq!(r, Err(CertificateError::InvalidInstituteRegistry));
}

#[test]
fn issue_with_wrong_owner_fails() {
    let pid = program_id();
    let mut account = registry_account(vec![id(1), id(2)], &pid);
    account.owner = id(78);
    let mut ledger = CertificateLedger::new();
    let r = add_certificate(&mut ledger, id(31), id(1), &account, &pid, 500);
    assert_eq!(r, Err(CertificateError::InvalidInstituteRegistry));
}

#[test]
fn issue_with_garbage_bytes_fails() {
    let pid = program_id();
    let mut account = registry_account(vec![id(1), id(2)], &pid);
    account.data = vec![1, 2, 3];
    let mut ledger = CertificateLedger::new();
    let r = add_certificate(&mut ledger, id(31), id(1), &account, &pid, 500);
    assert_eq!(r, Err(CertificateError::MalformedRegistry));
}

#[test]
fn correction_supersedes_atomically() {
    let pid = program_id();
    let account = registry_account(vec![id(1), id(2)], &pid);
    let mut ledger = CertificateLedger::new();
    add_certificate(&mut ledger, id(31), id(1), &account, &pid, 500).unwrap();
    correct_certificate(&mut ledger, id(31), id(32), id(1), &account, &pid, 600).unwrap();
    let old_status = verify_certificate(&ledger, &id(31));
    assert!(!old_status.is_valid);
    assert_eq!(old_status.corrected_at, Some(600));
    assert_eq!(old_status.replacement_hash, Some(id(32)));
    let new_status = verify_certificate(&ledger, &id(32));
    assert!(new_status.is_valid);
    assert_eq!(new_status.issuer, id(1));
    assert_eq!(new_status.issued_at, 600);
    assert_eq!(new_status.replacement_hash, None);
}

#[test]
fn correction_by_other_member_fails() {
    let pid = program_id();
    let account = registry_account(vec![id(1), id(2)], &pid);
    let mut ledger = CertificateLedger::new();
    add_certificate(&mut ledger, id(31), id(1), &account, &pid, 500).unwrap();
    let r = correct_certificate(&mut ledger, id(31), id(32), id(2), &account, &pid, 600);
    assert_eq!(r, Err(CertificateError::UnauthorizedIssuer));
    assert!(verify_certificate(&ledger, &id(31)).is_valid);
}

#[test]
fn correction_twice_fails() {
    let pid = program_id();
    let account = registry_account(vec![id(1), id(2)], &pid);
    let mut ledger = CertificateLedger::new();
    add_certificate(&mut ledger, id(31), id(1), &account, &pid, 500).unwrap();
    correct_certificate(&mut ledger, id(31), id(32), id(1), &account, &pid, 600).unwrap();
    let r = correct_certificate(&mut ledger, id(31), id(33), id(1), &account, &pid, 700);
    assert_eq!(r, Err(CertificateError::CertificateAlreadyInvalid));
}

#[test]
fn correction_to_occupied_hash_fails() {
    let pid = program_id();
    let account = registry_account(vec![id(1), id(2)], &pid);
    let mut ledger = CertificateLedger::new();
    add_certificate(&mut ledger, id(31), id(1), &account, &pid, 500).unwrap();
    add_certificate(&mut ledger, id(32), id(1), &account, &pid, 501).unwrap();
    let r = correct_certificate(&mut ledger, id(31), id(32), id(1), &account, &pid, 600);
    assert_eq!(r, Err(CertificateError::DuplicateCertificate));
    assert!(verify_certificate(&ledger, &id(31)).is_valid);
}

#[test]
fn correction_with_wrong_address_fails() {
    let pid = program_id();
    let account = registry_account(vec![id(1), id(2)], &pid);
    let mut ledger = CertificateLedger::new();
    add_certificate(&mut ledger, id(31), id(1), &account, &pid, 500).unwrap();
    let mut forged = registry_account(vec![id(1), id(2)], &pid);
    forged.address = id(77);
    let r = correct_certificate(&mut ledger, id(31), id(32), id(1), &forged, &pid, 600);
    assert_eq!(r, Err(CertificateError::InvalidInstituteRegistry));
}

#[test]
fn correction_needs_current_membership() {
    // The issuer was a member at issuance, is removed afterwards, and may
    // then no longer correct: membership is re-checked now, not then.
    let pid = program_id();
    let account = registry_account(vec![id(1), id(2)], &pid);
    let mut ledger = CertificateLedger::new();
    add_certificate(&mut ledger, id(31), id(1), &account, &pid, 500).unwrap();
    let shrunk = registry_account(vec![id(2)], &pid);
    let r = correct_certificate(&mut ledger, id(31), id(32), id(1), &shrunk, &pid, 600);
    assert_eq!(r, Err(CertificateError::IssuerNotRegistered));
    assert!(verify_certificate(&ledger, &id(31)).is_valid);
}
