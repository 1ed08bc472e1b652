//! Observable events: the records appended to the audit log by a host
//! driving the library. The core only defines their shape; it never
//! depends on them being read.

use vstd::prelude::*;

verus! {

/// The registry singleton was created.
#[derive(Clone, Copy, Debug)]
pub struct RegistryInitialized {
    pub authority: [u8; 32],
    pub initial_count: u64,
}

/// An election was opened for a candidate.
#[derive(Clone, Copy, Debug)]
pub struct ElectionCreated {
    pub candidate: [u8; 32],
    pub eligible_voters: u64,
    pub timestamp: i64,
}

/// A member cast a ballot.
#[derive(Clone, Copy, Debug)]
pub struct VoteCast {
    pub candidate: [u8; 32],
    pub voter: [u8; 32],
    pub vote_for: bool,
    pub timestamp: i64,
}

/// An election concluded unanimously and the candidate was admitted.
#[derive(Clone, Copy, Debug)]
pub struct InstituteAdmitted {
    pub candidate: [u8; 32],
    pub total_institutes: u64,
    pub timestamp: i64,
}

/// An election concluded with dissent and the candidate was rejected.
#[derive(Clone, Copy, Debug)]
pub struct InstituteRejected {
    pub candidate: [u8; 32],
    pub votes_for: u64,
    pub votes_against: u64,
    pub timestamp: i64,
}

/// The authority removed an institute without a vote.
#[derive(Clone, Copy, Debug)]
pub struct InstituteRemoved {
    pub institute: [u8; 32],
    pub timestamp: i64,
}

/// A certificate was issued.
#[derive(Clone, Copy, Debug)]
pub struct CertificateAdded {
    pub certificate_hash: [u8; 32],
    pub issuer: [u8; 32],
    pub timestamp: i64,
}

/// A certificate was superseded by a replacement.
#[derive(Clone, Copy, Debug)]
pub struct CertificateCorrected {
    pub old_hash: [u8; 32],
    pub new_hash: [u8; 32],
    pub issuer: [u8; 32],
    pub timestamp: i64,
}

} // verus!
