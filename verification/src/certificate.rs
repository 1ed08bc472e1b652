//! The certificate ledger: content-addressed certificates issued by
//! current members, superseded — never deleted — by explicit corrections.
//! On every call the ledger re-derives the registry's canonical address
//! and re-checks the account's recorded owner before believing any byte of
//! the supplied registry account.

use vstd::prelude::*;
use crate::address::registry_address;
use crate::codec::{decode_registry, ids_bytes, lemma_ids_bytes_contains, spec_decode_registry};
use crate::address::expected_registry_address;
use crate::identity::id_eq;
use crate::registry::InstituteRegistry;

verus! {

/// Failure kinds of the ledger operations. Every failure leaves the
/// ledger unchanged.
#[derive(Clone, Copy, PartialEq, Eq, Structural, Debug)]
pub enum CertificateError {
    /// The issuer is not a current member of the verified registry.
    IssuerNotRegistered,
    /// Only a certificate's original issuer may correct it.
    UnauthorizedIssuer,
    /// The certificate stored at the old hash's address records a
    /// different hash.
    InvalidCertificateHash,
    /// The certificate was already corrected once.
    CertificateAlreadyInvalid,
    /// The supplied registry account is not at the canonical derived
    /// address, or is not owned by the validator program.
    InvalidInstituteRegistry,
    /// The bytes at the verified registry address are not a well-formed
    /// registry layout.
    MalformedRegistry,
    /// A certificate already occupies this content hash's address.
    DuplicateCertificate,
}

/// One certificate: a content hash bound to its issuing member. Hash and
/// issuer never change; validity moves `true → false` at most once, via a
/// correction that names the superseding hash.
#[derive(Clone, Copy, Debug)]
pub struct Certificate {
    /// Content digest, the certificate's key.
    pub certificate_hash: [u8; 32],
    /// Member that issued it.
    pub issuer: [u8; 32],
    /// Whether the certificate still stands.
    pub is_valid: bool,
    /// Time of issuance.
    pub issued_at: i64,
    /// Time of correction; present exactly when invalidated.
    pub corrected_at: Option<i64>,
    /// The superseding certificate's hash; present exactly when
    /// invalidated.
    pub replacement_hash: Option<[u8; 32]>,
}

impl Certificate {
    /// Bytes of the stored layout of one certificate.
    pub const LEN: usize = 32 + 32 + 1 + 8 + 9 + 33;

    /// The correction fields are set together, exactly on invalidation.
    pub open spec fn wf(self) -> bool {
        &&& (self.is_valid <==> self.corrected_at is None)
        &&& (self.is_valid <==> self.replacement_hash is None)
    }
}

/// A read-only projection of a certificate, as handed to callers.
#[derive(Clone, Copy, Debug)]
pub struct CertificateStatus {
    pub certificate_hash: [u8; 32],
    pub issuer: [u8; 32],
    pub is_valid: bool,
    pub issued_at: i64,
    pub corrected_at: Option<i64>,
    pub replacement_hash: Option<[u8; 32]>,
}

/// A raw stored account as the ledger reads it across the trust boundary:
/// its storage address, the program recorded as owning that storage, and
/// the bytes held there.
pub struct StoredAccount {
    pub address: [u8; 32],
    pub owner: [u8; 32],
    pub data: Vec<u8>,
}

/// The supplied registry account is trustworthy: it sits at the canonical
/// address derived from the fixed domain tag under the validator program,
/// and that program is recorded as its owner.
pub open spec fn trusted_registry(address: Seq<u8>, owner: Seq<u8>, program: Seq<u8>) -> bool {
    registry_address(program) == Some(address) && owner == program
}

/// The append-only certificate store of one deployment, each certificate
/// at the address derived from its content hash — so a hash can be issued
/// at most once in its lifetime.
pub struct CertificateLedger {
    pub certificates: Vec<Certificate>,
}

impl CertificateLedger {
    pub open spec fn certs(self) -> Seq<Certificate> {
        self.certificates@
    }

    pub open spec fn has_cert(self, hash: [u8; 32]) -> bool {
        exists|i: int|
            0 <= i < self.certs().len() && (#[trigger] self.certs()[i]).certificate_hash == hash
    }

    /// Index of the certificate for `hash`; meaningful only when
    /// `has_cert` holds, and then unique since hashes are distinct.
    pub open spec fn cert_at(self, hash: [u8; 32]) -> int {
        choose|i: int|
            0 <= i < self.certs().len() && (#[trigger] self.certs()[i]).certificate_hash == hash
    }

    pub open spec fn cert(self, hash: [u8; 32]) -> Certificate {
        self.certs()[self.cert_at(hash)]
    }

    /// Ledger invariant: one certificate per content hash; every
    /// certificate well formed; and an invalidated certificate's
    /// superseding hash is itself present in the ledger.
    pub open spec fn wf(self) -> bool {
        &&& (forall|i: int, j: int|
            0 <= i < j < self.certs().len() ==> (#[trigger] self.certs()[i]).certificate_hash != (
            #[trigger] self.certs()[j]).certificate_hash)
        &&& (forall|i: int| 0 <= i < self.certs().len() ==> (#[trigger] self.certs()[i]).wf())
        &&& (forall|i: int|
            0 <= i < self.certs().len() && !(#[trigger] self.certs()[i]).is_valid
                ==> self.has_cert(self.certs()[i].replacement_hash->0))
    }

    /// A fresh, empty ledger.
    pub fn new() -> (l: Self)
        ensures
            l.wf(),
            l.certs().len() == 0,
    {
        CertificateLedger { certificates: Vec::new() }
    }
}

/// The index of the certificate for `hash`, if one exists.
fn find_certificate(certificates: &Vec<Certificate>, hash: &[u8; 32]) -> (r: Option<usize>)
    ensures
        match r {
            Some(i) => 0 <= i < certificates@.len() && certificates@[i as int].certificate_hash
                == *hash,
            None => forall|j: int|
                0 <= j < certificates@.len() ==> (#[trigger] certificates@[j]).certificate_hash
                    != *hash,
        },
{
    let mut i: usize = 0;
    while i < certificates.len()
        invariant
            0 <= i <= certificates@.len(),
            forall|j: int| 0 <= j < i ==> (#[trigger] certificates@[j]).certificate_hash != *hash,
        decreases certificates@.len() - i,
    {
        if id_eq(&certificates[i].certificate_hash, hash) {
            return Some(i);
        }
        i += 1;
    }
    None
}

/// In a well-formed ledger the certificate index for a hash is unique, so
/// any index holding that hash is `cert_at`.
pub proof fn lemma_cert_at(l: CertificateLedger, i: int, hash: [u8; 32])
    requires
        l.wf(),
        0 <= i < l.certs().len(),
        l.certs()[i].certificate_hash == hash,
    ensures
        l.has_cert(hash),
        l.cert_at(hash) == i,
        l.cert(hash) == l.certs()[i],
{
    assert(l.has_cert(hash));
    let j = l.cert_at(hash);
    if i != j {
        assert(l.certs()[i].certificate_hash != l.certs()[j].certificate_hash);
    }
}

/// Re-derive and re-check the registry's address and owner, then parse its
/// bytes: the cross-registry validation performed before any certificate
/// logic runs.
fn check_registry(account: &StoredAccount, program_id: &[u8; 32]) -> (r: Result<
    InstituteRegistry,
    CertificateError,
>)
    ensures
        match r {
            Ok(reg) => {
                &&& trusted_registry(account.address@, account.owner@, program_id@)
                &&& spec_decode_registry(account.data@) matches Some(img)
                    && ids_bytes(reg@.members) == img.members && reg@.authority@ == img.authority
            },
            Err(e) => {
                ||| (e == CertificateError::InvalidInstituteRegistry && !trusted_registry(
                    account.address@,
                    account.owner@,
                    program_id@,
                ))
                ||| (e == CertificateError::MalformedRegistry && trusted_registry(
                    account.address@,
                    account.owner@,
                    program_id@,
                ) && spec_decode_registry(account.data@) is None)
            },
        },
{
    let addr_ok = match expected_registry_address(program_id) {
        Some(expected) => {
            let same = id_eq(&expected, &account.address);
            proof {
                crate::identity::lemma_id_view_eq(expected, account.address);
            }
            same
        },
        None => false,
    };
    proof {
        crate::identity::lemma_id_view_eq(account.owner, *program_id);
    }
    if !addr_ok {
        return Err(CertificateError::InvalidInstituteRegistry);
    }
    if !id_eq(&account.owner, program_id) {
        return Err(CertificateError::InvalidInstituteRegistry);
    }
    match decode_registry(&account.data) {
        Some(reg) => Ok(reg),
        None => Err(CertificateError::MalformedRegistry),
    }
}

/// Issue a certificate for `certificate_hash`.
///
/// The registry account's address and owner are re-derived and re-checked
/// first — a mismatch fails regardless of the bytes at that address — then
/// the issuer must be a current member of the parsed registry, and the
/// content hash's address must still be free: issuing the same hash twice
/// always fails on the second attempt and leaves the first certificate
/// untouched.
pub fn add_certificate(
    ledger: &mut CertificateLedger,
    certificate_hash: [u8; 32],
    issuer: [u8; 32],
    registry_account: &StoredAccount,
    validator_program_id: &[u8; 32],
    now: i64,
) -> (r: Result<(), CertificateError>)
    requires
        old(ledger).wf(),
    ensures
        final(ledger).wf(),
        ({
            let trusted = trusted_registry(
                registry_account.address@,
                registry_account.owner@,
                validator_program_id@,
            );
            let decoded = spec_decode_registry(registry_account.data@);
            if !trusted {
                r == Err::<(), CertificateError>(CertificateError::InvalidInstituteRegistry)
                    && *final(ledger) == *old(ledger)
            } else if decoded is None {
                r == Err::<(), CertificateError>(CertificateError::MalformedRegistry)
                    && *final(ledger) == *old(ledger)
            } else if !decoded->0.members.contains(issuer@) {
                r == Err::<(), CertificateError>(CertificateError::IssuerNotRegistered)
                    && *final(ledger) == *old(ledger)
            } else if old(ledger).has_cert(certificate_hash) {
                r == Err::<(), CertificateError>(CertificateError::DuplicateCertificate)
                    && *final(ledger) == *old(ledger)
            } else {
                r is Ok && final(ledger).certs() == old(ledger).certs().push(
                    Certificate {
                        certificate_hash,
                        issuer,
                        is_valid: true,
                        issued_at: now,
                        corrected_at: None,
                        replacement_hash: None,
                    },
                )
            }
        }),
{
    let reg = match check_registry(registry_account, validator_program_id) {
        Ok(reg) => reg,
        Err(e) => {
            return Err(e);
        },
    };
    let registered = reg.is_institute_registered(&issuer);
    proof {
        lemma_ids_bytes_contains(reg@.members, issuer);
    }
    if !registered {
        return Err(CertificateError::IssuerNotRegistered);
    }
    if find_certificate(&ledger.certificates, &certificate_hash).is_some() {
        return Err(CertificateError::DuplicateCertificate);
    }
    ledger.certificates.push(
        Certificate {
            certificate_hash,
            issuer,
            is_valid: true,
            issued_at: now,
            corrected_at: None,
            replacement_hash: None,
        },
    );
    proof {
        assert forall|i: int|
            0 <= i < ledger.certs().len() && !(#[trigger] ledger.certs()[i]).is_valid implies
        ledger.has_cert(ledger.certs()[i].replacement_hash->0) by {
            assert(i < old(ledger).certs().len());
            let h = old(ledger).certs()[i].replacement_hash->0;
            let k = old(ledger).cert_at(h);
            assert(old(ledger).certs()[k].certificate_hash == h);
            assert(ledger.certs()[k].certificate_hash == h);
        }
    }
    Ok(())
}

/// Correct the certificate at `old_hash`: mark it superseded and issue the
/// replacement at `new_hash`, atomically — the old certificate is
/// invalidated, with its correction time and superseding hash, in the same
/// step that creates the new one.
///
/// Only the original issuer may correct, the registry trust check is
/// repeated, and the issuer must be a member *now* — membership at the
/// original issuance does not count. A certificate can be corrected at
/// most once.
pub fn correct_certificate(
    ledger: &mut CertificateLedger,
    old_hash: [u8; 32],
    new_hash: [u8; 32],
    issuer: [u8; 32],
    registry_account: &StoredAccount,
    validator_program_id: &[u8; 32],
    now: i64,
) -> (r: Result<(), CertificateError>)
    requires
        old(ledger).wf(),
        old(ledger).has_cert(old_hash),
    ensures
        final(ledger).wf(),
        ({
            let stored = old(ledger).cert(old_hash);
            let trusted = trusted_registry(
                registry_account.address@,
                registry_account.owner@,
                validator_program_id@,
            );
            let decoded = spec_decode_registry(registry_account.data@);
            if stored.issuer != issuer {
                r == Err::<(), CertificateError>(CertificateError::UnauthorizedIssuer)
                    && *final(ledger) == *old(ledger)
            } else if !trusted {
                r == Err::<(), CertificateError>(CertificateError::InvalidInstituteRegistry)
                    && *final(ledger) == *old(ledger)
            } else if decoded is None {
                r == Err::<(), CertificateError>(CertificateError::MalformedRegistry)
                    && *final(ledger) == *old(ledger)
            } else if !decoded->0.members.contains(issuer@) {
                r == Err::<(), CertificateError>(CertificateError::IssuerNotRegistered)
                    && *final(ledger) == *old(ledger)
            } else if !stored.is_valid {
                r == Err::<(), CertificateError>(CertificateError::CertificateAlreadyInvalid)
                    && *final(ledger) == *old(ledger)
            } else if old(ledger).has_cert(new_hash) {
                r == Err::<(), CertificateError>(CertificateError::DuplicateCertificate)
                    && *final(ledger) == *old(ledger)
            } else {
                &&& r is Ok
                &&& final(ledger).certs() == old(ledger).certs().update(
                    old(ledger).cert_at(old_hash),
                    Certificate {
                        certificate_hash: stored.certificate_hash,
                        issuer: stored.issuer,
                        is_valid: false,
                        issued_at: stored.issued_at,
                        corrected_at: Some(now),
                        replacement_hash: Some(new_hash),
                    },
                ).push(
                    Certificate {
                        certificate_hash: new_hash,
                        issuer,
                        is_valid: true,
                        issued_at: now,
                        corrected_at: None,
                        replacement_hash: None,
                    },
                )
            }
        }),
{
    let idx = match find_certificate(&ledger.certificates, &old_hash) {
        Some(i) => i,
        None => {
            proof {
                assert(false);
            }
            return Err(CertificateError::InvalidCertificateHash);
        },
    };
    proof {
        lemma_cert_at(*ledger, idx as int, old_hash);
    }
    let stored = ledger.certificates[idx];
    if !id_eq(&stored.issuer, &issuer) {
        return Err(CertificateError::UnauthorizedIssuer);
    }
    // Defensive double check against address/content desync; with
    // content-keyed storage the stored hash always matches.
    if !id_eq(&stored.certificate_hash, &old_hash) {
        return Err(CertificateError::InvalidCertificateHash);
    }
    let reg = match check_registry(registry_account, validator_program_id) {
        Ok(reg) => reg,
        Err(e) => {
            return Err(e);
        },
    };
    let registered = reg.is_institute_registered(&issuer);
    proof {
        lemma_ids_bytes_contains(reg@.members, issuer);
    }
    if !registered {
        return Err(CertificateError::IssuerNotRegistered);
    }
    if !stored.is_valid {
        return Err(CertificateError::CertificateAlreadyInvalid);
    }
    if find_certificate(&ledger.certificates, &new_hash).is_some() {
        return Err(CertificateError::DuplicateCertificate);
    }
    ledger.certificates[idx] = Certificate {
        certificate_hash: stored.certificate_hash,
        issuer: stored.issuer,
        is_valid: false,
        issued_at: stored.issued_at,
        corrected_at: Some(now),
        replacement_hash: Some(new_hash),
    };
    ledger.certificates.push(
        Certificate {
            certificate_hash: new_hash,
            issuer,
            is_valid: true,
            issued_at: now,
            corrected_at: None,
            replacement_hash: None,
        },
    );
    proof {
        let n = old(ledger).certs().len() as int;
        assert forall|i: int, j: int| 0 <= i < j < ledger.certs().len() implies (
        #[trigger] ledger.certs()[i]).certificate_hash != (
        #[trigger] ledger.certs()[j]).certificate_hash by {
            if j < n {
                assert(old(ledger).certs()[i].certificate_hash != old(
                    ledger,
                ).certs()[j].certificate_hash);
            }
        }
        assert forall|i: int|
            0 <= i < ledger.certs().len() && !(#[trigger] ledger.certs()[i]).is_valid implies
        ledger.has_cert(ledger.certs()[i].replacement_hash->0) by {
            assert(ledger.certs()[n].certificate_hash == new_hash);
            if i == idx as int {
                assert(ledger.certs()[i].replacement_hash->0 == new_hash);
            } else if i < n {
                let h = old(ledger).certs()[i].replacement_hash->0;
                let k = old(ledger).cert_at(h);
                assert(old(ledger).certs()[k].certificate_hash == h);
                assert(k != idx as int ==> ledger.certs()[k].certificate_hash == h);
                assert(k == idx as int ==> ledger.certs()[k].certificate_hash == h);
            }
        }
    }
    Ok(())
}

/// A read-only projection of the certificate at `certificate_hash`.
pub fn verify_certificate(ledger: &CertificateLedger, certificate_hash: &[u8; 32]) -> (r:
    CertificateStatus)
    requires
        ledger.wf(),
        ledger.has_cert(*certificate_hash),
    ensures
        ({
            let c = ledger.cert(*certificate_hash);
            &&& r.certificate_hash == c.certificate_hash
            &&& r.issuer == c.issuer
            &&& r.is_valid == c.is_valid
            &&& r.issued_at == c.issued_at
            &&& r.corrected_at == c.corrected_at
            &&& r.replacement_hash == c.replacement_hash
        }),
{
    let idx = match find_certificate(&ledger.certificates, certificate_hash) {
        Some(i) => i,
        None => {
            proof {
                assert(false);
            }
            return CertificateStatus {
                certificate_hash: *certificate_hash,
                issuer: *certificate_hash,
                is_valid: false,
                issued_at: 0,
                corrected_at: None,
                replacement_hash: None,
            };
        },
    };
    proof {
        lemma_cert_at(*ledger, idx as int, *certificate_hash);
    }
    let c = &ledger.certificates[idx];
    CertificateStatus {
        certificate_hash: c.certificate_hash,
        issuer: c.issuer,
        is_valid: c.is_valid,
        issued_at: c.issued_at,
        corrected_at: c.corrected_at,
        replacement_hash: c.replacement_hash,
    }
}

} // verus!
