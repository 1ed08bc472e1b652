//! Deterministic addressing: every entity lives at an address that is a
//! pure function of a domain tag and the deriving program, so at most one
//! entity can ever occupy an address. The certificate ledger re-derives
//! the registry's canonical address itself on every call instead of
//! trusting the caller's claims.

use vstd::prelude::*;

verus! {

/// The program-derived address returned by the outside derivation for one
/// seed under one deriving program: a pure function of the two, `None` in
/// the statistically improbable case that no valid address exists.
pub uninterp spec fn derived_address(seed: Seq<u8>, program: Seq<u8>) -> Option<Seq<u8>>;

/// Relies on `Pubkey::try_find_program_address` (solana-pubkey): the
/// returned program-derived address depends on the seeds and the program
/// id alone, and is `None` exactly when no bump seed yields a valid
/// address.
#[verifier::external_body]
fn find_derived_address(seed: &[u8], program_id: &[u8; 32]) -> (r: Option<[u8; 32]>)
    ensures
        match r {
            Some(a) => derived_address(seed@, program_id@) == Some(a@),
            None => derived_address(seed@, program_id@) is None,
        },
{
    let program = anchor_lang::solana_program::pubkey::Pubkey::new_from_array(*program_id);
    anchor_lang::solana_program::pubkey::Pubkey::try_find_program_address(&[seed], &program).map(
        |found: (anchor_lang::solana_program::pubkey::Pubkey, u8)| found.0.to_bytes(),
    )
}

/// The fixed domain tag of the registry singleton: the bytes of
/// `institute_registry`.
pub open spec fn registry_tag() -> Seq<u8> {
    seq![
        105u8,
        110u8,
        115u8,
        116u8,
        105u8,
        116u8,
        117u8,
        116u8,
        101u8,
        95u8,
        114u8,
        101u8,
        103u8,
        105u8,
        115u8,
        116u8,
        114u8,
        121u8,
    ]
}

/// The registry tag as bytes.
pub fn registry_tag_bytes() -> (r: Vec<u8>)
    ensures
        r@ == registry_tag(),
{
    let mut v: Vec<u8> = Vec::new();
    v.push(105);
    v.push(110);
    v.push(115);
    v.push(116);
    v.push(105);
    v.push(116);
    v.push(117);
    v.push(116);
    v.push(101);
    v.push(95);
    v.push(114);
    v.push(101);
    v.push(103);
    v.push(105);
    v.push(115);
    v.push(116);
    v.push(114);
    v.push(121);
    proof {
        assert(v@ =~= registry_tag());
    }
    v
}

/// The canonical address of the membership registry administered by the
/// given validator program.
pub open spec fn registry_address(program: Seq<u8>) -> Option<Seq<u8>> {
    derived_address(registry_tag(), program)
}

/// Re-derive the canonical registry address for a validator program.
pub fn expected_registry_address(program_id: &[u8; 32]) -> (r: Option<[u8; 32]>)
    ensures
        match r {
            Some(a) => registry_address(program_id@) == Some(a@),
            None => registry_address(program_id@) is None,
        },
{
    let tag = registry_tag_bytes();
    find_derived_address(tag.as_slice(), program_id)
}

} // verus!
