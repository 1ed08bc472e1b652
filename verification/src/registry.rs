//! The membership registry: the singleton set of trusted institute
//! identities, plus the administrative authority that may remove a member
//! without a vote.

use vstd::prelude::*;
use crate::identity::contains_id;

verus! {

/// Mathematical image of a registry: its members, in admission order, and
/// its administrative authority.
#[verifier::ext_equal]
pub struct RegistryView {
    pub members: Seq<[u8; 32]>,
    pub authority: [u8; 32],
}

impl RegistryView {
    /// The members sequence never holds the same identity twice.
    pub open spec fn wf(self) -> bool {
        forall|i: int, j: int| 0 <= i < j < self.members.len() ==> self.members[i] != self.members[j]
    }
}

/// The set of currently admitted institutes together with the identity
/// allowed to perform unilateral administrative removal.
pub struct InstituteRegistry {
    /// Identities of all admitted institutes, in admission order, without
    /// duplicates.
    pub registered_institutes: Vec<[u8; 32]>,
    /// Identity permitted to remove an institute without an election.
    pub authority: [u8; 32],
}

impl View for InstituteRegistry {
    type V = RegistryView;

    open spec fn view(&self) -> RegistryView {
        RegistryView { members: self.registered_institutes@, authority: self.authority }
    }
}

impl InstituteRegistry {
    /// Bytes of the stored layout besides the members themselves: the 8-byte
    /// member count and the 32-byte authority.
    pub const BASE_LEN: usize = 8 + 32;

    pub open spec fn wf(self) -> bool {
        self@.wf()
    }

    /// Pure lookup: whether `institute` is currently a member.
    pub fn is_institute_registered(&self, institute: &[u8; 32]) -> (r: bool)
        ensures
            r == self@.members.contains(*institute),
    {
        contains_id(&self.registered_institutes, institute)
    }

    /// Storage bytes needed for a registry holding `num_institutes` members.
    pub fn space(num_institutes: usize) -> (r: usize)
        requires
            num_institutes <= (usize::MAX - 40) / 32,
        ensures
            r == 40 + num_institutes * 32,
    {
        Self::BASE_LEN + num_institutes * 32
    }
}

} // verus!
