//! The registry's stored byte layout, as read across the trust boundary by
//! the certificate ledger: an 8-byte little-endian member count, the
//! members' 32-byte identities in order, then the 32-byte authority.

use vstd::prelude::*;
use crate::registry::InstituteRegistry;

verus! {

/// What a well-formed registry byte image holds: each member identity and
/// the authority as 32-byte sequences.
#[verifier::ext_equal]
pub struct RegistryImage {
    pub members: Seq<Seq<u8>>,
    pub authority: Seq<u8>,
}

/// The byte sequences of a sequence of identities.
pub open spec fn ids_bytes(s: Seq<[u8; 32]>) -> Seq<Seq<u8>> {
    Seq::new(s.len(), |i: int| s[i]@)
}

/// An identity occurs in a sequence of identities exactly when its bytes
/// occur among their byte sequences.
pub proof fn lemma_ids_bytes_contains(s: Seq<[u8; 32]>, x: [u8; 32])
    ensures
        ids_bytes(s).contains(x@) <==> s.contains(x),
{
    if ids_bytes(s).contains(x@) {
        let i = choose|i: int| 0 <= i < ids_bytes(s).len() && ids_bytes(s)[i] == x@;
        crate::identity::lemma_id_view_eq(s[i], x);
        assert(s.contains(x));
    }
    if s.contains(x) {
        let i = choose|i: int| 0 <= i < s.len() && s[i] == x;
        assert(ids_bytes(s)[i] == x@);
        assert(ids_bytes(s).contains(x@));
    }
}

/// A `u64` read from 8 little-endian bytes.
pub open spec fn u64_from_le(s: Seq<u8>) -> u64
    recommends
        s.len() == 8,
{
    (s[0] as u64) | ((s[1] as u64) << 8) | ((s[2] as u64) << 16) | ((s[3] as u64) << 24) | ((
    s[4] as u64) << 32) | ((s[5] as u64) << 40) | ((s[6] as u64) << 48) | ((s[7] as u64) << 56)
}

/// The 8 little-endian bytes of a `u64`.
pub open spec fn u64_le_bytes(n: u64) -> Seq<u8> {
    seq![
        (n & 0xff) as u8,
        ((n >> 8) & 0xff) as u8,
        ((n >> 16) & 0xff) as u8,
        ((n >> 24) & 0xff) as u8,
        ((n >> 32) & 0xff) as u8,
        ((n >> 40) & 0xff) as u8,
        ((n >> 48) & 0xff) as u8,
        ((n >> 56) & 0xff) as u8,
    ]
}

pub proof fn lemma_u64_le_round_trip(n: u64)
    ensures
        u64_from_le(u64_le_bytes(n)) == n,
{
    assert((((n & 0xff) as u8) as u64) | (((((n >> 8) & 0xff) as u8) as u64) << 8) | (((((n >> 16)
        & 0xff) as u8) as u64) << 16) | (((((n >> 24) & 0xff) as u8) as u64) << 24) | (((((n >> 32)
        & 0xff) as u8) as u64) << 32) | (((((n >> 40) & 0xff) as u8) as u64) << 40) | (((((n >> 48)
        & 0xff) as u8) as u64) << 48) | (((((n >> 56) & 0xff) as u8) as u64) << 56) == n)
        by (bit_vector);
}

/// The identities' bytes laid end to end.
pub open spec fn concat_ids(s: Seq<Seq<u8>>) -> Seq<u8>
    decreases s.len(),
{
    if s.len() == 0 {
        Seq::empty()
    } else {
        s[0] + concat_ids(s.drop_first())
    }
}

pub proof fn lemma_concat_ids_snoc(s: Seq<Seq<u8>>, x: Seq<u8>)
    ensures
        concat_ids(s.push(x)) == concat_ids(s) + x,
    decreases s.len(),
{
    assert(s.push(x).len() == s.len() + 1);
    assert(s.push(x)[0] == if s.len() == 0 {
        x
    } else {
        s[0]
    });
    if s.len() == 0 {
        assert(s.push(x).drop_first() =~= Seq::<Seq<u8>>::empty());
        assert(concat_ids(Seq::<Seq<u8>>::empty()) =~= Seq::<u8>::empty());
        assert(concat_ids(s.push(x)) =~= x + Seq::<u8>::empty());
        assert(concat_ids(s) =~= Seq::<u8>::empty());
        assert(concat_ids(s.push(x)) =~= concat_ids(s) + x);
    } else {
        assert(s.push(x).drop_first() =~= s.drop_first().push(x));
        lemma_concat_ids_snoc(s.drop_first(), x);
        assert(concat_ids(s.push(x)) =~= concat_ids(s) + x);
    }
}

pub proof fn lemma_concat_ids_len(s: Seq<Seq<u8>>)
    requires
        forall|i: int| 0 <= i < s.len() ==> (#[trigger] s[i]).len() == 32,
    ensures
        concat_ids(s).len() == 32 * s.len(),
    decreases s.len(),
{
    if s.len() > 0 {
        lemma_concat_ids_len(s.drop_first());
    }
}

pub proof fn lemma_concat_ids_index(s: Seq<Seq<u8>>, i: int)
    requires
        forall|k: int| 0 <= k < s.len() ==> (#[trigger] s[k]).len() == 32,
        0 <= i < s.len(),
    ensures
        concat_ids(s).subrange(32 * i, 32 * i + 32) == s[i],
    decreases i,
{
    lemma_concat_ids_len(s);
    lemma_concat_ids_len(s.drop_first());
    if i == 0 {
        assert(concat_ids(s).subrange(0, 32) =~= s[0]);
    } else {
        lemma_concat_ids_index(s.drop_first(), i - 1);
        assert(concat_ids(s).subrange(32 * i, 32 * i + 32) =~= concat_ids(
            s.drop_first(),
        ).subrange(32 * (i - 1), 32 * (i - 1) + 32));
    }
}

/// The stored bytes of a registry with the given members and authority.
pub open spec fn spec_encode_registry(members: Seq<[u8; 32]>, authority: [u8; 32]) -> Seq<u8> {
    u64_le_bytes(members.len() as u64) + concat_ids(ids_bytes(members)) + authority@
}

/// The registry image held by a byte sequence, if the bytes are a
/// well-formed registry layout.
pub open spec fn spec_decode_registry(data: Seq<u8>) -> Option<RegistryImage> {
    if data.len() < 40 {
        None
    } else {
        let n = u64_from_le(data.take(8)) as int;
        if data.len() == 40 + 32 * n {
            Some(RegistryImage {
                members: Seq::new(n as nat, |i: int| data.subrange(8 + 32 * i, 8 + 32 * i + 32)),
                authority: data.subrange(data.len() - 32, data.len() as int),
            })
        } else {
            None
        }
    }
}

/// Round trip: decoding what a registry encodes to yields exactly that
/// registry's image, whatever its members and authority.
pub proof fn lemma_registry_round_trip(members: Seq<[u8; 32]>, authority: [u8; 32])
    requires
        members.len() <= u64::MAX,
    ensures
        spec_decode_registry(spec_encode_registry(members, authority)) == Some(RegistryImage {
            members: ids_bytes(members),
            authority: authority@,
        }),
{
    let n = members.len() as int;
    let data = spec_encode_registry(members, authority);
    lemma_concat_ids_len(ids_bytes(members));
    assert(data.len() == 40 + 32 * n);
    assert(data.take(8) =~= u64_le_bytes(members.len() as u64));
    lemma_u64_le_round_trip(members.len() as u64);
    let img = spec_decode_registry(data)->0;
    assert forall|i: int| 0 <= i < n implies img.members[i] == ids_bytes(members)[i] by {
        lemma_concat_ids_index(ids_bytes(members), i);
        assert(data.subrange(8 + 32 * i, 8 + 32 * i + 32) =~= concat_ids(
            ids_bytes(members),
        ).subrange(32 * i, 32 * i + 32));
    }
    assert(img.members =~= ids_bytes(members));
    assert(img.authority =~= authority@);
    assert(img =~= RegistryImage { members: ids_bytes(members), authority: authority@ });
}

/// Append an identity's 32 bytes.
fn push_id(out: &mut Vec<u8>, id: &[u8; 32])
    ensures
        final(out)@ == old(out)@ + id@,
{
    let mut k: usize = 0;
    while k < 32
        invariant
            0 <= k <= 32,
            out@ == old(out)@ + id@.take(k as int),
        decreases 32 - k,
    {
        out.push(id[k]);
        proof {
            assert(out@ =~= old(out)@ + id@.take(k + 1));
        }
        k += 1;
    }
    proof {
        assert(old(out)@ + id@.take(32) =~= old(out)@ + id@);
    }
}

/// Serialize a registry into its stored byte layout.
pub fn encode_registry(reg: &InstituteRegistry) -> (r: Vec<u8>)
    ensures
        r@ == spec_encode_registry(reg@.members, reg@.authority),
{
    let mut out: Vec<u8> = Vec::new();
    let n: u64 = reg.registered_institutes.len() as u64;
    out.push((n & 0xff) as u8);
    out.push(((n >> 8) & 0xff) as u8);
    out.push(((n >> 16) & 0xff) as u8);
    out.push(((n >> 24) & 0xff) as u8);
    out.push(((n >> 32) & 0xff) as u8);
    out.push(((n >> 40) & 0xff) as u8);
    out.push(((n >> 48) & 0xff) as u8);
    out.push(((n >> 56) & 0xff) as u8);
    proof {
        assert(out@ =~= u64_le_bytes(n));
    }
    let mut i: usize = 0;
    while i < reg.registered_institutes.len()
        invariant
            0 <= i <= reg.registered_institutes@.len(),
            out@ == u64_le_bytes(reg.registered_institutes@.len() as u64) + concat_ids(
                ids_bytes(reg.registered_institutes@).take(i as int),
            ),
        decreases reg.registered_institutes@.len() - i,
    {
        push_id(&mut out, &reg.registered_institutes[i]);
        proof {
            let ids = ids_bytes(reg.registered_institutes@);
            assert(ids.take(i + 1) =~= ids.take(i as int).push(ids[i as int]));
            lemma_concat_ids_snoc(ids.take(i as int), ids[i as int]);
            assert(out@ =~= u64_le_bytes(reg.registered_institutes@.len() as u64) + concat_ids(
                ids.take(i + 1),
            ));
        }
        i += 1;
    }
    proof {
        let ids = ids_bytes(reg.registered_institutes@);
        assert(ids.take(ids.len() as int) =~= ids);
    }
    push_id(&mut out, &reg.authority);
    out
}

/// Parse a registry from its stored byte layout; yields the members and
/// authority exactly when the bytes are a well-formed layout.
pub fn decode_registry(data: &Vec<u8>) -> (r: Option<InstituteRegistry>)
    ensures
        match r {
            Some(reg) => spec_decode_registry(data@) matches Some(img) && ids_bytes(reg@.members)
                == img.members && reg@.authority@ == img.authority,
            None => spec_decode_registry(data@) is None,
        },
{
    if data.len() < 40 {
        return None;
    }
    let n: u64 = (data[0] as u64) | ((data[1] as u64) << 8) | ((data[2] as u64) << 16) | ((
    data[3] as u64) << 24) | ((data[4] as u64) << 32) | ((data[5] as u64) << 40) | ((
    data[6] as u64) << 48) | ((data[7] as u64) << 56);
    proof {
        assert(data@.take(8)[0] == data@[0] && data@.take(8)[1] == data@[1] && data@.take(8)[2]
            == data@[2] && data@.take(8)[3] == data@[3] && data@.take(8)[4] == data@[4]
            && data@.take(8)[5] == data@[5] && data@.take(8)[6] == data@[6] && data@.take(8)[7]
            == data@[7]);
    }
    if n > ((usize::MAX - 40) / 32) as u64 {
        proof {
            assert(40 + 32 * (n as int) > usize::MAX);
        }
        return None;
    }
    let need: usize = 40 + 32 * (n as usize);
    if data.len() != need {
        return None;
    }
    let mut members: Vec<[u8; 32]> = Vec::new();
    let mut i: usize = 0;
    while i < n as usize
        invariant
            0 <= i <= n,
            data@.len() == 40 + 32 * (n as int),
            40 + 32 * (n as int) <= usize::MAX,
            members@.len() == i,
            forall|j: int|
                0 <= j < i ==> (#[trigger] members@[j])@ == data@.subrange(
                    8 + 32 * j,
                    8 + 32 * j + 32,
                ),
        decreases n - i,
    {
        let mut id: [u8; 32] = [0u8; 32];
        let mut k: usize = 0;
        while k < 32
            invariant
                0 <= k <= 32,
                0 <= i < n,
                data@.len() == 40 + 32 * (n as int),
                40 + 32 * (n as int) <= usize::MAX,
                id@.len() == 32,
                forall|m: int| 0 <= m < k ==> id@[m] == data@[8 + 32 * (i as int) + m],
            decreases 32 - k,
        {
            id[k] = data[8 + 32 * i + k];
            k += 1;
        }
        proof {
            assert(id@ =~= data@.subrange(8 + 32 * (i as int), 8 + 32 * (i as int) + 32));
        }
        members.push(id);
        i += 1;
    }
    let mut authority: [u8; 32] = [0u8; 32];
    let base: usize = 8 + 32 * (n as usize);
    let mut k: usize = 0;
    while k < 32
        invariant
            0 <= k <= 32,
            base == 8 + 32 * (n as int),
            data@.len() == 40 + 32 * (n as int),
            40 + 32 * (n as int) <= usize::MAX,
            authority@.len() == 32,
            forall|m: int| 0 <= m < k ==> authority@[m] == data@[base + m],
        decreases 32 - k,
    {
        authority[k] = data[base + k];
        k += 1;
    }
    proof {
        assert(authority@ =~= data@.subrange(data@.len() - 32, data@.len() as int));
        let img = spec_decode_registry(data@)->0;
        assert(ids_bytes(members@) =~= img.members);
    }
    Some(InstituteRegistry { registered_institutes: members, authority })
}

} // verus!
