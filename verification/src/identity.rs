//! Member identities: opaque 32-byte public identifiers, compared only for
//! equality.

use vstd::prelude::*;

verus! {

/// Compare two identities byte by byte.
pub fn id_eq(a: &[u8; 32], b: &[u8; 32]) -> (r: bool)
    ensures
        r == (*a == *b),
{
    let mut i: usize = 0;
    while i < 32
        invariant
            0 <= i <= 32,
            forall|j: int| 0 <= j < i ==> a@[j] == b@[j],
        decreases 32 - i,
    {
        if a[i] != b[i] {
            assert(a@[i as int] != b@[i as int]);
            assert(*a != *b);
            return false;
        }
        i += 1;
    }
    proof {
        assert(*a =~= *b);
    }
    true
}

/// Two identities are equal exactly when their byte sequences are.
pub proof fn lemma_id_view_eq(a: [u8; 32], b: [u8; 32])
    ensures
        (a@ == b@) <==> (a == b),
{
    if a@ == b@ {
        assert(a =~= b);
    }
}

/// The position of the first occurrence of `x` among the identities in
/// `v`, if any.
pub fn index_of_id(v: &Vec<[u8; 32]>, x: &[u8; 32]) -> (r: Option<usize>)
    ensures
        match r {
            Some(i) => 0 <= i < v@.len() && v@[i as int] == *x && (forall|j: int|
                0 <= j < i ==> v@[j] != *x),
            None => !v@.contains(*x),
        },
{
    let mut i: usize = 0;
    while i < v.len()
        invariant
            0 <= i <= v@.len(),
            forall|j: int| 0 <= j < i ==> v@[j] != *x,
        decreases v@.len() - i,
    {
        if id_eq(&v[i], x) {
            return Some(i);
        }
        i += 1;
    }
    None
}

/// Whether `x` occurs among the identities in `v`.
pub fn contains_id(v: &Vec<[u8; 32]>, x: &[u8; 32]) -> (r: bool)
    ensures
        r == v@.contains(*x),
{
    let mut i: usize = 0;
    while i < v.len()
        invariant
            0 <= i <= v@.len(),
            forall|j: int| 0 <= j < i ==> v@[j] != *x,
        decreases v@.len() - i,
    {
        if id_eq(&v[i], x) {
            return true;
        }
        i += 1;
    }
    false
}

} // verus!
