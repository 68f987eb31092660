//! Small byte-string helpers: fixed-size prefixes and concatenation.
use vstd::prelude::*;

verus! {

/// The first `N` bytes of `src` as an array.
pub fn prefix_array<const N: usize>(src: &[u8]) -> (out: [u8; N])
    requires
        src@.len() >= N,
    ensures
        out@ == src@.take(N as int),
{
    let mut out: [u8; N] = [0u8; N];
    let mut i: usize = 0;
    while i < N
        invariant
            i <= N,
            src@.len() >= N,
            out@.len() == N,
            forall|j: int| 0 <= j < i ==> out@[j] == src@[j],
        decreases N - i,
    {
        out[i] = src[i];
        i = i + 1;
    }
    assert(out@ =~= src@.take(N as int));
    out
}

/// The bytes of `a` followed by those of `b`.
pub fn concat(a: &[u8], b: &[u8]) -> (out: Vec<u8>)
    ensures
        out@ == a@ + b@,
{
    let mut out: Vec<u8> = Vec::new();
    let mut i: usize = 0;
    while i < a.len()
        invariant
            i <= a@.len(),
            out@ == a@.take(i as int),
        decreases a@.len() - i,
    {
        out.push(a[i]);
        i = i + 1;
        assert(out@ =~= a@.take(i as int));
    }
    let mut j: usize = 0;
    while j < b.len()
        invariant
            j <= b@.len(),
            i == a@.len(),
            out@ == a@ + b@.take(j as int),
        decreases b@.len() - j,
    {
        out.push(b[j]);
        j = j + 1;
        assert(out@ =~= a@ + b@.take(j as int));
    }
    assert(a@.take(a@.len() as int) =~= a@);
    assert(b@.take(b@.len() as int) =~= b@);
    out
}

} // verus!
