//! Small verified helpers on byte vectors, shared by the codec and the
//! dining-cryptographers round: zero-filled buffers and pointwise XOR.

use vstd::prelude::*;

verus! {

/// A sequence of `len` zero bytes.
pub open spec fn zeros(len: nat) -> Seq<u8> {
    Seq::new(len, |i: int| 0u8)
}

/// `acc` XORed pointwise with `b`; positions of `acc` beyond the end of
/// `b` are left as they are, and the length is that of `acc`.
pub open spec fn xor_with(acc: Seq<u8>, b: Seq<u8>) -> Seq<u8> {
    Seq::new(
        acc.len(),
        |i: int|
            if i < b.len() {
                acc[i] ^ b[i]
            } else {
                acc[i]
            },
    )
}

/// A vector of `len` zero bytes.
pub fn zero_vec(len: usize) -> (v: Vec<u8>)
    ensures
        v@ == zeros(len as nat),
{
    let mut v: Vec<u8> = Vec::new();
    while v.len() < len
        invariant
            v@ == zeros(v@.len()),
            v@.len() <= len,
        decreases len - v@.len(),
    {
        v.push(0u8);
        proof {
            assert(v@ =~= zeros(v@.len()));
        }
    }
    proof {
        assert(v@ =~= zeros(len as nat));
    }
    v
}

/// XORs `b` into `acc` pointwise, stopping at the end of the shorter one.
pub fn xor_in_place(acc: &mut Vec<u8>, b: &[u8])
    ensures
        final(acc)@ == xor_with(old(acc)@, b@),
{
    let n = if acc.len() < b.len() {
        acc.len()
    } else {
        b.len()
    };
    let mut i: usize = 0;
    while i < n
        invariant
            n <= acc@.len(),
            n <= b@.len(),
            i <= n,
            acc@.len() == old(acc)@.len(),
            forall|j: int| 0 <= j < i ==> acc@[j] == (old(acc)@[j] ^ b@[j]),
            forall|j: int| i <= j < acc@.len() ==> acc@[j] == old(acc)@[j],
        decreases n - i,
    {
        let x = acc[i] ^ b[i];
        acc.set(i, x);
        i = i + 1;
    }
    proof {
        assert(acc@ =~= xor_with(old(acc)@, b@));
    }
}

} // verus!
