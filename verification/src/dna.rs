//! The breeding engine: combines two parents' genetic payloads into a child
//! payload, byte by byte, under an entropy-derived selector.  Wherever a
//! selector bit is 1 the child inherits the corresponding bit of parent A,
//! wherever it is 0 the bit of parent B.

use vstd::prelude::*;

verus! {

/// Number of bytes in a genetic payload.
pub const DNA_BYTES: usize = 16;

/// One byte of the child payload: bits of `a` where `sel` has a 1 bit,
/// bits of `b` where it has a 0 bit.
pub open spec fn mix_byte(sel: u8, a: u8, b: u8) -> u8 {
    (sel & a) | (!sel & b)
}

/// The whole child payload as a function of the selector and the two
/// parent payloads alone.
pub open spec fn mix_dna(sel: Seq<u8>, a: Seq<u8>, b: Seq<u8>) -> Seq<u8> {
    Seq::new(DNA_BYTES as nat, |i: int| mix_byte(sel[i], a[i], b[i]))
}

/// Computes the child payload from the selector and the parents.
pub fn combine_dna(sel: &[u8; 16], a: &[u8; 16], b: &[u8; 16]) -> (r: [u8; 16])
    ensures
        r@ == mix_dna(sel@, a@, b@),
{
    let mut out: [u8; 16] = [0u8; 16];
    let mut i: usize = 0;
    while i < DNA_BYTES
        invariant
            i <= DNA_BYTES,
            out@.len() == DNA_BYTES,
            forall|j: int| 0 <= j < i ==> out@[j] == mix_byte(sel@[j], a@[j], b@[j]),
        decreases DNA_BYTES - i,
    {
        out[i] = (sel[i] & a[i]) | (!sel[i] & b[i]);
        i = i + 1;
    }
    proof {
        assert(out@ =~= mix_dna(sel@, a@, b@));
    }
    out
}

/// A selector byte of all ones makes the child inherit parent A's byte.
pub proof fn lemma_mix_byte_all_ones(a: u8, b: u8)
    ensures
        mix_byte(0xff, a, b) == a,
{
    assert((0xffu8 & a) | (!0xffu8 & b) == a) by (bit_vector);
}

/// A selector byte of all zeros makes the child inherit parent B's byte.
pub proof fn lemma_mix_byte_all_zeros(a: u8, b: u8)
    ensures
        mix_byte(0x00, a, b) == b,
{
    assert((0x00u8 & a) | (!0x00u8 & b) == b) by (bit_vector);
}

/// Per-bit selection: bit `j` of the child byte is bit `j` of parent A
/// when the selector has a 1 there, and bit `j` of parent B when it has a
/// 0 there.  Flipping a selector bit therefore flips which parent
/// contributes that bit.
pub proof fn lemma_mix_byte_bit(sel: u8, a: u8, b: u8, j: u8)
    requires
        j < 8,
    ensures
        (mix_byte(sel, a, b) >> j) & 1 == if (sel >> j) & 1 == 1 {
            (a >> j) & 1
        } else {
            (b >> j) & 1
        },
{
    assert(((((sel & a) | (!sel & b)) >> j) & 1) == if (sel >> j) & 1 == 1 {
        (a >> j) & 1
    } else {
        (b >> j) & 1
    }) by (bit_vector)
        requires
            j < 8,
    ;
}

/// Breeding determinism: the child payload is a function of the selector
/// and the parent payloads alone, so two breeds that read equal parent
/// payloads under equal entropy produce equal children.
pub proof fn lemma_breeding_deterministic(
    sel: Seq<u8>,
    a: Seq<u8>,
    b: Seq<u8>,
    r1: Seq<u8>,
    r2: Seq<u8>,
)
    requires
        r1 == mix_dna(sel, a, b),
        r2 == mix_dna(sel, a, b),
    ensures
        r1 == r2,
{
}

} // verus!
