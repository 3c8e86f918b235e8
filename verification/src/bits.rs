//! Bit order conventions shared by the witness and the SHA-256 gadget.
//!
//! A byte is expanded least significant bit first. The SHA-256 message
//! schedule reads each byte most significant bit first, so the bits of every
//! byte are mirrored on the way into the hash and again on the way out.

use vstd::prelude::*;

verus! {

/// Bit `i` of `v`, counted from the least significant bit.
pub open spec fn bit_of(v: u8, i: int) -> bool
    recommends
        0 <= i < 8,
{
    (v >> (i as u8)) & 1u8 == 1u8
}

/// The bits of `bytes`, each byte least significant bit first.
pub open spec fn bits_lsb_first(bytes: Seq<u8>) -> Seq<bool> {
    Seq::new(8 * bytes.len(), |j: int| bit_of(bytes[j / 8], j % 8))
}

/// The bits of `bytes`, each byte most significant bit first.
pub open spec fn bits_msb_first(bytes: Seq<u8>) -> Seq<bool> {
    Seq::new(8 * bytes.len(), |j: int| bit_of(bytes[j / 8], 7 - j % 8))
}

/// Where the element at position `i` comes from when every group of eight
/// elements of a sequence of length `len` is mirrored. A shorter last group
/// is mirrored within itself.
pub open spec fn mirrored_index(len: int, i: int) -> int {
    let start = i - i % 8;
    let end = if start + 8 <= len { start + 8 } else { len };
    start + end - 1 - i
}

/// `s` with the order of the elements reversed inside every group of eight.
pub open spec fn mirror_each_byte<B>(s: Seq<B>) -> Seq<B> {
    Seq::new(s.len(), |i: int| s[mirrored_index(s.len() as int, i)])
}

/// `<[T]>::swap` of std exchanges the elements at two positions of a slice and
/// leaves every other element where it was. It panics when a position is out
/// of bounds, which the precondition rules out.
pub assume_specification<T>[ <[T]>::swap ](slice: &mut [T], a: usize, b: usize)
    requires
        a < old(slice)@.len(),
        b < old(slice)@.len(),
    ensures
        final(slice)@ == old(slice)@.update(a as int, old(slice)@[b as int]).update(
            b as int,
            old(slice)@[a as int],
        ),
;

/// Reads bit `i` of `v`, counted from the least significant bit.
pub fn byte_bit(v: u8, i: usize) -> (bit: bool)
    requires
        i < 8,
    ensures
        bit == bit_of(v, i as int),
{
    let shift: u8 = i as u8;
    (v >> shift) & 1u8 == 1u8
}

/// Expands bytes into bits, each byte least significant bit first.
pub fn bytes_to_bits_le(bytes: &[u8]) -> (bits: Vec<bool>)
    requires
        8 * bytes.len() <= usize::MAX,
    ensures
        bits@ == bits_lsb_first(bytes@),
{
    let mut bits: Vec<bool> = Vec::new();
    let mut k: usize = 0;
    while k < bytes.len()
        invariant
            k <= bytes.len(),
            8 * bytes.len() <= usize::MAX,
            bits@ == bits_lsb_first(bytes@.take(k as int)),
        decreases bytes.len() - k,
    {
        let v: u8 = bytes[k];
        let ghost before = bits@;
        let mut i: usize = 0;
        while i < 8
            invariant
                i <= 8,
                k < bytes.len(),
                v == bytes@[k as int],
                before == bits_lsb_first(bytes@.take(k as int)),
                bits@ == before + Seq::new(i as nat, |j: int| bit_of(v, j)),
            decreases 8 - i,
        {
            bits.push(byte_bit(v, i));
            i += 1;
        }
        k += 1;
    }
    assert(bytes@.take(k as int) =~= bytes@);
    bits
}

/// Mirrors the elements inside every group of eight, in place of the bits of
/// one byte each. A shorter last group is mirrored within itself.
pub fn reverse_bits_per_byte<B>(bits: Vec<B>) -> (out: Vec<B>)
    ensures
        out@ == mirror_each_byte(bits@),
{
    let ghost orig = bits@;
    let mut v = bits;
    let n: usize = v.len();
    let mut start: usize = 0;
    while start < n
        invariant
            v@.len() == n,
            orig.len() == n,
            start <= n,
            start % 8 == 0 || start == n,
            forall|i: int| 0 <= i < start ==> v@[i] == orig[mirrored_index(n as int, i)],
            forall|i: int| start <= i < n ==> v@[i] == orig[i],
        decreases n - start,
    {
        let end: usize = if n - start >= 8 { start + 8 } else { n };
        let mut lo: usize = start;
        let mut hi: usize = end;
        while hi - lo >= 2
            invariant
                v@.len() == n,
                orig.len() == n,
                start < end <= n,
                start % 8 == 0,
                end == if start + 8 <= n { start + 8 } else { n as int },
                start <= lo <= hi <= end,
                lo - start == end - hi,
                forall|i: int| 0 <= i < start ==> v@[i] == orig[mirrored_index(n as int, i)],
                forall|i: int| start <= i < lo ==> v@[i] == orig[start + end - 1 - i],
                forall|i: int| lo <= i < hi ==> v@[i] == orig[i],
                forall|i: int| hi <= i < end ==> v@[i] == orig[start + end - 1 - i],
                forall|i: int| end <= i < n ==> v@[i] == orig[i],
            decreases hi - lo,
        {
            hi -= 1;
            v.as_mut_slice().swap(lo, hi);
            lo += 1;
        }
        assert forall|i: int| 0 <= i < end implies v@[i] == orig[mirrored_index(n as int, i)] by {
            if i >= start {
                assert(i - i % 8 == start);
            }
        }
        start = end;
    }
    v
}

/// Mirroring twice gives the sequence back.
pub proof fn lemma_mirror_is_involution<B>(s: Seq<B>)
    ensures
        mirror_each_byte(mirror_each_byte(s)) == s,
{
    let n = s.len() as int;
    assert forall|i: int| 0 <= i < n implies mirrored_index(n, #[trigger] mirrored_index(n, i))
        == i && 0 <= mirrored_index(n, i) < n by {
        // the element stays inside its group
        let m = mirrored_index(n, i);
        assert(m - m % 8 == i - i % 8);
    }
}

/// Mirroring the bits of whole bytes turns least significant bit first into
/// most significant bit first, the order of the SHA-256 message schedule.
pub proof fn lemma_mirror_turns_lsb_into_msb(bytes: Seq<u8>)
    ensures
        mirror_each_byte(bits_lsb_first(bytes)) == bits_msb_first(bytes),
        mirror_each_byte(bits_msb_first(bytes)) == bits_lsb_first(bytes),
{
    let n = 8 * bytes.len() as int;
    assert forall|j: int| 0 <= j < n implies 0 <= #[trigger] mirrored_index(n, j) < n
        && mirrored_index(n, j) / 8 == j / 8 && mirrored_index(n, j) % 8 == 7 - j % 8 by {
        // every group is a whole byte
        assert(j - j % 8 + 8 <= n);
    }
}

} // verus!
