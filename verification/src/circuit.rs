//! The statement circuit: knowledge of 80 bytes whose double SHA-256 digest
//! is the public input.
//!
//! The circuit is described by its witness: one Boolean per bit of the
//! preimage, bytes in order, each byte least significant bit first. Without a
//! preimage the circuit keeps its shape and every assignment is absent, which
//! is what parameter generation needs.

use crate::bits::{bits_lsb_first, bytes_to_bits_le};
use vstd::prelude::*;
use vstd::string::StringExecFns;

verus! {

/// Length of the preimage in bytes.
pub const PREIMAGE_LEN: usize = 80;

/// Number of Boolean witnesses that carry the preimage.
pub const PREIMAGE_BITS: usize = 640;

/// Number of bits of the digest that the circuit exposes.
pub const DIGEST_BITS: usize = 256;

/// The circuit for one statement, with the preimage where it is known.
pub struct FFICircuit {
    pub preimage: Option<[u8; 80]>,
}

/// The assignments of the 640 preimage witnesses: the bits of the preimage,
/// least significant bit of each byte first, or nothing at every position
/// when no preimage is known.
pub open spec fn witness_assignment(preimage: Option<Seq<u8>>) -> Seq<Option<bool>> {
    Seq::new(
        640,
        |i: int|
            match preimage {
                Some(p) => Some(bits_lsb_first(p)[i]),
                None => None,
            },
    )
}

/// The character of the decimal digit `d`.
pub open spec fn digit(d: nat) -> char
    recommends
        d < 10,
{
    if d == 0 {
        '0'
    } else if d == 1 {
        '1'
    } else if d == 2 {
        '2'
    } else if d == 3 {
        '3'
    } else if d == 4 {
        '4'
    } else if d == 5 {
        '5'
    } else if d == 6 {
        '6'
    } else if d == 7 {
        '7'
    } else if d == 8 {
        '8'
    } else {
        '9'
    }
}

/// `n` written in decimal, without leading zeros.
pub open spec fn decimal(n: nat) -> Seq<char>
    decreases n,
{
    if n < 10 {
        seq![digit(n)]
    } else {
        decimal(n / 10).push(digit(n % 10))
    }
}

/// The name under which the witness of preimage bit `i` is allocated.
pub open spec fn bit_name(i: nat) -> Seq<char> {
    "preimage bit "@ + decimal(i)
}

/// Digits given least significant first, written most significant first.
spec fn written(digits: Seq<usize>) -> Seq<char> {
    Seq::new(digits.len(), |k: int| digit(digits[digits.len() - 1 - k] as nat))
}

/// The digits of `n` that are still to be written in front: none for zero.
spec fn leading(n: nat) -> Seq<char> {
    if n == 0 {
        Seq::empty()
    } else {
        decimal(n)
    }
}

fn digit_str(d: usize) -> (s: &'static str)
    requires
        d < 10,
    ensures
        s@ == seq![digit(d as nat)],
{
    proof {
        reveal_strlit("0");
        reveal_strlit("1");
        reveal_strlit("2");
        reveal_strlit("3");
        reveal_strlit("4");
        reveal_strlit("5");
        reveal_strlit("6");
        reveal_strlit("7");
        reveal_strlit("8");
        reveal_strlit("9");
    }
    let s = if d == 0 {
        "0"
    } else if d == 1 {
        "1"
    } else if d == 2 {
        "2"
    } else if d == 3 {
        "3"
    } else if d == 4 {
        "4"
    } else if d == 5 {
        "5"
    } else if d == 6 {
        "6"
    } else if d == 7 {
        "7"
    } else if d == 8 {
        "8"
    } else {
        "9"
    };
    s
}

/// Names the witness of preimage bit `i`. The names of different bits
/// differ, so every witness has a place of its own in the constraint system.
pub fn bit_label(i: usize) -> (label: String)
    ensures
        label@ == bit_name(i as nat),
{
    let mut digits: Vec<usize> = Vec::new();
    digits.push(i % 10);
    let mut rest: usize = i / 10;
    while rest > 0
        invariant
            forall|k: int| 0 <= k < digits@.len() ==> digits@[k] < 10,
            decimal(i as nat) == leading(rest as nat) + written(digits@),
        decreases rest,
    {
        digits.push(rest % 10);
        rest = rest / 10;
    }
    let mut label: String = String::from_str("preimage bit ");
    let mut k: usize = digits.len();
    while k > 0
        invariant
            k <= digits@.len(),
            forall|j: int| 0 <= j < digits@.len() ==> digits@[j] < 10,
            label@ == "preimage bit "@ + written(digits@).take(digits@.len() - k),
        decreases k,
    {
        k -= 1;
        label.append(digit_str(digits[k]));
    }
    label
}

/// A number in decimal has at least one digit, and exactly one when it is
/// less than ten.
proof fn lemma_decimal_len(n: nat)
    ensures
        decimal(n).len() >= 1,
        n < 10 <==> decimal(n).len() == 1,
    decreases n,
{
    if n >= 10 {
        lemma_decimal_len(n / 10);
    }
}

/// Different numbers are written differently.
pub proof fn lemma_decimal_is_injective(n: nat, m: nat)
    requires
        decimal(n) == decimal(m),
    ensures
        n == m,
    decreases n,
{
    lemma_decimal_len(n);
    lemma_decimal_len(m);
    if n >= 10 {
        let dn = decimal(n / 10).push(digit(n % 10));
        let dm = decimal(m / 10).push(digit(m % 10));
        assert(dn.drop_last() =~= decimal(n / 10));
        assert(dm.drop_last() =~= decimal(m / 10));
        assert(dn.last() == digit(n % 10));
        assert(dm.last() == digit(m % 10));
        lemma_decimal_is_injective(n / 10, m / 10);
    } else {
        assert(decimal(n)[0] == digit(n));
        assert(decimal(m)[0] == digit(m));
    }
}

/// Different preimage bits are allocated under different names.
pub proof fn lemma_bit_names_are_distinct(i: nat, j: nat)
    requires
        i != j,
    ensures
        bit_name(i) != bit_name(j),
{
    let prefix = "preimage bit "@;
    if bit_name(i) == bit_name(j) {
        assert((prefix + decimal(i)).subrange(prefix.len() as int, bit_name(i).len() as int)
            =~= decimal(i));
        assert((prefix + decimal(j)).subrange(prefix.len() as int, bit_name(j).len() as int)
            =~= decimal(j));
        lemma_decimal_is_injective(i, j);
    }
}

impl FFICircuit {
    /// The witness assignments of this circuit.
    pub open spec fn witness(&self) -> Seq<Option<bool>> {
        witness_assignment(
            match self.preimage {
                Some(p) => Some(p@),
                None => None,
            },
        )
    }

    /// Computes the assignment of every preimage witness, in allocation order.
    pub fn bit_values(&self) -> (bits: Vec<Option<bool>>)
        ensures
            bits@ == self.witness(),
            bits@.len() == PREIMAGE_BITS,
    {
        let mut bits: Vec<Option<bool>> = Vec::new();
        match &self.preimage {
            Some(p) => {
                let raw = bytes_to_bits_le(p.as_slice());
                let mut i: usize = 0;
                while i < 640
                    invariant
                        i <= 640,
                        raw@ == bits_lsb_first(p@),
                        bits@ == Seq::new(i as nat, |j: int| Some(raw@[j])),
                    decreases 640 - i,
                {
                    bits.push(Some(raw[i]));
                    i += 1;
                }
            },
            None => {
                let mut i: usize = 0;
                while i < 640
                    invariant
                        i <= 640,
                        bits@ == Seq::new(i as nat, |j: int| None::<bool>),
                    decreases 640 - i,
                {
                    bits.push(None);
                    i += 1;
                }
            },
        }
        bits
    }
}

} // verus!
