//! The wire form of a Groth16 proof.
//!
//! A proof is three curve points, `a` and `c` in the first pairing group and
//! `b` in the second, each in compressed affine form. On the wire it is a
//! record of three byte strings in the order `a`, `b`, `c`; every byte string
//! is preceded by its length as eight bytes, least significant first.

use crate::curve::{g1_decompresses, g2_decompresses, is_g1_point, is_g2_point};
use vstd::prelude::*;

verus! {

/// Length of a compressed point of the first pairing group.
pub const G1_COMPRESSED_LEN: usize = 48;

/// Length of a compressed point of the second pairing group.
pub const G2_COMPRESSED_LEN: usize = 96;

/// Length of the length field in front of every byte string.
pub const LENGTH_PREFIX_LEN: usize = 8;

/// Length of every encoded proof.
pub const ENCODED_LEN: usize = 216;

/// The compressed points of a proof as byte sequences.
pub struct ProofPoints {
    pub a: Seq<u8>,
    pub b: Seq<u8>,
    pub c: Seq<u8>,
}

/// The one way in which decoding fails: the bytes are not the wire form of
/// three valid points.
#[derive(Debug, Clone, Copy)]
pub struct DecodeError {}

/// A proof whose three points have been validated.
#[derive(Debug)]
pub struct SerializableProof {
    a: [u8; 48],
    b: [u8; 96],
    c: [u8; 48],
}

/// The `width` low-order bytes of `n` in base 256, least significant first.
pub open spec fn le_bytes(n: nat, width: nat) -> Seq<u8>
    decreases width,
{
    if width == 0 {
        Seq::empty()
    } else {
        seq![(n % 256) as u8] + le_bytes(n / 256, (width - 1) as nat)
    }
}

/// The length field that precedes a byte string of `len` bytes.
pub open spec fn length_prefix(len: nat) -> Seq<u8> {
    le_bytes(len, 8)
}

/// A byte string as one field of a record: its length, then its bytes.
pub open spec fn field_encoding(payload: Seq<u8>) -> Seq<u8> {
    length_prefix(payload.len()) + payload
}

/// The wire form of three byte strings as a record.
pub open spec fn encoding(v: ProofPoints) -> Seq<u8> {
    field_encoding(v.a) + field_encoding(v.b) + field_encoding(v.c)
}

/// The three byte strings have the lengths of compressed points and each is
/// a valid point of its group.
pub open spec fn well_formed(v: ProofPoints) -> bool {
    &&& v.a.len() == 48
    &&& v.b.len() == 96
    &&& v.c.len() == 48
    &&& is_g1_point(v.a)
    &&& is_g2_point(v.b)
    &&& is_g1_point(v.c)
}

/// Some well-formed proof has `bytes` as its wire form.
pub open spec fn is_valid_encoding(bytes: Seq<u8>) -> bool {
    exists|v: ProofPoints| #[trigger] well_formed(v) && encoding(v) == bytes
}

/// What `bytes` decode to. The payloads sit at fixed places; the bytes decode
/// to them when writing them out again gives the same bytes and the points
/// are valid.
pub open spec fn decoding(bytes: Seq<u8>) -> Option<ProofPoints> {
    let v = ProofPoints {
        a: bytes.subrange(8, 56),
        b: bytes.subrange(64, 160),
        c: bytes.subrange(168, 216),
    };
    if bytes.len() == 216 && encoding(v) == bytes && well_formed(v) {
        Some(v)
    } else {
        None
    }
}

impl View for SerializableProof {
    type V = ProofPoints;

    closed spec fn view(&self) -> ProofPoints {
        ProofPoints { a: self.a@, b: self.b@, c: self.c@ }
    }
}

impl Clone for SerializableProof {
    fn clone(&self) -> (copy: Self)
        ensures
            copy@ == self@,
    {
        proof {
            use_type_invariant(self);
        }
        SerializableProof { a: self.a, b: self.b, c: self.c }
    }
}

/// Writes `len` as a length field.
fn length_field(len: usize) -> (field: Vec<u8>)
    ensures
        field@ == length_prefix(len as nat),
        field@.len() == 8,
{
    proof {
        lemma_le_bytes_len(len as nat, 8);
    }
    let mut field: Vec<u8> = Vec::new();
    let mut rest: usize = len;
    let mut k: usize = 0;
    while k < 8
        invariant
            k <= 8,
            field@.len() == k,
            field@ + le_bytes(rest as nat, (8 - k) as nat) == le_bytes(len as nat, 8),
        decreases 8 - k,
    {
        field.push((rest % 256) as u8);
        rest = rest / 256;
        k += 1;
    }
    field
}

/// Appends `payload` to `out` as one field of a record.
fn write_field(out: &mut Vec<u8>, payload: &[u8])
    ensures
        final(out)@ == old(out)@ + field_encoding(payload@),
{
    let field = length_field(payload.len());
    let ghost start = out@;
    let mut k: usize = 0;
    while k < 8
        invariant
            k <= 8,
            field@ == length_prefix(payload@.len()),
            field@.len() == 8,
            out@ == start + field@.take(k as int),
        decreases 8 - k,
    {
        out.push(field[k]);
        k += 1;
    }
    let mut i: usize = 0;
    while i < payload.len()
        invariant
            i <= payload.len(),
            out@ == start + field@ + payload@.take(i as int),
        decreases payload.len() - i,
    {
        out.push(payload[i]);
        i += 1;
    }
}

/// Whether the eight bytes of `bytes` from `pos` on are the length field of
/// a byte string of `len` bytes.
fn has_length_field(bytes: &[u8], pos: usize, len: usize) -> (found: bool)
    requires
        pos + 8 <= bytes.len(),
    ensures
        found == (bytes@.subrange(pos as int, pos + 8) == length_prefix(len as nat)),
{
    let field = length_field(len);
    let mut k: usize = 0;
    while k < 8
        invariant
            k <= 8,
            pos + 8 <= bytes.len(),
            field@.len() == 8,
            field@ == length_prefix(len as nat),
            forall|j: int| 0 <= j < k ==> bytes@[pos + j] == field@[j],
        decreases 8 - k,
    {
        if bytes[pos + k] != field[k] {
            return false;
        }
        k += 1;
    }
    assert(bytes@.subrange(pos as int, pos + 8) =~= field@);
    true
}

/// Copies the `N` bytes of `bytes` from `pos` on.
fn cut<const N: usize>(bytes: &[u8], pos: usize) -> (piece: [u8; N])
    requires
        pos + N <= bytes.len(),
    ensures
        piece@ == bytes@.subrange(pos as int, pos + N),
{
    let mut piece: [u8; N] = [0u8; N];
    let mut i: usize = 0;
    while i < N
        invariant
            i <= N,
            pos + N <= bytes.len(),
            forall|j: int| 0 <= j < i ==> piece@[j] == bytes@[pos + j],
        decreases N - i,
    {
        piece[i] = bytes[pos + i];
        i += 1;
    }
    assert(piece@ =~= bytes@.subrange(pos as int, pos + N));
    piece
}

/// Writes three compressed points as a record. No point is validated.
pub fn encode_record(a: &[u8; 48], b: &[u8; 96], c: &[u8; 48]) -> (bytes: Vec<u8>)
    ensures
        bytes@ == encoding(ProofPoints { a: a@, b: b@, c: c@ }),
        bytes@.len() == ENCODED_LEN,
{
    proof {
        lemma_encoding_layout(ProofPoints { a: a@, b: b@, c: c@ });
    }
    let mut bytes: Vec<u8> = Vec::new();
    write_field(&mut bytes, a.as_slice());
    write_field(&mut bytes, b.as_slice());
    write_field(&mut bytes, c.as_slice());
    bytes
}

/// Reads a record of three compressed points. Succeeds exactly on the bytes
/// that `encode_record` writes for some three byte strings of 48, 96 and 48
/// bytes, and gives those byte strings. No point is validated.
pub fn decode_record(bytes: &[u8]) -> (r: Option<([u8; 48], [u8; 96], [u8; 48])>)
    ensures
        r is Some <==> bytes@.len() == 216 && bytes@.subrange(0, 8) == length_prefix(48)
            && bytes@.subrange(56, 64) == length_prefix(96) && bytes@.subrange(160, 168)
            == length_prefix(48),
        r matches Some((a, b, c)) ==> {
            &&& a@ == bytes@.subrange(8, 56)
            &&& b@ == bytes@.subrange(64, 160)
            &&& c@ == bytes@.subrange(168, 216)
            &&& encoding(ProofPoints { a: a@, b: b@, c: c@ }) == bytes@
        },
        r is None ==> forall|v: ProofPoints|
            v.a.len() == 48 && v.b.len() == 96 && v.c.len() == 48 ==> #[trigger] encoding(v)
                != bytes@,
{
    assert forall|v: ProofPoints|
        v.a.len() == 48 && v.b.len() == 96 && v.c.len() == 48 && #[trigger] encoding(v)
            == bytes@ implies bytes@.len() == 216 && bytes@.subrange(0, 8) == length_prefix(48)
        && bytes@.subrange(56, 64) == length_prefix(96) && bytes@.subrange(160, 168)
        == length_prefix(48) by {
        lemma_encoding_layout(v);
    }
    if bytes.len() != 216 {
        return None;
    }
    if !has_length_field(bytes, 0, 48) || !has_length_field(bytes, 56, 96) || !has_length_field(
        bytes,
        160,
        48,
    ) {
        return None;
    }
    let a: [u8; 48] = cut::<48>(bytes, 8);
    let b: [u8; 96] = cut::<96>(bytes, 64);
    let c: [u8; 48] = cut::<48>(bytes, 168);
    assert(encoding(ProofPoints { a: a@, b: b@, c: c@ }) =~= bytes@) by {
        lemma_le_bytes_len(48, 8);
        lemma_le_bytes_len(96, 8);
        assert(bytes@ =~= bytes@.subrange(0, 8) + bytes@.subrange(8, 56) + bytes@.subrange(56, 64)
            + bytes@.subrange(64, 160) + bytes@.subrange(160, 168) + bytes@.subrange(168, 216));
    }
    Some((a, b, c))
}

impl SerializableProof {
    #[verifier::type_invariant]
    spec fn points_are_valid(&self) -> bool {
        well_formed(self@)
    }

    /// Takes three compressed points as a proof when each is a valid point
    /// of its group.
    pub fn from_compressed(a: [u8; 48], b: [u8; 96], c: [u8; 48]) -> (r: Result<
        SerializableProof,
        DecodeError,
    >)
        ensures
            r is Ok <==> is_g1_point(a@) && is_g2_point(b@) && is_g1_point(c@),
            r matches Ok(p) ==> p@ == (ProofPoints { a: a@, b: b@, c: c@ }) && well_formed(p@),
    {
        if g1_decompresses(&a) && g2_decompresses(&b) && g1_decompresses(&c) {
            Ok(SerializableProof { a, b, c })
        } else {
            Err(DecodeError {  })
        }
    }

    /// Takes three byte strings as a proof when they have the lengths of
    /// compressed points and each is a valid point of its group.
    pub fn from_byte_strings(a: &[u8], b: &[u8], c: &[u8]) -> (r: Result<
        SerializableProof,
        DecodeError,
    >)
        ensures
            r is Ok <==> well_formed(ProofPoints { a: a@, b: b@, c: c@ }),
            r matches Ok(p) ==> p@ == (ProofPoints { a: a@, b: b@, c: c@ }),
    {
        if a.len() != 48 || b.len() != 96 || c.len() != 48 {
            return Err(DecodeError {  });
        }
        assert(a@.subrange(0, 48) =~= a@);
        assert(b@.subrange(0, 96) =~= b@);
        assert(c@.subrange(0, 48) =~= c@);
        SerializableProof::from_compressed(cut::<48>(a, 0), cut::<96>(b, 0), cut::<48>(c, 0))
    }

    /// The compressed point `a`, in the first pairing group.
    pub fn a(&self) -> (bytes: &[u8; 48])
        ensures
            bytes@ == self@.a,
            is_g1_point(bytes@),
    {
        proof {
            use_type_invariant(self);
        }
        &self.a
    }

    /// The compressed point `b`, in the second pairing group.
    pub fn b(&self) -> (bytes: &[u8; 96])
        ensures
            bytes@ == self@.b,
            is_g2_point(bytes@),
    {
        proof {
            use_type_invariant(self);
        }
        &self.b
    }

    /// The compressed point `c`, in the first pairing group.
    pub fn c(&self) -> (bytes: &[u8; 48])
        ensures
            bytes@ == self@.c,
            is_g1_point(bytes@),
    {
        proof {
            use_type_invariant(self);
        }
        &self.c
    }

    /// Encodes the proof. The result always has the same length.
    pub fn serialize(&self) -> (bytes: Vec<u8>)
        ensures
            bytes@ == encoding(self@),
            bytes@.len() == ENCODED_LEN,
            decoding(bytes@) == Some(self@),
    {
        proof {
            use_type_invariant(self);
            lemma_decoding_inverts_encoding(self@);
        }
        encode_record(&self.a, &self.b, &self.c)
    }

    /// Decodes a proof. Succeeds exactly on the wire forms of well-formed
    /// proofs and gives the proof that was encoded.
    pub fn deserialize(bytes: &[u8]) -> (r: Result<SerializableProof, DecodeError>)
        ensures
            r is Ok <==> is_valid_encoding(bytes@),
            match r {
                Ok(p) => decoding(bytes@) == Some(p@) && encoding(p@) == bytes@,
                Err(_) => decoding(bytes@) is None,
            },
    {
        proof {
            lemma_decoding_accepts_only_encodings(bytes@);
        }
        match decode_record(bytes) {
            Some((a, b, c)) => SerializableProof::from_compressed(a, b, c),
            None => Err(DecodeError {  }),
        }
    }
}

/// A length field is as long as its width says.
pub proof fn lemma_le_bytes_len(n: nat, width: nat)
    ensures
        le_bytes(n, width).len() == width,
    decreases width,
{
    if width > 0 {
        lemma_le_bytes_len(n / 256, (width - 1) as nat);
    }
}

/// Where the parts of a record of three payloads with the lengths of
/// compressed points lie.
pub proof fn lemma_encoding_layout(v: ProofPoints)
    requires
        v.a.len() == 48,
        v.b.len() == 96,
        v.c.len() == 48,
    ensures
        encoding(v).len() == 216,
        encoding(v).subrange(0, 8) == length_prefix(48),
        encoding(v).subrange(8, 56) == v.a,
        encoding(v).subrange(56, 64) == length_prefix(96),
        encoding(v).subrange(64, 160) == v.b,
        encoding(v).subrange(160, 168) == length_prefix(48),
        encoding(v).subrange(168, 216) == v.c,
{
    lemma_le_bytes_len(48, 8);
    lemma_le_bytes_len(96, 8);
    let e = encoding(v);
}

/// Decoding undoes encoding: the wire form of a well-formed proof decodes to
/// that proof.
pub proof fn lemma_decoding_inverts_encoding(v: ProofPoints)
    requires
        well_formed(v),
    ensures
        decoding(encoding(v)) == Some(v),
{
    lemma_encoding_layout(v);
}

/// Exactly the wire forms of well-formed proofs decode, each to the proof
/// that it is the wire form of; every other byte string is rejected.
pub proof fn lemma_decoding_accepts_only_encodings(bytes: Seq<u8>)
    ensures
        decoding(bytes) is Some <==> is_valid_encoding(bytes),
        decoding(bytes) matches Some(v) ==> well_formed(v) && encoding(v) == bytes,
{
    if is_valid_encoding(bytes) {
        let v = choose|v: ProofPoints| #[trigger] well_formed(v) && encoding(v) == bytes;
        lemma_decoding_inverts_encoding(v);
    }
}

/// A record whose byte strings do not have the lengths of the three
/// compressed points does not decode, whatever the byte strings hold.
pub proof fn lemma_other_field_lengths_do_not_decode(a: Seq<u8>, b: Seq<u8>, c: Seq<u8>)
    requires
        !(a.len() == 48 && b.len() == 96 && c.len() == 48),
    ensures
        decoding(encoding(ProofPoints { a, b, c })) is None,
{
    let e = encoding(ProofPoints { a, b, c });
    lemma_le_bytes_len(a.len(), 8);
    lemma_le_bytes_len(b.len(), 8);
    lemma_le_bytes_len(c.len(), 8);
    if decoding(e) is Some {
        let v = decoding(e).unwrap();
        lemma_encoding_layout(v);
        assert(e.subrange(0, 8)[0] == e[0]);
        assert(e.subrange(56, 64)[0] == e[56]);
    }
}

} // verus!
