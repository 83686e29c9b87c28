use vstd::prelude::*;

use crate::message::ProofMessage;
use crate::message::ProofMessageView;

verus! {

// ---------------------------------------------------------------------------
// Wire format specification.
//
// A proof message is encoded as the concatenation of
//   - the authority identifier, 8 bytes little endian,
//   - the 32-byte ephemeral key, raw,
//   - the payload length, as a compact self-describing header,
//   - the payload bytes, raw.
//
// The compact header stores the length `n` in the smallest of four shapes,
// selected by the two low bits of the first byte:
//   - `n < 2^6`:  one byte, `n` shifted left by two, low bits `00`;
//   - `n < 2^14`: two bytes little endian of `(n << 2) | 0b01`;
//   - `n < 2^30`: four bytes little endian of `(n << 2) | 0b10`;
//   - otherwise:  the byte `0b11` followed by four bytes little endian of `n`.
// Each length has exactly one canonical header: a decoder rejects a wider
// shape than the value needs.
// ---------------------------------------------------------------------------

/// Little-endian bytes of a 16-bit value.
pub open spec fn u16_le(x: u16) -> Seq<u8> {
    seq![(x & 0xff) as u8, ((x >> 8) & 0xff) as u8]
}

/// Little-endian bytes of a 32-bit value.
pub open spec fn u32_le(x: u32) -> Seq<u8> {
    seq![
        (x & 0xff) as u8,
        ((x >> 8) & 0xff) as u8,
        ((x >> 16) & 0xff) as u8,
        ((x >> 24) & 0xff) as u8,
    ]
}

/// Little-endian bytes of a 64-bit value.
pub open spec fn u64_le(x: u64) -> Seq<u8> {
    seq![
        (x & 0xff) as u8,
        ((x >> 8) & 0xff) as u8,
        ((x >> 16) & 0xff) as u8,
        ((x >> 24) & 0xff) as u8,
        ((x >> 32) & 0xff) as u8,
        ((x >> 40) & 0xff) as u8,
        ((x >> 48) & 0xff) as u8,
        ((x >> 56) & 0xff) as u8,
    ]
}

/// The canonical compact header of the length `n`.
pub open spec fn compact_u32(n: u32) -> Seq<u8> {
    if n < 64 {
        seq![(n as u8) << 2]
    } else if n < 16384 {
        u16_le(((n as u16) << 2) | 1)
    } else if n < 0x4000_0000 {
        u32_le((n << 2) | 2)
    } else {
        seq![3u8] + u32_le(n)
    }
}

/// Width in bytes of the canonical compact header of `n`.
pub open spec fn compact_header_len(n: u32) -> int {
    if n < 64 {
        1
    } else if n < 16384 {
        2
    } else if n < 0x4000_0000 {
        4
    } else {
        5
    }
}

/// The canonical encoding of a well-formed proof message.
pub open spec fn encode_spec(m: ProofMessageView) -> Seq<u8> {
    u64_le(m.authority_id) + m.ephemeral_key + compact_u32(m.encrypted_payload.len() as u32)
        + m.encrypted_payload
}

/// `b` is the canonical wire encoding of the well-formed message `m`.
pub open spec fn encodes(b: Seq<u8>, m: ProofMessageView) -> bool {
    m.wf() && encode_spec(m) == b
}

/// Decoding is by definition the partial inverse of encoding: it succeeds
/// exactly on the canonical encodings of well-formed messages, and there
/// returns the encoded message.
pub open spec fn decode_spec(b: Seq<u8>) -> Option<ProofMessageView> {
    if exists|m: ProofMessageView| encodes(b, m) {
        Some(choose|m: ProofMessageView| encodes(b, m))
    } else {
        None
    }
}

/// The 16-bit value with little-endian bytes `b0`, `b1`.
pub open spec fn u16_from(b0: u8, b1: u8) -> u16 {
    (b0 as u16) | ((b1 as u16) << 8)
}

/// The 32-bit value with little-endian bytes `b0` through `b3`.
pub open spec fn u32_from(b0: u8, b1: u8, b2: u8, b3: u8) -> u32 {
    (b0 as u32) | ((b1 as u32) << 8) | ((b2 as u32) << 16) | ((b3 as u32) << 24)
}

/// The 64-bit value with little-endian bytes `b0` through `b7`.
pub open spec fn u64_from(b0: u8, b1: u8, b2: u8, b3: u8, b4: u8, b5: u8, b6: u8, b7: u8) -> u64 {
    (b0 as u64) | ((b1 as u64) << 8) | ((b2 as u64) << 16) | ((b3 as u64) << 24)
        | ((b4 as u64) << 32) | ((b5 as u64) << 40) | ((b6 as u64) << 48) | ((b7 as u64) << 56)
}

// ---------------------------------------------------------------------------
// Shape facts about the encoding.
// ---------------------------------------------------------------------------

/// The compact header really has the width `compact_header_len` claims.
pub proof fn lemma_compact_len(n: u32)
    ensures
        compact_u32(n).len() == compact_header_len(n),
        1 <= compact_u32(n).len() <= 5,
{
}

/// An encoding splits into its four fields at fixed offsets.
pub proof fn lemma_encode_structure(m: ProofMessageView)
    requires
        m.wf(),
    ensures
        encode_spec(m).len() == 40 + compact_header_len(m.encrypted_payload.len() as u32)
            + m.encrypted_payload.len(),
        encode_spec(m).len() >= 41,
        encode_spec(m).subrange(0, 8) == u64_le(m.authority_id),
        encode_spec(m).subrange(8, 40) == m.ephemeral_key,
        encode_spec(m).subrange(40, 40 + compact_header_len(m.encrypted_payload.len() as u32))
            == compact_u32(m.encrypted_payload.len() as u32),
        encode_spec(m).subrange(
            40 + compact_header_len(m.encrypted_payload.len() as u32),
            encode_spec(m).len() as int,
        ) == m.encrypted_payload,
{
    let n = m.encrypted_payload.len() as u32;
    let h = compact_header_len(n);
    lemma_compact_len(n);
    let b = encode_spec(m);
    assert(b.subrange(0, 8) =~= u64_le(m.authority_id));
    assert(b.subrange(8, 40) =~= m.ephemeral_key);
    assert(b.subrange(40, 40 + h) =~= compact_u32(n));
    assert(b.subrange(40 + h, b.len() as int) =~= m.encrypted_payload);
}

// ---------------------------------------------------------------------------
// Laws of the codec.
// ---------------------------------------------------------------------------

/// Round-trip law: decoding the canonical encoding of any well-formed
/// message yields exactly that message.
pub proof fn lemma_round_trip(m: ProofMessageView)
    requires
        m.wf(),
    ensures
        decode_spec(encode_spec(m)) == Some(m),
{
    let b = encode_spec(m);
    assert(encodes(b, m));
    let m0 = choose|mm: ProofMessageView| encodes(b, mm);
    assert(encodes(b, m0));
    lemma_encode_injective(m0, m);
}

/// Decode-failure discard law: bytes that are the canonical encoding of no
/// well-formed message decode to nothing.
pub proof fn lemma_garbage_rejected(b: Seq<u8>)
    requires
        forall|m: ProofMessageView| !encodes(b, m),
    ensures
        decode_spec(b) is None,
{
}

// ---------------------------------------------------------------------------
// Executable encoding.
// ---------------------------------------------------------------------------

/// Append the little-endian bytes of `x`.
fn push_u64_le(out: &mut Vec<u8>, x: u64)
    ensures
        final(out)@ == old(out)@ + u64_le(x),
{
    out.push((x & 0xff) as u8);
    out.push(((x >> 8) & 0xff) as u8);
    out.push(((x >> 16) & 0xff) as u8);
    out.push(((x >> 24) & 0xff) as u8);
    out.push(((x >> 32) & 0xff) as u8);
    out.push(((x >> 40) & 0xff) as u8);
    out.push(((x >> 48) & 0xff) as u8);
    out.push(((x >> 56) & 0xff) as u8);
    proof {
        assert(out@ =~= old(out)@ + u64_le(x));
    }
}

/// Append the canonical compact header of `n`.
fn push_compact_u32(out: &mut Vec<u8>, n: u32)
    ensures
        final(out)@ == old(out)@ + compact_u32(n),
{
    if n < 64 {
        out.push((n as u8) << 2);
        proof {
            assert(out@ =~= old(out)@ + compact_u32(n));
        }
    } else if n < 16384 {
        let v: u16 = ((n as u16) << 2) | 1;
        out.push((v & 0xff) as u8);
        out.push(((v >> 8) & 0xff) as u8);
        proof {
            assert(out@ =~= old(out)@ + compact_u32(n));
        }
    } else if n < 0x4000_0000 {
        let v: u32 = (n << 2) | 2;
        out.push((v & 0xff) as u8);
        out.push(((v >> 8) & 0xff) as u8);
        out.push(((v >> 16) & 0xff) as u8);
        out.push(((v >> 24) & 0xff) as u8);
        proof {
            assert(out@ =~= old(out)@ + compact_u32(n));
        }
    } else {
        out.push(3u8);
        out.push((n & 0xff) as u8);
        out.push(((n >> 8) & 0xff) as u8);
        out.push(((n >> 16) & 0xff) as u8);
        out.push(((n >> 24) & 0xff) as u8);
        proof {
            assert(out@ =~= old(out)@ + compact_u32(n));
        }
    }
}

/// Append `src[from..to]`.
fn push_vec_range(out: &mut Vec<u8>, src: &Vec<u8>, from: usize, to: usize)
    requires
        from <= to <= src@.len(),
    ensures
        final(out)@ == old(out)@ + src@.subrange(from as int, to as int),
{
    let mut i: usize = from;
    while i < to
        invariant
            from <= i <= to <= src@.len(),
            out@ == old(out)@ + src@.subrange(from as int, i as int),
        decreases to - i,
    {
        let byte = src[i];
        out.push(byte);
        i = i + 1;
        proof {
            assert(out@ =~= old(out)@ + src@.subrange(from as int, i as int));
        }
    }
}

// ---------------------------------------------------------------------------
// Bit-level facts, proved with the bit-vector solver.
// ---------------------------------------------------------------------------

/// Reassembling the little-endian bytes of a 32-bit value gives it back.
proof fn bv_u32_recon(v: u32)
    by (bit_vector)
    ensures
        u32_from(
            (v & 0xff) as u8,
            ((v >> 8) & 0xff) as u8,
            ((v >> 16) & 0xff) as u8,
            ((v >> 24) & 0xff) as u8,
        ) == v,
{
}

/// Taking the little-endian bytes of a reassembled 64-bit value gives them back.
proof fn bv_u64_extract(b0: u8, b1: u8, b2: u8, b3: u8, b4: u8, b5: u8, b6: u8, b7: u8)
    by (bit_vector)
    ensures
        (u64_from(b0, b1, b2, b3, b4, b5, b6, b7) & 0xff) as u8 == b0,
        ((u64_from(b0, b1, b2, b3, b4, b5, b6, b7) >> 8) & 0xff) as u8 == b1,
        ((u64_from(b0, b1, b2, b3, b4, b5, b6, b7) >> 16) & 0xff) as u8 == b2,
        ((u64_from(b0, b1, b2, b3, b4, b5, b6, b7) >> 24) & 0xff) as u8 == b3,
        ((u64_from(b0, b1, b2, b3, b4, b5, b6, b7) >> 32) & 0xff) as u8 == b4,
        ((u64_from(b0, b1, b2, b3, b4, b5, b6, b7) >> 40) & 0xff) as u8 == b5,
        ((u64_from(b0, b1, b2, b3, b4, b5, b6, b7) >> 48) & 0xff) as u8 == b6,
        ((u64_from(b0, b1, b2, b3, b4, b5, b6, b7) >> 56) & 0xff) as u8 == b7,
{
}

/// Shape of a one-byte compact header.
proof fn bv_mode0(n: u32, v: u8)
    by (bit_vector)
    requires
        n < 64,
        v == (n as u8) << 2,
    ensures
        v & 3 == 0,
        (v >> 2) as u32 == n,
{
}

/// Shape of a two-byte compact header.
proof fn bv_mode1(n: u32, v: u16)
    by (bit_vector)
    requires
        64 <= n < 16384,
        v == ((n as u16) << 2) | 1,
    ensures
        ((v & 0xff) as u8) & 3 == 1,
        u16_from((v & 0xff) as u8, ((v >> 8) & 0xff) as u8) == v,
        (v >> 2) as u32 == n,
        v >> 2 >= 64,
{
}

/// Shape of a four-byte compact header.
proof fn bv_mode2(n: u32, v: u32)
    by (bit_vector)
    requires
        16384 <= n < 0x4000_0000,
        v == (n << 2) | 2,
    ensures
        ((v & 0xff) as u8) & 3 == 2,
        v >> 2 == n,
        v >> 2 >= 16384,
{
}

/// A one-byte header with clear mode bits is the canonical header of its value.
proof fn bv_decode0(v: u8)
    by (bit_vector)
    requires
        v & 3 == 0,
    ensures
        ((((v >> 2) as u32) as u8) << 2) == v,
        ((v >> 2) as u32) < 64,
{
}

/// A two-byte header with mode bits `01` and a value in range is canonical.
proof fn bv_decode1(v: u16)
    by (bit_vector)
    requires
        v & 3 == 1,
        v >> 2 >= 64,
    ensures
        ((((v >> 2) as u32) as u16) << 2) | 1 == v,
        ((v >> 2) as u32) < 16384,
        64 <= (v >> 2) as u32,
{
}

/// A four-byte header with mode bits `10` and a value in range is canonical.
proof fn bv_decode2(v: u32)
    by (bit_vector)
    requires
        v & 3 == 2,
        v >> 2 >= 16384,
    ensures
        ((v >> 2) << 2) | 2 == v,
        (v >> 2) < 0x4000_0000,
{
}

/// Taking the little-endian bytes of a reassembled 16-bit value gives them back.
proof fn bv_u16_extract(b0: u8, b1: u8)
    by (bit_vector)
    ensures
        (u16_from(b0, b1) & 0xff) as u8 == b0,
        ((u16_from(b0, b1) >> 8) & 0xff) as u8 == b1,
        u16_from(b0, b1) & 3 == ((b0 & 3) as u16),
{
}

/// Taking the little-endian bytes of a reassembled 32-bit value gives them back.
proof fn bv_u32_extract(b0: u8, b1: u8, b2: u8, b3: u8)
    by (bit_vector)
    ensures
        (u32_from(b0, b1, b2, b3) & 0xff) as u8 == b0,
        ((u32_from(b0, b1, b2, b3) >> 8) & 0xff) as u8 == b1,
        ((u32_from(b0, b1, b2, b3) >> 16) & 0xff) as u8 == b2,
        ((u32_from(b0, b1, b2, b3) >> 24) & 0xff) as u8 == b3,
        u32_from(b0, b1, b2, b3) & 3 == ((b0 & 3) as u32),
{
}

/// Equal little-endian byte extractions force equal 64-bit values.
proof fn bv_u64_injective(x: u64, y: u64)
    by (bit_vector)
    requires
        (x & 0xff) as u8 == (y & 0xff) as u8,
        ((x >> 8) & 0xff) as u8 == ((y >> 8) & 0xff) as u8,
        ((x >> 16) & 0xff) as u8 == ((y >> 16) & 0xff) as u8,
        ((x >> 24) & 0xff) as u8 == ((y >> 24) & 0xff) as u8,
        ((x >> 32) & 0xff) as u8 == ((y >> 32) & 0xff) as u8,
        ((x >> 40) & 0xff) as u8 == ((y >> 40) & 0xff) as u8,
        ((x >> 48) & 0xff) as u8 == ((y >> 48) & 0xff) as u8,
        ((x >> 56) & 0xff) as u8 == ((y >> 56) & 0xff) as u8,
    ensures
        x == y,
{
}

// ---------------------------------------------------------------------------
// Inversion: an encoding determines the message, field by field.
// ---------------------------------------------------------------------------

/// Every fact a parser of `b` needs, derived from `b` being an encoding of `m`:
/// the mode bits of byte 40 select the header shape, the header stores the
/// payload length, the total length is forced, and each field sits at its
/// fixed offset.
proof fn lemma_parse_inversion(b: Seq<u8>, m: ProofMessageView)
    requires
        encodes(b, m),
    ensures
        b.len() >= 41,
        u64_le(m.authority_id) == b.subrange(0, 8),
        m.ephemeral_key == b.subrange(8, 40),
        b[40] & 3 == 0 ==> m.encrypted_payload.len() == (b[40] >> 2) && b.len() == 41
            + m.encrypted_payload.len(),
        b[40] & 3 == 1 ==> b.len() >= 42 && (u16_from(b[40], b[41]) >> 2) >= 64
            && m.encrypted_payload.len() == (u16_from(b[40], b[41]) >> 2) && b.len() == 42
            + m.encrypted_payload.len(),
        b[40] & 3 == 2 ==> b.len() >= 44 && (u32_from(b[40], b[41], b[42], b[43]) >> 2) >= 16384
            && m.encrypted_payload.len() == (u32_from(b[40], b[41], b[42], b[43]) >> 2)
            && b.len() == 44 + m.encrypted_payload.len(),
        b[40] & 3 == 3 ==> b[40] == 3 && b.len() >= 45
            && u32_from(b[41], b[42], b[43], b[44]) >= 0x4000_0000
            && m.encrypted_payload.len() == u32_from(b[41], b[42], b[43], b[44]) && b.len() == 45
            + m.encrypted_payload.len(),
        m.encrypted_payload == b.subrange(
            b.len() - m.encrypted_payload.len(),
            b.len() as int,
        ),
{
    lemma_encode_structure(m);
    let n = m.encrypted_payload.len() as u32;
    let h = compact_header_len(n);
    let c = compact_u32(n);
    assert(b.subrange(40, 40 + h) == c);
    assert(forall|i: int| 0 <= i < h ==> b[40 + i] == #[trigger] c[i]);
    if n < 64 {
        bv_mode0(n, (n as u8) << 2);
        assert(b[40] == (n as u8) << 2);
    } else if n < 16384 {
        let v: u16 = ((n as u16) << 2) | 1;
        bv_mode1(n, v);
        assert(b[40] == (v & 0xff) as u8);
        assert(b[41] == ((v >> 8) & 0xff) as u8);
        assert(u16_from(b[40], b[41]) == v);
    } else if n < 0x4000_0000 {
        let v: u32 = (n << 2) | 2;
        bv_mode2(n, v);
        bv_u32_recon(v);
        assert(b[40] == (v & 0xff) as u8);
        assert(b[41] == ((v >> 8) & 0xff) as u8);
        assert(b[42] == ((v >> 16) & 0xff) as u8);
        assert(b[43] == ((v >> 24) & 0xff) as u8);
        assert(u32_from(b[40], b[41], b[42], b[43]) == v);
    } else {
        bv_u32_recon(n);
        assert(b[40] == 3);
        assert(c == seq![3u8] + u32_le(n));
        assert(b[41] == u32_le(n)[0]);
        assert(b[42] == u32_le(n)[1]);
        assert(b[43] == u32_le(n)[2]);
        assert(b[44] == u32_le(n)[3]);
        assert(u32_from(b[41], b[42], b[43], b[44]) == n);
        assert(3u8 & 3 == 3) by (bit_vector);
    }
    assert(m.encrypted_payload == b.subrange(b.len() - m.encrypted_payload.len(), b.len() as int));
}

/// Canonical encodings are unambiguous: two well-formed messages with the
/// same wire bytes are the same message.
pub proof fn lemma_encode_injective(m1: ProofMessageView, m2: ProofMessageView)
    requires
        m1.wf(),
        m2.wf(),
        encode_spec(m1) == encode_spec(m2),
    ensures
        m1 == m2,
{
    let b = encode_spec(m1);
    lemma_parse_inversion(b, m1);
    lemma_parse_inversion(b, m2);
    let h0 = b[40];
    let mode = h0 & 3;
    assert(mode == 0 || mode == 1 || mode == 2 || mode == 3) by (bit_vector)
        requires
            mode == h0 & 3,
    ;
    assert(m1.encrypted_payload.len() == m2.encrypted_payload.len());
    assert(m1.encrypted_payload == m2.encrypted_payload);
    assert(m1.ephemeral_key == m2.ephemeral_key);
    assert(u64_le(m1.authority_id) == u64_le(m2.authority_id));
    assert(u64_le(m1.authority_id)[0] == u64_le(m2.authority_id)[0]);
    assert(u64_le(m1.authority_id)[1] == u64_le(m2.authority_id)[1]);
    assert(u64_le(m1.authority_id)[2] == u64_le(m2.authority_id)[2]);
    assert(u64_le(m1.authority_id)[3] == u64_le(m2.authority_id)[3]);
    assert(u64_le(m1.authority_id)[4] == u64_le(m2.authority_id)[4]);
    assert(u64_le(m1.authority_id)[5] == u64_le(m2.authority_id)[5]);
    assert(u64_le(m1.authority_id)[6] == u64_le(m2.authority_id)[6]);
    assert(u64_le(m1.authority_id)[7] == u64_le(m2.authority_id)[7]);
    bv_u64_injective(m1.authority_id, m2.authority_id);
    assert(m1 =~= m2);
}

/// Encode a well-formed proof message into its canonical wire bytes.
pub fn encode_proof(m: &ProofMessage) -> (r: Vec<u8>)
    requires
        m@.wf(),
    ensures
        r@ == encode_spec(m@),
{
    let mut out: Vec<u8> = Vec::new();
    push_u64_le(&mut out, m.authority_id);
    push_vec_range(&mut out, &m.ephemeral_key, 0, m.ephemeral_key.len());
    push_compact_u32(&mut out, m.encrypted_payload.len() as u32);
    push_vec_range(&mut out, &m.encrypted_payload, 0, m.encrypted_payload.len());
    proof {
        assert(m.ephemeral_key@.subrange(0, m.ephemeral_key@.len() as int) =~= m.ephemeral_key@);
        assert(m.encrypted_payload@.subrange(0, m.encrypted_payload@.len() as int)
            =~= m.encrypted_payload@);
        assert(out@ =~= encode_spec(m@));
    }
    out
}

// ---------------------------------------------------------------------------
// Executable decoding.
// ---------------------------------------------------------------------------

/// A sequence that splits into four adjacent subranges is their concatenation.
proof fn lemma_concat4(b: Seq<u8>, s1: Seq<u8>, s2: Seq<u8>, s3: Seq<u8>, s4: Seq<u8>)
    requires
        b.len() == s1.len() + s2.len() + s3.len() + s4.len(),
        s1 == b.subrange(0, s1.len() as int),
        s2 == b.subrange(s1.len() as int, (s1.len() + s2.len()) as int),
        s3 == b.subrange((s1.len() + s2.len()) as int, (s1.len() + s2.len() + s3.len()) as int),
        s4 == b.subrange((s1.len() + s2.len() + s3.len()) as int, b.len() as int),
    ensures
        b == s1 + s2 + s3 + s4,
{
    let l1 = s1.len() as int;
    let l2 = s2.len() as int;
    let l3 = s3.len() as int;
    assert forall|i: int| 0 <= i < b.len() implies b[i] == (s1 + s2 + s3 + s4)[i] by {
        if i < l1 {
            assert(b[i] == s1[i]);
        } else if i < l1 + l2 {
            assert(b[i] == s2[i - l1]);
        } else if i < l1 + l2 + l3 {
            assert(b[i] == s3[i - l1 - l2]);
        } else {
            assert(b[i] == s4[i - l1 - l2 - l3]);
        }
    }
    assert(b =~= s1 + s2 + s3 + s4);
}

/// Copy `src[from..to]` into a fresh vector.
fn copy_range(src: &[u8], from: usize, to: usize) -> (r: Vec<u8>)
    requires
        from <= to <= src@.len(),
    ensures
        r@ == src@.subrange(from as int, to as int),
{
    let mut out: Vec<u8> = Vec::new();
    let mut i: usize = from;
    while i < to
        invariant
            from <= i <= to <= src@.len(),
            out@ == src@.subrange(from as int, i as int),
        decreases to - i,
    {
        let byte = src[i];
        out.push(byte);
        i = i + 1;
        proof {
            assert(out@ =~= src@.subrange(from as int, i as int));
        }
    }
    out
}

/// Decode wire bytes into a proof message.
///
/// Succeeds exactly when the bytes are the canonical encoding of a
/// well-formed message, and then returns that message.  Anything else — a
/// short buffer, a non-canonical length header, a length that disagrees with
/// the buffer, trailing bytes — is rejected as a whole: there is no partial
/// acceptance.
pub fn decode_proof(bytes: &[u8]) -> (r: Option<ProofMessage>)
    ensures
        match r {
            Some(m) => m@.wf() && encodes(bytes@, m@) && decode_spec(bytes@) == Some(m@),
            None => decode_spec(bytes@) is None,
        },
{
    let n = bytes.len();
    if n < 41 {
        proof {
            assert forall|m: ProofMessageView| !encodes(bytes@, m) by {
                if encodes(bytes@, m) {
                    lemma_parse_inversion(bytes@, m);
                }
            }
        }
        return None;
    }
    let b0 = bytes[0];
    let b1 = bytes[1];
    let b2 = bytes[2];
    let b3 = bytes[3];
    let b4 = bytes[4];
    let b5 = bytes[5];
    let b6 = bytes[6];
    let b7 = bytes[7];
    let id: u64 = (b0 as u64) | ((b1 as u64) << 8) | ((b2 as u64) << 16) | ((b3 as u64) << 24)
        | ((b4 as u64) << 32) | ((b5 as u64) << 40) | ((b6 as u64) << 48) | ((b7 as u64) << 56);
    let key = copy_range(bytes, 8, 40);
    let h0 = bytes[40];
    let mode = h0 & 3;
    proof {
        assert(mode == 0 || mode == 1 || mode == 2 || mode == 3) by (bit_vector)
            requires
                mode == h0 & 3,
        ;
    }
    let header_len: usize;
    let plen: u32;
    if mode == 0 {
        header_len = 1;
        plen = (h0 >> 2) as u32;
        proof {
            bv_decode0(h0);
            assert(compact_u32(plen) =~= bytes@.subrange(40, 41));
        }
    } else if mode == 1 {
        if n < 42 {
            proof {
                assert forall|m: ProofMessageView| !encodes(bytes@, m) by {
                    if encodes(bytes@, m) {
                        lemma_parse_inversion(bytes@, m);
                    }
                }
            }
            return None;
        }
        let hb1 = bytes[41];
        let v: u16 = (h0 as u16) | ((hb1 as u16) << 8);
        let l: u16 = v >> 2;
        if l < 64 {
            proof {
                assert forall|m: ProofMessageView| !encodes(bytes@, m) by {
                    if encodes(bytes@, m) {
                        lemma_parse_inversion(bytes@, m);
                    }
                }
            }
            return None;
        }
        header_len = 2;
        plen = l as u32;
        proof {
            bv_u16_extract(h0, hb1);
            bv_decode1(v);
            assert(compact_u32(plen) =~= bytes@.subrange(40, 42));
        }
    } else if mode == 2 {
        if n < 44 {
            proof {
                assert forall|m: ProofMessageView| !encodes(bytes@, m) by {
                    if encodes(bytes@, m) {
                        lemma_parse_inversion(bytes@, m);
                    }
                }
            }
            return None;
        }
        let hb1 = bytes[41];
        let hb2 = bytes[42];
        let hb3 = bytes[43];
        let v: u32 = (h0 as u32) | ((hb1 as u32) << 8) | ((hb2 as u32) << 16) | ((hb3 as u32)
            << 24);
        let l: u32 = v >> 2;
        if l < 16384 {
            proof {
                assert forall|m: ProofMessageView| !encodes(bytes@, m) by {
                    if encodes(bytes@, m) {
                        lemma_parse_inversion(bytes@, m);
                    }
                }
            }
            return None;
        }
        header_len = 4;
        plen = l;
        proof {
            bv_u32_extract(h0, hb1, hb2, hb3);
            bv_decode2(v);
            assert(compact_u32(plen) =~= bytes@.subrange(40, 44));
        }
    } else {
        if h0 != 3 || n < 45 {
            proof {
                assert forall|m: ProofMessageView| !encodes(bytes@, m) by {
                    if encodes(bytes@, m) {
                        lemma_parse_inversion(bytes@, m);
                    }
                }
            }
            return None;
        }
        let hb1 = bytes[41];
        let hb2 = bytes[42];
        let hb3 = bytes[43];
        let hb4 = bytes[44];
        let v: u32 = (hb1 as u32) | ((hb2 as u32) << 8) | ((hb3 as u32) << 16) | ((hb4 as u32)
            << 24);
        if v < 0x4000_0000 {
            proof {
                assert forall|m: ProofMessageView| !encodes(bytes@, m) by {
                    if encodes(bytes@, m) {
                        lemma_parse_inversion(bytes@, m);
                    }
                }
            }
            return None;
        }
        header_len = 5;
        plen = v;
        proof {
            bv_u32_extract(hb1, hb2, hb3, hb4);
            assert(compact_u32(plen) =~= bytes@.subrange(40, 45));
        }
    }
    if (n as u64) != 40u64 + (header_len as u64) + (plen as u64) {
        proof {
            assert forall|m: ProofMessageView| !encodes(bytes@, m) by {
                if encodes(bytes@, m) {
                    lemma_parse_inversion(bytes@, m);
                }
            }
        }
        return None;
    }
    let payload = copy_range(bytes, 40 + header_len, n);
    let m = ProofMessage { authority_id: id, ephemeral_key: key, encrypted_payload: payload };
    proof {
        bv_u64_extract(b0, b1, b2, b3, b4, b5, b6, b7);
        assert(u64_le(id) =~= bytes@.subrange(0, 8));
        assert(m@.wf());
        lemma_concat4(
            bytes@,
            u64_le(id),
            key@,
            compact_u32(plen),
            payload@,
        );
        assert(encode_spec(m@) == bytes@);
        assert(encodes(bytes@, m@));
        let m0 = choose|mm: ProofMessageView| encodes(bytes@, mm);
        assert(encodes(bytes@, m0));
        lemma_encode_injective(m0, m@);
    }
    Some(m)
}

} // verus!
