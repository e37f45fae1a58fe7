//! Packing of the saturation matrix into the kernel's DRM CTM format.
//!
//! The DRM/KMS `CTM` property is a blob holding `struct drm_color_ctm`: nine
//! `__u64` entries, row-major, each in S31.32 sign-magnitude fixed point (not
//! two's complement). Bit 63 is the sign; the low 63 bits are the magnitude
//! with 32 fractional bits.
//!
//! Turning a real coefficient into its sign and fixed-point magnitude is
//! floating-point work done by the caller; everything from that point on, the
//! bit layout, the row-major order and the byte image of the blob, is here.

use vstd::prelude::*;

verus! {

/// Bit 63: set for negative coefficients.
pub const SIGN_BIT: u64 = 0x8000_0000_0000_0000;

/// The low 63 bits that carry the magnitude.
pub const MAGNITUDE_MASK: u64 = 0x7fff_ffff_ffff_ffff;

/// The S31.32 magnitude of 1.0.
pub const ONE: u64 = 0x1_0000_0000;

/// One coefficient, split into its sign and its S31.32 magnitude
/// (the real value times 2^32, rounded).
#[derive(Debug, Clone, Copy, PartialEq, Eq, Structural)]
pub struct Fixed {
    pub negative: bool,
    pub magnitude: u64,
}

/// The sign-magnitude word of a coefficient. The magnitude keeps its low 63
/// bits (it saturates into the field rather than spilling into the sign).
pub open spec fn packed(negative: bool, magnitude: u64) -> u64 {
    if negative {
        (SIGN_BIT + (magnitude % 0x8000_0000_0000_0000)) as u64
    } else {
        (magnitude % 0x8000_0000_0000_0000) as u64
    }
}

/// The sign of a packed word.
pub open spec fn unpacked_negative(raw: u64) -> bool {
    raw >= SIGN_BIT
}

/// The magnitude of a packed word.
pub open spec fn unpacked_magnitude(raw: u64) -> u64 {
    (raw % 0x8000_0000_0000_0000) as u64
}

/// Packs one coefficient into S31.32 sign-magnitude.
pub fn pack(value: Fixed) -> (r: u64)
    ensures
        r == packed(value.negative, value.magnitude),
{
    let m = value.magnitude;
    let masked = m & MAGNITUDE_MASK;
    assert(m & 0x7fff_ffff_ffff_ffffu64 == m % 0x8000_0000_0000_0000u64) by (bit_vector);
    if value.negative {
        assert(masked | 0x8000_0000_0000_0000u64 == masked + 0x8000_0000_0000_0000u64) by (bit_vector)
            requires
                masked == m & 0x7fff_ffff_ffff_ffffu64,
        ;
        masked | SIGN_BIT
    } else {
        masked
    }
}

/// Splits a packed word back into its sign and magnitude.
pub fn unpack(raw: u64) -> (r: Fixed)
    ensures
        r.negative == unpacked_negative(raw),
        r.magnitude == unpacked_magnitude(raw),
{
    assert(raw & 0x7fff_ffff_ffff_ffffu64 == raw % 0x8000_0000_0000_0000u64) by (bit_vector);
    assert((raw & 0x8000_0000_0000_0000u64 != 0) == (raw >= 0x8000_0000_0000_0000u64)) by (bit_vector);
    Fixed { negative: raw & SIGN_BIT != 0, magnitude: raw & MAGNITUDE_MASK }
}

/// Packing and unpacking are inverse: a coefficient whose magnitude fits in 63
/// bits comes back unchanged, and every word is the packing of its own parts.
pub proof fn lemma_pack_round_trip(negative: bool, magnitude: u64, raw: u64)
    ensures
        magnitude < SIGN_BIT ==> unpacked_negative(packed(negative, magnitude)) == negative,
        magnitude < SIGN_BIT ==> unpacked_magnitude(packed(negative, magnitude)) == magnitude,
        packed(unpacked_negative(raw), unpacked_magnitude(raw)) == raw,
{
}

/// The nine CTM entries, row-major, of a 3x3 matrix of coefficients.
pub open spec fn packed_matrix(m: [[Fixed; 3]; 3], i: int) -> u64 {
    packed(m[i / 3][i % 3].negative, m[i / 3][i % 3].magnitude)
}

/// The nine CTM entries (row-major) of a matrix, ready for a `drm_color_ctm`.
pub fn pack_matrix(m: &[[Fixed; 3]; 3]) -> (out: [u64; 9])
    ensures
        forall|i: int| 0 <= i < 9 ==> #[trigger] out[i] == packed_matrix(*m, i),
{
    let mut out = [0u64; 9];
    let mut r: usize = 0;
    while r < 3
        invariant
            0 <= r <= 3,
            forall|i: int| 0 <= i < r * 3 ==> #[trigger] out[i] == packed_matrix(*m, i),
        decreases 3 - r,
    {
        let mut c: usize = 0;
        while c < 3
            invariant
                0 <= r < 3,
                0 <= c <= 3,
                forall|i: int| 0 <= i < r * 3 + c ==> #[trigger] out[i] == packed_matrix(*m, i),
            decreases 3 - c,
        {
            let row = m[r];
            let v = pack(row[c]);
            assert((r * 3 + c) / 3 == r && (r * 3 + c) % 3 == c);
            out[r * 3 + c] = v;
            c = c + 1;
        }
        r = r + 1;
    }
    out
}

/// The identity CTM (no colour change), for reset paths: 1.0 (2^32) on the
/// diagonal and 0 elsewhere. At saturation 1.0 the blend weight `1 - s` is
/// exactly zero, so every off-diagonal coefficient is exactly 0.0 and every
/// diagonal one exactly 1.0.
pub fn identity_drm_ctm() -> (out: [u64; 9])
    ensures
        forall|i: int| 0 <= i < 9 ==> #[trigger] out[i] == if i % 4 == 0 { ONE } else { 0 },
{
    let zero = Fixed { negative: false, magnitude: 0 };
    let one = Fixed { negative: false, magnitude: ONE };
    let m = [[one, zero, zero], [zero, one, zero], [zero, zero, one]];
    let out = pack_matrix(&m);
    assert forall|i: int| 0 <= i < 9 implies #[trigger] out[i] == if i % 4 == 0 { ONE } else { 0 } by {
        assert(out[i] == packed_matrix(m, i));
        assert(i == 0 || i == 1 || i == 2 || i == 3 || i == 4 || i == 5 || i == 6 || i == 7 || i == 8);
    }
    out
}

/// Byte `k` (little-endian) of a word.
pub open spec fn le_byte(x: u64, k: int) -> u8 {
    ((x >> ((8 * k) as u64)) & 0xff) as u8
}

/// The word whose little-endian bytes start at `at`.
pub open spec fn le_word(b: Seq<u8>, at: int) -> u64 {
    (b[at] as u64) | ((b[at + 1] as u64) << 8u64) | ((b[at + 2] as u64) << 16u64) | ((b[at + 3] as u64)
        << 24u64) | ((b[at + 4] as u64) << 32u64) | ((b[at + 5] as u64) << 40u64) | ((b[at + 6] as u64)
        << 48u64) | ((b[at + 7] as u64) << 56u64)
}

/// Raw bytes of the `drm_color_ctm` blob: the nine entries as little-endian
/// `__u64`s, which is exactly what gets attached as the property blob.
pub fn ctm_blob_bytes(entries: &[u64; 9]) -> (bytes: [u8; 72])
    ensures
        forall|i: int, k: int|
            0 <= i < 9 && 0 <= k < 8 ==> #[trigger] bytes[8 * i + k] == le_byte(entries[i], k),
{
    let mut bytes = [0u8; 72];
    let mut i: usize = 0;
    while i < 9
        invariant
            0 <= i <= 9,
            forall|j: int, k: int|
                0 <= j < i && 0 <= k < 8 ==> #[trigger] bytes[8 * j + k] == le_byte(entries[j], k),
        decreases 9 - i,
    {
        let e = entries[i];
        let mut k: usize = 0;
        while k < 8
            invariant
                0 <= i < 9,
                0 <= k <= 8,
                e == entries[i as int],
                forall|j: int, q: int|
                    0 <= j < i && 0 <= q < 8 ==> #[trigger] bytes[8 * j + q] == le_byte(entries[j], q),
                forall|q: int| 0 <= q < k ==> #[trigger] bytes[8 * i + q] == le_byte(entries[i as int], q),
            decreases 8 - k,
        {
            let b: u8 = ((e >> ((8 * k) as u64)) & 0xff) as u8;
            bytes[8 * i + k] = b;
            k = k + 1;
        }
        i = i + 1;
    }
    bytes
}

/// Reading the blob back: each group of eight bytes is the entry it came from.
pub proof fn lemma_blob_decodes(entries: [u64; 9], bytes: [u8; 72])
    requires
        forall|i: int, k: int|
            0 <= i < 9 && 0 <= k < 8 ==> #[trigger] bytes[8 * i + k] == le_byte(entries[i], k),
    ensures
        forall|i: int| 0 <= i < 9 ==> #[trigger] le_word(bytes@, 8 * i) == entries[i],
{
    assert forall|i: int| 0 <= i < 9 implies #[trigger] le_word(bytes@, 8 * i) == entries[i] by {
        let x = entries[i];
        assert(bytes@[8 * i + 0] == le_byte(x, 0));
        assert(bytes@[8 * i + 1] == le_byte(x, 1));
        assert(bytes@[8 * i + 2] == le_byte(x, 2));
        assert(bytes@[8 * i + 3] == le_byte(x, 3));
        assert(bytes@[8 * i + 4] == le_byte(x, 4));
        assert(bytes@[8 * i + 5] == le_byte(x, 5));
        assert(bytes@[8 * i + 6] == le_byte(x, 6));
        assert(bytes@[8 * i + 7] == le_byte(x, 7));
        lemma_le_bytes_rebuild(x);
    }
}

proof fn lemma_le_bytes_rebuild(x: u64)
    ensures
        x == (((x >> 0u64) & 0xff) as u8 as u64) | ((((x >> 8u64) & 0xff) as u8 as u64) << 8u64) | ((((x
            >> 16u64) & 0xff) as u8 as u64) << 16u64) | ((((x >> 24u64) & 0xff) as u8 as u64) << 24u64)
            | ((((x >> 32u64) & 0xff) as u8 as u64) << 32u64) | ((((x >> 40u64) & 0xff) as u8 as u64)
            << 40u64) | ((((x >> 48u64) & 0xff) as u8 as u64) << 48u64) | ((((x >> 56u64) & 0xff) as u8
            as u64) << 56u64),
{
    assert(x == (((x >> 0u64) & 0xff) as u8 as u64) | ((((x >> 8u64) & 0xff) as u8 as u64) << 8u64) | ((((x
        >> 16u64) & 0xff) as u8 as u64) << 16u64) | ((((x >> 24u64) & 0xff) as u8 as u64) << 24u64)
        | ((((x >> 32u64) & 0xff) as u8 as u64) << 32u64) | ((((x >> 40u64) & 0xff) as u8 as u64)
        << 40u64) | ((((x >> 48u64) & 0xff) as u8 as u64) << 48u64) | ((((x >> 56u64) & 0xff) as u8
        as u64) << 56u64)) by (bit_vector);
}

} // verus!
