use satur8::ctm::{
    ctm_blob_bytes, identity_drm_ctm, pack, pack_matrix, unpack, Fixed, MAGNITUDE_MASK, ONE,
    SIGN_BIT,
};

#[test]
fn identity_packs_to_one_and_zero() {
    let ctm = identity_drm_ctm();
    // Diagonal entries are 1.0 -> 2^32; off-diagonal are 0.
    assert_eq!(ctm[0], 1u64 << 32);
    assert_eq!(ctm[4], 1u64 << 32);
    assert_eq!(ctm[8], 1u64 << 32);
    for i in [1, 2, 3, 5, 6, 7] {
        assert_eq!(ctm[i], 0);
    }
}

#[test]
fn negative_coefficients_set_the_sign_bit() {
    let raw = pack(Fixed { negative: true, magnitude: 3_071_787_491 });
    assert_eq!(raw, SIGN_BIT | 3_071_787_491);
    assert!(raw & SIGN_BIT != 0);
    let back = unpack(raw);
    assert_eq!(back, Fixed { negative: true, magnitude: 3_071_787_491 });
    assert_eq!(pack(Fixed { negative: false, magnitude: ONE }), ONE);
}

#[test]
fn oversized_magnitudes_stay_out_of_the_sign_bit() {
    assert_eq!(pack(Fixed { negative: false, magnitude: u64::MAX }), MAGNITUDE_MASK);
    assert_eq!(pack(Fixed { negative: true, magnitude: u64::MAX }), u64::MAX);
}

#[test]
fn every_word_round_trips_through_unpack() {
    for raw in [0u64, 1, ONE, SIGN_BIT, SIGN_BIT | ONE, u64::MAX, 0x1234_5678_9abc_def0] {
        assert_eq!(pack(unpack(raw)), raw);
    }
}

#[test]
fn matrix_is_packed_row_major() {
    let z = Fixed { negative: false, magnitude: 0 };
    let mut m = [[z; 3]; 3];
    m[0][1] = Fixed { negative: true, magnitude: 5 };
    m[2][0] = Fixed { negative: false, magnitude: 7 };
    let out = pack_matrix(&m);
    assert_eq!(out[1], SIGN_BIT | 5);
    assert_eq!(out[6], 7);
    assert_eq!(out.iter().filter(|&&w| w != 0).count(), 2);
}

#[test]
fn ctm_blob_is_72_little_endian_bytes() {
    let entries = identity_drm_ctm();
    let mut entries2 = entries;
    entries2[1] = SIGN_BIT | 0x0102_0304;
    for e in [entries, entries2] {
        let bytes = ctm_blob_bytes(&e);
        assert_eq!(bytes.len(), 72);
        for (i, w) in e.iter().enumerate() {
            let slice: [u8; 8] = bytes[i * 8..i * 8 + 8].try_into().unwrap();
            assert_eq!(u64::from_le_bytes(slice), *w);
        }
    }
}
