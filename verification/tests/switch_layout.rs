use fhe_boolean::bootstrap::Bootstrapper;
use fhe_boolean::layout::{SpectralKey, SpectralPair};
use fhe_boolean::params::{BSK_DEPTH, COEFF_PAIRS_PER_TRANSFER, GLWE_DIM, PBS_LEVELS,
    SPECTRAL_HALF, SPECTRAL_PAIRS};
use fhe_boolean::switch::modulus_switch;

/// The modulus switch is deterministic: equal inputs give equal outputs
/// across repeated calls.
#[test]
fn modulus_switch_deterministic() {
    for x in [0u32, 1, 0x0800_0000, 0x1234_5678, 0x8000_0000, 0xFFFF_FFFF] {
        let first = modulus_switch(x);
        for _ in 0..10 {
            assert_eq!(modulus_switch(x), first);
        }
    }
}

/// Exact half-way inputs always round up to the larger index, wrapping at
/// the top of the domain.
#[test]
fn modulus_switch_half_way_rounds_up() {
    for k in 0u32..16 {
        let half_way = k.wrapping_mul(0x1000_0000).wrapping_add(0x0800_0000);
        assert_eq!(modulus_switch(half_way), (k + 1) % 16, "k = {}", k);
    }
}

/// Exact values of the rounding on plain points.
#[test]
fn modulus_switch_exact_values() {
    assert_eq!(modulus_switch(0), 0);
    assert_eq!(modulus_switch(0x1000_0000), 1);
    assert_eq!(modulus_switch(0x2000_0000), 2);
    assert_eq!(modulus_switch(0x0FFF_FFFF), 1);
    assert_eq!(modulus_switch(0x07FF_FFFF), 0);
    assert_eq!(modulus_switch(0xF800_0000), 0);
    assert_eq!(modulus_switch(0xF7FF_FFFF), 15);
    assert_eq!(modulus_switch(0xFFFF_FFFF), 0);
}

/// A staged reference of the key reorder: rotate each polynomial block by
/// one, group into columns, rows and levels, reverse level order, transpose
/// the row/level blocks, flatten, and pair off the words imaginary part
/// first. The one-pass index mapping must reproduce it word for word.
#[test]
fn key_image_matches_staged_reorder() {
    let key = SpectralKey {
        pairs: (0..SPECTRAL_PAIRS)
            .map(|p| SpectralPair { im: 1_000_000 + p as u64, re: 2_000_000 + p as u64 })
            .collect(),
    };
    let b = Bootstrapper::new();
    let img = b.bsk_for_fpga(&key).unwrap();

    // Stage 1: the flat pair stream cut into polynomial blocks, each
    // rotated left by one position.
    let polys: Vec<Vec<SpectralPair>> = key
        .pairs
        .chunks(SPECTRAL_HALF)
        .map(|v| {
            let mut x: Vec<SpectralPair> = v.to_vec();
            let first = x[0];
            x.remove(0);
            x.push(first);
            x
        })
        .collect();
    // Stages 2 and 3: group by columns, rows, and levels.
    let by_cols: Vec<Vec<Vec<SpectralPair>>> =
        polys.chunks(GLWE_DIM + 1).map(|v| v.to_vec()).collect();
    let by_rows: Vec<Vec<Vec<Vec<SpectralPair>>>> =
        by_cols.chunks(GLWE_DIM + 1).map(|v| v.to_vec()).collect();
    let by_levels: Vec<Vec<Vec<Vec<Vec<SpectralPair>>>>> =
        by_rows.chunks(PBS_LEVELS).map(|v| v.to_vec()).collect();
    // Stage 4: reverse the level order.
    let reversed: Vec<Vec<Vec<Vec<Vec<SpectralPair>>>>> = by_levels
        .into_iter()
        .map(|v| v.into_iter().rev().collect())
        .collect();
    // Stage 5: transpose level and row blocks.
    let transposed: Vec<Vec<Vec<Vec<Vec<SpectralPair>>>>> = reversed
        .into_iter()
        .map(|v| {
            let rows = v.len();
            let cols = v[0].len();
            (0..cols)
                .map(|c| (0..rows).map(|r| v[r][c].clone()).collect())
                .collect()
        })
        .collect();
    // Stage 6: flatten to one block of column polynomials per ROM address.
    let reordered: Vec<Vec<Vec<SpectralPair>>> = transposed
        .into_iter()
        .flatten()
        .flatten()
        .collect();
    assert_eq!(reordered.len(), BSK_DEPTH);

    // Stage 7: serialize in transfer order, imaginary word before real word.
    let mut expected: Vec<u64> = Vec::new();
    for gdim in 0..(GLWE_DIM + 1) {
        for blk in (0..SPECTRAL_HALF).step_by(COEFF_PAIRS_PER_TRANSFER) {
            for d in 0..BSK_DEPTH {
                for c in 0..COEFF_PAIRS_PER_TRANSFER {
                    let pair = reordered[d][gdim][blk + c];
                    expected.push(pair.im);
                    expected.push(pair.re);
                }
            }
        }
    }
    assert_eq!(img, expected);

    // The image actually depends on the key: a rotated pair stream must
    // change it.
    let mut other_pairs = key.pairs.clone();
    other_pairs.swap(0, 1);
    let other = b.bsk_for_fpga(&SpectralKey { pairs: other_pairs }).unwrap();
    assert_ne!(img, other);
}
