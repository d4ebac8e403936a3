use cartogen::perlin::{gradient, lattice_index, CornerHashes, Gradient, PerlinNoise};

const SEEDS: [usize; 9] = [0, 1, 2, 42, 255, 256, 12345, 1 << 31, usize::MAX];

fn fade(t: f64) -> f64 {
    t * t * t * (t * (t * 6.0 - 15.0) + 10.0)
}

fn lerp(a: f64, b: f64, t: f64) -> f64 {
    a + t * (b - a)
}

fn dot(hash: usize, x: f64, y: f64) -> f64 {
    match gradient(hash) {
        Gradient::PlusPlus => x + y,
        Gradient::MinusPlus => -x + y,
        Gradient::PlusMinus => x - y,
        Gradient::MinusMinus => -x - y,
    }
}

fn noise(field: &PerlinNoise, x: f64, y: f64) -> f64 {
    let corners = field.corner_hashes(x.floor() as isize, y.floor() as isize);
    let xf = x - x.floor();
    let yf = y - y.floor();
    let u = fade(xf);
    let v = fade(yf);
    let low = lerp(dot(corners.aa, xf, yf), dot(corners.ba, xf - 1.0, yf), u);
    let high = lerp(dot(corners.ab, xf, yf - 1.0), dot(corners.bb, xf - 1.0, yf - 1.0), u);
    lerp(low, high, v)
}

#[test]
fn seed_zero_shifts_every_value_by_one() {
    let field = PerlinNoise::new(0);
    let table = field.table();
    // The step for 255 exchanges entries 255 and 0, the step for 254 entries
    // 254 and 0, the step for 253 entries 253 and 0.
    assert_eq!(table[255], 0);
    assert_eq!(table[254], 255);
    assert_eq!(table[253], 254);
    assert_eq!(table[0], 1);
    for k in 0..256 {
        assert_eq!(table[k], (k + 1) % 256);
    }
}

#[test]
fn seed_one_keeps_the_first_entry() {
    let field = PerlinNoise::new(1);
    let table = field.table();
    assert_eq!(table[0], 0);
    assert_eq!(table[255], 1);
    for k in 1..255 {
        assert_eq!(table[k], k + 1);
    }
}

#[test]
fn table_entries_for_known_seeds() {
    let field = PerlinNoise::new(42);
    assert_eq!(
        field.table()[..16],
        [40, 27, 36, 23, 34, 25, 28, 26, 30, 22, 32, 24, 38, 21, 29, 31]
    );
    assert_eq!(field.table()[248..256], [249, 250, 251, 252, 253, 254, 255, 42]);
    let field = PerlinNoise::new(12345);
    assert_eq!(
        field.table()[..16],
        [2, 13, 12, 30, 36, 10, 106, 1, 96, 19, 16, 22, 72, 11, 0, 70]
    );
    assert_eq!(field.table()[248..256], [144, 95, 46, 249, 201, 153, 105, 57]);
}

#[test]
fn table_matches_the_shuffle_step_by_step() {
    for seed in SEEDS {
        let mut base: Vec<usize> = (0..256).collect();
        for i in (1..256).rev() {
            base.swap(i, seed % (i + 1));
        }
        let field = PerlinNoise::new(seed);
        assert_eq!(field.table()[..256], base[..]);
        assert_eq!(field.table()[256..], base[..]);
    }
}

#[test]
fn first_half_is_a_permutation() {
    for seed in SEEDS {
        let field = PerlinNoise::new(seed);
        let mut seen = [0usize; 256];
        for k in 0..256 {
            let value = field.table()[k];
            assert!(value < 256);
            seen[value] += 1;
        }
        assert!(seen.iter().all(|&count| count == 1));
    }
}

#[test]
fn second_half_repeats_the_first() {
    for seed in SEEDS {
        let field = PerlinNoise::new(seed);
        for k in 0..256 {
            assert_eq!(field.table()[k], field.table()[k + 256]);
        }
    }
}

#[test]
fn same_seed_same_table() {
    for seed in SEEDS {
        let a = PerlinNoise::new(seed);
        let b = PerlinNoise::new(seed);
        assert_eq!(a.table(), b.table());
    }
}

#[test]
fn lattice_index_wraps_every_256_cells() {
    assert_eq!(lattice_index(0), 0);
    assert_eq!(lattice_index(1), 1);
    assert_eq!(lattice_index(255), 255);
    assert_eq!(lattice_index(256), 0);
    assert_eq!(lattice_index(257), 1);
    assert_eq!(lattice_index(1000), 232);
    assert_eq!(lattice_index(-1), 255);
    assert_eq!(lattice_index(-255), 1);
    assert_eq!(lattice_index(-256), 0);
    assert_eq!(lattice_index(-257), 255);
    assert_eq!(lattice_index(isize::MAX), 255);
    assert_eq!(lattice_index(isize::MIN), 0);
}

#[test]
fn gradient_follows_the_two_low_bits() {
    assert_eq!(gradient(0), Gradient::PlusPlus);
    assert_eq!(gradient(1), Gradient::MinusPlus);
    assert_eq!(gradient(2), Gradient::PlusMinus);
    assert_eq!(gradient(3), Gradient::MinusMinus);
    assert_eq!(gradient(4), Gradient::PlusPlus);
    assert_eq!(gradient(253), Gradient::MinusPlus);
    assert_eq!(gradient(254), Gradient::PlusMinus);
    assert_eq!(gradient(255), Gradient::MinusMinus);
    assert_eq!(gradient(usize::MAX), Gradient::MinusMinus);
}

#[test]
fn hash_looks_the_table_up_twice() {
    let field = PerlinNoise::new(42);
    let table = field.table();
    for xi in 0..256usize {
        for yi in [0usize, 1, 100, 254, 255] {
            for dx in 0..2usize {
                for dy in 0..2usize {
                    let expected = table[(table[xi + dx] + yi + dy) % 256];
                    assert_eq!(field.hash(xi, yi, dx, dy), expected);
                    assert!(expected < 256);
                }
            }
        }
    }
}

#[test]
fn hash_exact_values() {
    let field = PerlinNoise::new(0);
    assert_eq!(field.hash(0, 0, 0, 0), 2);
    assert_eq!(field.hash(0, 0, 0, 1), 3);
    assert_eq!(field.hash(0, 0, 1, 0), 3);
    assert_eq!(field.hash(0, 0, 1, 1), 4);
    assert_eq!(field.hash(255, 255, 1, 1), 2);
    assert_eq!(field.hash(255, 255, 0, 0), 0);
}

#[test]
fn corner_hashes_exact_values() {
    let field = PerlinNoise::new(42);
    assert_eq!(field.corner_hashes(0, 0), CornerHashes { aa: 1, ab: 0, ba: 14, bb: 13 });
    assert_eq!(field.corner_hashes(255, 255), CornerHashes { aa: 0, ab: 43, ba: 2, bb: 1 });
    assert_eq!(field.corner_hashes(-1, -1), CornerHashes { aa: 0, ab: 43, ba: 2, bb: 1 });
    assert_eq!(field.corner_hashes(256, 300), CornerHashes { aa: 85, ab: 86, ba: 72, bb: 73 });
    let field = PerlinNoise::new(0);
    assert_eq!(field.corner_hashes(0, 0), CornerHashes { aa: 2, ab: 3, ba: 3, bb: 4 });
    assert_eq!(field.corner_hashes(255, 255), CornerHashes { aa: 0, ab: 1, ba: 1, bb: 2 });
}

#[test]
fn corner_hashes_agree_with_hash() {
    let field = PerlinNoise::new(12345);
    for cell_x in [-600isize, -257, -256, -1, 0, 1, 127, 255, 256, 1023] {
        for cell_y in [-513isize, -1, 0, 77, 255, 256, 4096] {
            let xi = lattice_index(cell_x);
            let yi = lattice_index(cell_y);
            let corners = field.corner_hashes(cell_x, cell_y);
            assert_eq!(corners.aa, field.hash(xi, yi, 0, 0));
            assert_eq!(corners.ab, field.hash(xi, yi, 0, 1));
            assert_eq!(corners.ba, field.hash(xi, yi, 1, 0));
            assert_eq!(corners.bb, field.hash(xi, yi, 1, 1));
        }
    }
}

#[test]
fn neighbouring_cells_share_corners() {
    for seed in SEEDS {
        let field = PerlinNoise::new(seed);
        for cell_x in [-257isize, -256, -2, -1, 0, 1, 254, 255, 256] {
            for cell_y in [-257isize, -256, -2, -1, 0, 1, 254, 255, 256] {
                let here = field.corner_hashes(cell_x, cell_y);
                let right = field.corner_hashes(cell_x + 1, cell_y);
                let above = field.corner_hashes(cell_x, cell_y + 1);
                assert_eq!(here.ba, right.aa);
                assert_eq!(here.bb, right.ab);
                assert_eq!(here.ab, above.aa);
                assert_eq!(here.bb, above.ba);
            }
        }
    }
}

#[test]
fn lattice_repeats_every_256_cells() {
    let field = PerlinNoise::new(42);
    for cell in [-3isize, 0, 5, 255] {
        assert_eq!(field.corner_hashes(cell, 9), field.corner_hashes(cell + 256, 9));
        assert_eq!(field.corner_hashes(9, cell), field.corner_hashes(9, cell - 512));
    }
}

#[test]
fn noise_exact_values() {
    let field = PerlinNoise::new(0);
    assert_eq!(noise(&field, 0.5, 0.5), -0.25);
    let field = PerlinNoise::new(42);
    assert_eq!(noise(&field, 1.25, 2.75), 0.04640007019042969);
    assert_eq!(noise(&field, 10.1, 20.2), 0.15390440959999918);
    assert_eq!(noise(&field, -0.5, -3.25), 0.0);
    let field = PerlinNoise::new(12345);
    assert_eq!(noise(&field, 255.5, 0.5), -0.25);
}

#[test]
fn noise_vanishes_on_lattice_points() {
    let field = PerlinNoise::new(42);
    for x in [-2.0f64, 0.0, 3.0, 255.0, 256.0] {
        for y in [-7.0f64, 0.0, 7.0, 511.0] {
            assert_eq!(noise(&field, x, y), 0.0);
        }
    }
}

#[test]
fn noise_repeats_for_the_same_seed_and_point() {
    let a = PerlinNoise::new(42);
    let b = PerlinNoise::new(42);
    for (x, y) in [(0.1f64, 0.2f64), (13.37, -4.2), (255.9, 256.1), (-1000.5, 1e6 + 0.25)] {
        let first = noise(&a, x, y);
        assert_eq!(first, noise(&a, x, y));
        assert_eq!(first, noise(&b, x, y));
    }
}

#[test]
fn noise_is_continuous_across_cell_borders() {
    let field = PerlinNoise::new(42);
    let mut last = f64::MAX;
    for eps in [1e-3f64, 1e-6, 1e-9] {
        let gap_x = (noise(&field, 1.0 - eps, 0.3) - noise(&field, 1.0 + eps, 0.3)).abs();
        let gap_y = (noise(&field, 0.3, 256.0 - eps) - noise(&field, 0.3, 256.0 + eps)).abs();
        assert!(gap_x < 2.0 * eps);
        assert!(gap_y < 2.0 * eps);
        assert!(gap_x < last);
        last = gap_x;
    }
}

#[test]
fn noise_accepts_non_finite_and_huge_inputs() {
    let field = PerlinNoise::new(7);
    for x in [f64::NAN, f64::INFINITY, f64::NEG_INFINITY, 1e300, -1e300] {
        let _ = noise(&field, x, 0.5);
        let _ = noise(&field, 0.5, x);
    }
}
