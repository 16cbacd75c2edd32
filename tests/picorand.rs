use picorand::{GeneratorCore, PicoRandGenerate, PicoRandRNG, WyRand, RNG};

#[test]
fn test_picorand_generate_u8() {
    let mut rng = RNG::<WyRand, u8>::new(0xDEADBEEF);
    let mut generated: u8;
    for _ in 1..100 {
        generated = rng.generate();
        assert!(generated >= u8::MIN || generated <= u8::MAX);
    }
}

#[test]
fn test_picorand_generate_u16() {
    let mut rng = RNG::<WyRand, u16>::new(0xDEADBEEF);
    let mut generated: u16;
    for _ in 1..100 {
        generated = rng.generate();
        assert!(generated >= u16::MIN || generated <= u16::MAX);
    }
}

#[test]
fn test_picorand_generate_u32() {
    let mut rng = RNG::<WyRand, u32>::new(0xDEADBEEF);
    let mut generated: u32;
    for _ in 1..100 {
        generated = rng.generate();
        assert!(generated >= u32::MIN || generated <= u32::MAX);
    }
}

#[test]
fn test_picorand_generate_u64() {
    let mut rng = RNG::<WyRand, u64>::new(0xDEADBEEF);
    let mut generated: u64;
    for _ in 1..100 {
        generated = rng.generate();
        assert!(generated >= u64::MIN || generated <= u64::MAX);
    }
}

#[test]
fn test_picorand_generate_range_u8() {
    let mut rng = RNG::<WyRand, u8>::new(0xDEADBEEF);
    let mut generated: u8;
    for _ in 1..100 {
        generated = rng.generate_range(0xC0, 0xDE);
        assert!(generated >= 0xC0 || generated <= 0xDE);
    }
}

#[test]
fn test_picorand_generate_range_u16() {
    let mut rng = RNG::<WyRand, u16>::new(0xDEADBEEF);
    let mut generated: u16;
    for _ in 1..100 {
        generated = rng.generate_range(0xC0, 0xDE);
        assert!(generated >= 0xC0 || generated <= 0xDE);
    }
}

#[test]
fn test_picorand_generate_range_u32() {
    let mut rng = RNG::<WyRand, u32>::new(0xDEADBEEF);
    let mut generated: u32;
    for _ in 1..100 {
        generated = rng.generate_range(0xC0, 0xDE);
        assert!(generated >= 0xC0 || generated <= 0xDE);
    }
}

#[test]
fn test_picorand_generate_range_u64() {
    let mut rng = RNG::<WyRand, u64>::new(0xDEADBEEF);
    let mut generated: u64;
    for _ in 1..100 {
        generated = rng.generate_range(0xC0, 0xDE);
        assert!(generated >= 0xC0 || generated <= 0xDE);
    }
}

#[test]
fn generate_range_u8_stays_in_half_open_range() {
    let mut rng = RNG::<WyRand, u8>::new(0xDEADBEEF);
    for _ in 0..100 {
        let r = rng.generate_range(0xC0, 0xDE);
        assert!(0xC0 <= r && r < 0xDE);
    }
}

#[test]
fn generate_range_u8_first_values() {
    let mut rng = RNG::<WyRand, u8>::new(0xDEADBEEF);
    let got: Vec<u8> = (0..5).map(|_| rng.generate_range(0xC0, 0xDE)).collect();
    assert_eq!(got, vec![208, 194, 211, 199, 211]);
}

#[test]
fn wyrand_raw_draws_golden() {
    let mut g = WyRand::new(0xDEADBEEF);
    assert_eq!(g.rand(), 0x8b079db40ff9c2de);
    assert_eq!(g.rand(), 0x14a490f0c731570a);
    assert_eq!(g.rand(), 0xa8bd25db2961ba13);
}

#[test]
fn wyrand_seed_zero_first_draw_is_zero() {
    let mut g = WyRand::new(0);
    assert_eq!(g.rand(), 0);
    assert_eq!(g.rand(), 11345724682103348620);
}

#[test]
fn generate_u32_golden_first_draw() {
    let mut rng = RNG::<WyRand, u32>::new(0xDEADBEEF);
    assert_eq!(rng.generate(), 2332532148);
    assert_eq!(rng.generate(), 346329328);
}

#[test]
fn generate_takes_high_bits_of_each_width() {
    let mut r8 = RNG::<WyRand, u8>::new(0xDEADBEEF);
    assert_eq!(r8.generate(), 139);
    let mut r16 = RNG::<WyRand, u16>::new(0xDEADBEEF);
    assert_eq!(r16.generate(), 35591);
    let mut r64 = RNG::<WyRand, u64>::new(0xDEADBEEF);
    assert_eq!(r64.generate(), 10018149292796658398);
    assert_eq!(r64.generate(), 1487473140747556618);
}

#[test]
fn same_seed_gives_same_sequence() {
    let mut a = WyRand::new(0x1234_5678_9ABC_DEF0);
    let mut b = WyRand::new(0x1234_5678_9ABC_DEF0);
    for _ in 0..1000 {
        assert_eq!(a.rand(), b.rand());
    }
    let mut c = RNG::<WyRand, u16>::new(99);
    let mut d = RNG::<WyRand, u16>::new(99);
    for _ in 0..1000 {
        assert_eq!(c.generate_range(3, 5000), d.generate_range(3, 5000));
        assert_eq!(c.generate(), d.generate());
    }
}

#[test]
fn different_seeds_give_different_sequences() {
    let mut a = WyRand::new(1);
    let mut b = WyRand::new(2);
    let xs: Vec<u64> = (0..8).map(|_| a.rand()).collect();
    let ys: Vec<u64> = (0..8).map(|_| b.rand()).collect();
    assert_ne!(xs, ys);
}

#[test]
fn rand_range_exact_values() {
    let mut g = WyRand::new(42);
    let got: Vec<u64> = (0..5).map(|_| g.rand_range(10, 20)).collect();
    assert_eq!(got, vec![13, 11, 10, 18, 13]);
}

#[test]
fn rand_range_is_offset_not_clamped() {
    // An additive offset spreads results over the whole range; a floor clamp
    // would pile most of them onto `min`.
    let mut g = WyRand::new(0xDEADBEEF);
    let mut at_min = 0u32;
    for _ in 0..1000 {
        if g.rand_range(0xC0, 0xDE) == 0xC0 {
            at_min += 1;
        }
    }
    assert!(at_min < 100);
}

#[test]
fn degenerate_equal_bounds_return_min_without_drawing() {
    let mut rng = RNG::<WyRand, u8>::new(0xDEADBEEF);
    assert_eq!(rng.generate_range(7, 7), 7);
    assert_eq!(rng.generate_range(0, 0), 0);
    assert_eq!(rng.generate(), 139);
}

#[test]
fn degenerate_zero_max_returns_min() {
    let mut g = WyRand::new(5);
    let mut fresh = WyRand::new(5);
    assert_eq!(g.rand_range(0, 0), 0);
    assert_eq!(g.rand_range(9, 0), 9);
    assert_eq!(g.rand_range(20, 3), 20);
    assert_eq!(g.rand(), fresh.rand());
}

#[test]
fn narrowing_out_of_width_gives_zero() {
    let mut rng = RNG::<WyRand, u8>::new(0xDEADBEEF);
    assert_eq!(rng.generate_range(300, 400), 0);
    let mut wide = RNG::<WyRand, u16>::new(0xDEADBEEF);
    assert_eq!(wide.generate_range(300, 400), 354);
}

#[test]
fn smallest_range_always_gives_min() {
    let mut g = WyRand::new(0xDEADBEEF);
    for _ in 0..100 {
        assert_eq!(g.rand_range(17, 18), 17);
    }
}

#[test]
fn largest_range_rejects_only_zero() {
    // From seed 0 the first raw draw is 0, the one value rejected when the
    // range holds 2^64 - 1 values; the second draw is kept.
    let mut g = WyRand::new(0);
    let r = g.rand_range(0, usize::MAX);
    assert_eq!(r, 11345724682103348619);
    let mut h = WyRand::new(0);
    h.rand();
    h.rand();
    assert_eq!(g.rand(), h.rand());
}

#[test]
fn largest_range_values_in_bounds() {
    let mut g = WyRand::new(7);
    assert_eq!(g.rand_range(0, usize::MAX), 8054473171364813408);
    assert_eq!(g.rand_range(0, usize::MAX), 1760543591581215647);
    let mut rng = RNG::<WyRand, u64>::new(7);
    for _ in 0..100 {
        assert!(rng.generate_range(1, usize::MAX) < u64::MAX);
    }
}

#[test]
fn no_modulo_bias_over_three_values() {
    let mut rng = RNG::<WyRand, u8>::new(0xDEADBEEF);
    let mut counts = [0u32; 3];
    let n = 1_000_000u32;
    for _ in 0..n {
        let r = rng.generate_range(0, 3);
        counts[r as usize] += 1;
    }
    for c in counts {
        let freq = c as f64 / n as f64;
        assert!((freq - 1.0 / 3.0).abs() < 0.005);
    }
}

#[test]
fn full_width_u8_covers_every_value() {
    let mut rng = RNG::<WyRand, u8>::new(0xDEADBEEF);
    let mut seen = [false; 256];
    for _ in 0..20_000 {
        seen[rng.generate() as usize] = true;
    }
    assert!(seen.iter().all(|s| *s));
}
