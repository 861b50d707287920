use rand::rngs::StdRng;
use rand::{Rng, SeedableRng};
use spatial_game::cell::Cell;
use spatial_game::error::InvalidConfiguration;
use spatial_game::grid::Grid;
use spatial_game::rng::{RngSettings, NEGATIVE_ZERO_BITS, ONE_BITS};

#[test]
fn constants_are_the_patterns_they_are_named_after() {
    assert_eq!(ONE_BITS, 1.0f64.to_bits());
    assert_eq!(NEGATIVE_ZERO_BITS, (-0.0f64).to_bits());
}

#[test]
fn new_accepts_the_unit_interval() {
    for frequency in [0.0f64, -0.0, 1.0, 0.5, 0.3, 1e-320, f64::MIN_POSITIVE, 0.9999999999999999] {
        let settings = RngSettings::new(Some(7), frequency.to_bits()).unwrap();
        assert_eq!(settings.seed, 7);
        assert_eq!(settings.cooperator_frequency, frequency.to_bits());
        assert!(RngSettings::accepts_frequency(frequency.to_bits()));
    }
}

#[test]
fn new_turns_down_everything_else() {
    let rejected = [
        1.0000000000000002f64,
        2.0,
        -1e-320,
        -0.5,
        -1.0,
        f64::MAX,
        f64::MIN,
        f64::INFINITY,
        f64::NEG_INFINITY,
        f64::NAN,
        -f64::NAN,
    ];
    for frequency in rejected {
        assert_eq!(
            RngSettings::new(Some(7), frequency.to_bits()),
            Err(InvalidConfiguration::CooperatorFrequency)
        );
        assert_eq!(
            RngSettings::new(None, frequency.to_bits()),
            Err(InvalidConfiguration::CooperatorFrequency)
        );
        assert!(!RngSettings::accepts_frequency(frequency.to_bits()));
    }
    assert_eq!(
        InvalidConfiguration::CooperatorFrequency.message(),
        "cooperator_frequence must lie between 0.0 and 1.0"
    );
    assert_eq!(
        InvalidConfiguration::Dimension.message(),
        "lattice dimensions must be positive and hold at most i32::MAX sites"
    );
}

#[test]
fn acceptance_agrees_with_the_float_comparison() {
    let mut rng = StdRng::seed_from_u64(99);
    for _ in 0..20000 {
        let bits: u64 = rng.gen();
        let value = f64::from_bits(bits);
        assert_eq!(RngSettings::accepts_frequency(bits), (0.0..=1.0).contains(&value));
    }
    for bits in [ONE_BITS - 1, ONE_BITS, ONE_BITS + 1, NEGATIVE_ZERO_BITS - 1, NEGATIVE_ZERO_BITS + 1, u64::MAX, 0, 1] {
        let value = f64::from_bits(bits);
        assert_eq!(RngSettings::accepts_frequency(bits), (0.0..=1.0).contains(&value));
    }
}

#[test]
fn new_without_a_seed_draws_one() {
    let first = RngSettings::new(None, 0.5f64.to_bits()).unwrap();
    assert_eq!(first.cooperator_frequency, 0.5f64.to_bits());
    let mut differs = false;
    for _ in 0..8 {
        let next = RngSettings::new(None, 0.5f64.to_bits()).unwrap();
        differs = differs || next.seed != first.seed;
    }
    assert!(differs);
}

#[test]
fn a_word_is_read_as_its_top_53_bits() {
    let half = RngSettings { seed: 0, cooperator_frequency: 0.5f64.to_bits() };
    // the fraction is 2^52 - 1 over 2^53: just below one half
    assert!(half.starts_as_cooperator(0x7FFF_FFFF_FFFF_FFFF));
    // the fraction is exactly one half
    assert!(!half.starts_as_cooperator(0x8000_0000_0000_0000));
    // the low eleven bits do not count
    assert!(half.starts_as_cooperator(0x7FFF_FFFF_FFFF_F800));
    assert!(!half.starts_as_cooperator(0x8000_0000_0000_07FF));
    assert!(half.starts_as_cooperator(0));
    assert!(!half.starts_as_cooperator(u64::MAX));

    let quarter = RngSettings { seed: 0, cooperator_frequency: 0.25f64.to_bits() };
    assert!(quarter.starts_as_cooperator(0x3FFF_FFFF_FFFF_FFFF));
    assert!(!quarter.starts_as_cooperator(0x4000_0000_0000_0000));
}

#[test]
fn the_ends_of_the_interval_decide_for_every_word() {
    let never = [0.0f64, -0.0];
    let words = [0u64, 1, 0x7FF, 0x800, 0x8000_0000_0000_0000, u64::MAX];
    for frequency in never {
        let settings = RngSettings { seed: 0, cooperator_frequency: frequency.to_bits() };
        for word in words {
            assert!(!settings.starts_as_cooperator(word));
        }
    }
    let always = RngSettings { seed: 0, cooperator_frequency: 1.0f64.to_bits() };
    for word in words {
        assert!(always.starts_as_cooperator(word));
    }
    // below 2^-53 only the fraction zero lies under the frequency
    for frequency in [5e-324f64, 1e-320, f64::MIN_POSITIVE, 1e-300, 1.0e-17] {
        let settings = RngSettings { seed: 0, cooperator_frequency: frequency.to_bits() };
        assert!(settings.starts_as_cooperator(0));
        assert!(settings.starts_as_cooperator(0x7FF));
        assert!(!settings.starts_as_cooperator(0x800));
        assert!(!settings.starts_as_cooperator(u64::MAX));
    }
}

#[test]
fn the_decision_agrees_with_the_float_comparison() {
    let mut rng = StdRng::seed_from_u64(2024);
    let scale = 1.0 / 9007199254740992.0; // 2^-53
    let mut frequencies = vec![
        0.0f64, -0.0, 1.0, 0.5, 0.3, 0.1, 0.7, 0.9999999999999999, 1e-5, 1e-15, 1.1102230246251565e-16,
        2.220446049250313e-16, 3e-16, 1e-17, 1e-300, 5e-324,
    ];
    for _ in 0..200 {
        frequencies.push(rng.gen::<f64>());
    }
    for frequency in frequencies {
        let settings = RngSettings { seed: 0, cooperator_frequency: frequency.to_bits() };
        let mut words = vec![0u64, 0x7FF, 0x800, 0xFFF, 0x1000, u64::MAX, u64::MAX - 0x800];
        // words around the frequency itself
        let near = (frequency * 9007199254740992.0) as u64;
        for k in [near.saturating_sub(2), near.saturating_sub(1), near, near + 1, near + 2] {
            if k < (1u64 << 53) {
                words.push(k << 11);
            }
        }
        for _ in 0..200 {
            words.push(rng.gen());
        }
        for word in words {
            let sample = (word >> 11) as f64 * scale;
            assert_eq!(
                settings.starts_as_cooperator(word),
                sample < frequency,
                "frequency {frequency:e}, word {word:#x}"
            );
        }
    }
}

#[test]
fn the_population_is_what_the_generator_of_the_seed_draws() {
    for (seed, frequency) in [(1u64, 0.5f64), (100, 0.5), (239203, 0.5), (7, 0.1), (8, 0.9), (9, 0.3)] {
        let settings = RngSettings { seed, cooperator_frequency: frequency.to_bits() };
        let grid = Grid::new((20, 30), true, Some(settings)).unwrap();

        let mut rng = StdRng::seed_from_u64(seed);
        let expected: Vec<Cell> =
            (0..600).map(|_| Cell::new(rng.gen::<f64>() < frequency)).collect();
        assert_eq!(grid.lattice, expected);
        assert!(expected.contains(&Cell::CC(0)));
        assert!(expected.contains(&Cell::DD(0)));
    }
}

#[test]
fn the_population_at_the_ends_of_the_interval() {
    let none = RngSettings { seed: 5, cooperator_frequency: 0.0f64.to_bits() };
    let grid = Grid::new((6, 6), false, Some(none)).unwrap();
    assert!(grid.lattice.iter().all(|cell| *cell == Cell::DD(0)));

    let all = RngSettings { seed: 5, cooperator_frequency: 1.0f64.to_bits() };
    let grid = Grid::new((6, 6), false, Some(all)).unwrap();
    assert!(grid.lattice.iter().all(|cell| *cell == Cell::CC(0)));
}

#[test]
fn different_seeds_give_different_populations() {
    let frequency = 0.5f64.to_bits();
    let a = Grid::new((16, 16), true, Some(RngSettings { seed: 1, cooperator_frequency: frequency }))
        .unwrap();
    let b = Grid::new((16, 16), true, Some(RngSettings { seed: 2, cooperator_frequency: frequency }))
        .unwrap();
    assert_ne!(a.lattice, b.lattice);
    // sites differ among themselves: the generator moves on from site to site
    assert!(a.lattice.iter().any(|cell| cell.is_cooperator()));
    assert!(a.lattice.iter().any(|cell| !cell.is_cooperator()));
}
