use rustedpond::random_generator::RandomGenerator;

#[test]
fn generate_integer_first_word() {
    // x = 1 ^ (1 << 23) = 0x800001; x >> 17 = 0x40;
    // s1 = 0x800001 ^ 2 ^ 0x40 = 0x800043; output = s1 + 2 = 0x800045.
    let mut g = RandomGenerator::new(1, 2);
    assert_eq!(g.generate_integer(), 0x800045);
}

#[test]
fn generate_integer_is_deterministic() {
    let mut a = RandomGenerator::new(12345, 67890);
    let mut b = RandomGenerator::new(12345, 67890);
    for _ in 0..100 {
        assert_eq!(a.generate_integer(), b.generate_integer());
    }
}

#[test]
fn generate_integer_depends_on_seeds() {
    let mut a = RandomGenerator::new(1, 2);
    let mut b = RandomGenerator::new(2, 1);
    assert_ne!(a.generate_integer(), b.generate_integer());
}

#[test]
fn zero_seeds_stay_zero() {
    let mut g = RandomGenerator::new(0, 0);
    for _ in 0..10 {
        assert_eq!(g.generate_integer(), 0);
    }
}

#[test]
fn generate_boolean_tests_bit_seven() {
    // The first word from seeds (1, 2) is 0x800045, whose 0x80 bit is clear.
    let mut g = RandomGenerator::new(1, 2);
    assert!(!g.generate_boolean());
    let mut z = RandomGenerator::new(0, 0);
    assert!(!z.generate_boolean());
}

#[test]
fn generate_cell_position_formula() {
    // n = 0x800045 = 8388677: x = n % 800 = 677,
    // y = ((n / 600) >> 1) % 600 = (13981 >> 1) % 600 = 6990 % 600 = 390.
    let mut g = RandomGenerator::new(1, 2);
    let p = g.generate_cell_position();
    assert_eq!(p.0, 677);
    assert_eq!(p.1, 390);
}

#[test]
fn generate_cell_position_stays_on_grid() {
    let mut g = RandomGenerator::new(991, 7);
    for _ in 0..1000 {
        let p = g.generate_cell_position();
        assert!(p.0 < 800);
        assert!(p.1 < 600);
    }
}
