use rustedpond::genome::Genome;
use rustedpond::genome::GenomePointer;
use rustedpond::random_generator::RandomGenerator;

#[test]
fn new_genome_is_inert() {
    let g = Genome::new();
    assert_eq!(g.0.len(), 512);
    for i in 0..512 {
        assert_eq!(g.0[i], 0xff);
    }
}

#[test]
fn random_genome_truncates_draws() {
    // The first word from seeds (1, 2) is 0x800045, whose low byte is 0x45.
    let mut rng = RandomGenerator::new(1, 2);
    let g = Genome::random(&mut rng);
    assert_eq!(g.0.len(), 512);
    assert_eq!(g.0[0], 0x45);
    let mut rng2 = RandomGenerator::new(1, 2);
    let g2 = Genome::random(&mut rng2);
    for i in 0..512 {
        assert_eq!(g.0[i], g2.0[i]);
    }
}

#[test]
fn get_set_round_trip_low_half() {
    let mut g = Genome::new();
    let p = GenomePointer::new(17, true);
    g.set(&p, 0x6);
    assert_eq!(g.get(&p), 0x6);
    assert_eq!(g.0[17], 0xf6);
}

#[test]
fn get_set_round_trip_high_half() {
    let mut g = Genome::new();
    let p = GenomePointer::new(17, false);
    g.set(&p, 0x6);
    assert_eq!(g.get(&p), 0x6);
    assert_eq!(g.0[17], 0x6f);
}

#[test]
fn set_masks_to_four_bits() {
    let mut g = Genome::new();
    let p = GenomePointer::new(3, true);
    g.set(&p, 0xa7);
    assert_eq!(g.get(&p), 0x7);
}

#[test]
fn set_keeps_other_nibbles() {
    let mut g = Genome::new();
    let low = GenomePointer::new(9, true);
    let high = GenomePointer::new(9, false);
    g.set(&low, 0x1);
    g.set(&high, 0x2);
    assert_eq!(g.get(&low), 0x1);
    assert_eq!(g.get(&high), 0x2);
    assert_eq!(g.get(&GenomePointer::new(8, true)), 0xf);
    assert_eq!(g.get(&GenomePointer::new(10, false)), 0xf);
}

#[test]
fn next_walks_low_then_high() {
    let mut p = GenomePointer::new(0, true);
    p.next();
    assert_eq!((p.array_pointer, p.is_lower_byte), (0, false));
    p.next();
    assert_eq!((p.array_pointer, p.is_lower_byte), (1, true));
}

#[test]
fn next_wraps_at_the_end() {
    let mut p = GenomePointer::new(511, false);
    p.next();
    assert_eq!((p.array_pointer, p.is_lower_byte), (0, true));
}

#[test]
fn prev_wraps_at_the_start() {
    let mut p = GenomePointer::new(0, true);
    p.prev();
    assert_eq!((p.array_pointer, p.is_lower_byte), (511, false));
}

#[test]
fn full_cycle_returns_to_start() {
    let mut p = GenomePointer::new(37, false);
    for _ in 0..1024 {
        p.next();
        assert!(p.array_pointer < 512);
    }
    assert_eq!((p.array_pointer, p.is_lower_byte), (37, false));
}

#[test]
fn prev_inverts_next() {
    let starts = [(0usize, true), (0, false), (511, true), (511, false), (200, true)];
    for &(i, half) in starts.iter() {
        let mut p = GenomePointer::new(i, half);
        p.next();
        p.prev();
        assert_eq!((p.array_pointer, p.is_lower_byte), (i, half));
        p.prev();
        p.next();
        assert_eq!((p.array_pointer, p.is_lower_byte), (i, half));
    }
}

#[test]
fn clone_copies_the_bytes() {
    let mut g = Genome::new();
    g.set(&GenomePointer::new(0, true), 0x3);
    let c = g.clone();
    assert_eq!(c.0[0], 0xf3);
    assert_eq!(c.0.len(), 512);
}
