use rustedpond::cell::Cell;
use rustedpond::cell::CellIdGenerator;
use rustedpond::cell::InteractionType;
use rustedpond::genome::GenomePointer;
use rustedpond::random_generator::RandomGenerator;

#[test]
fn id_generator_counts_up() {
    let mut ids = CellIdGenerator::new();
    assert_eq!(ids.next().0, 1);
    assert_eq!(ids.next().0, 2);
    assert_eq!(ids.next().0, 3);
}

#[test]
fn new_cell_defaults() {
    let mut ids = CellIdGenerator::new();
    let c = Cell::new(&mut ids);
    assert_eq!(c.id.0, 1);
    assert!(c.parent_id.is_none());
    assert_eq!(c.lineage, c.id);
    assert_eq!(c.generation, 0);
    assert_eq!(c.energy, 1000);
    for i in 0..512 {
        assert_eq!(c.genome.0[i], 0xff);
    }
}

#[test]
fn random_cell_draws_its_genome() {
    let mut ids = CellIdGenerator::new();
    let mut rng = RandomGenerator::new(1, 2);
    let c = Cell::random(&mut ids, &mut rng);
    assert_eq!(c.id.0, 1);
    assert_eq!(c.lineage, c.id);
    assert!(c.parent_id.is_none());
    assert_eq!(c.energy, 1000);
    assert_eq!(c.genome.0[0], 0x45);
}

#[test]
fn parentless_cell_is_always_accessible() {
    let mut ids = CellIdGenerator::new();
    let c = Cell::new(&mut ids);
    for guess in 0..16u8 {
        for threshold in 0..16u8 {
            assert!(c.can_be_accessed(guess, InteractionType::Positive, threshold));
            assert!(c.can_be_accessed(guess, InteractionType::Negative, threshold));
        }
    }
}

#[test]
fn zero_distance_passes_both_ways() {
    let mut ids = CellIdGenerator::new();
    let mut c = Cell::new(&mut ids);
    c.parent_id = Some(c.id);
    // First genome nibble 0x5 and a matching guess: distance 0.
    c.genome.set(&GenomePointer::new(0, true), 0x5);
    for threshold in 0..16u8 {
        assert!(c.can_be_accessed(0x5, InteractionType::Positive, threshold));
        assert!(
            c.can_be_accessed(0x5, InteractionType::Negative, threshold) == (threshold & 0x0f == 0)
        );
    }
}

#[test]
fn full_distance_favors_the_negative() {
    let mut ids = CellIdGenerator::new();
    let mut c = Cell::new(&mut ids);
    c.parent_id = Some(c.id);
    // First genome nibble 0xf against guess 0x0: distance 4.
    assert_eq!(c.genome.0[0] & 0x0f, 0x0f);
    for threshold in 0..16u8 {
        let t = threshold & 0x0f;
        assert!(c.can_be_accessed(0x0, InteractionType::Negative, threshold) == (t <= 4));
        assert!(c.can_be_accessed(0x0, InteractionType::Positive, threshold) == (t >= 4));
    }
}

#[test]
fn threshold_compares_against_popcount() {
    let mut ids = CellIdGenerator::new();
    let mut c = Cell::new(&mut ids);
    c.parent_id = Some(c.id);
    // First genome nibble 0x6 against guess 0x5: 0x6 ^ 0x5 = 0x3, distance 2.
    c.genome.set(&GenomePointer::new(0, true), 0x6);
    assert!(!c.can_be_accessed(0x5, InteractionType::Positive, 1));
    assert!(c.can_be_accessed(0x5, InteractionType::Positive, 2));
    assert!(c.can_be_accessed(0x5, InteractionType::Negative, 2));
    assert!(!c.can_be_accessed(0x5, InteractionType::Negative, 3));
    // The threshold is read as a nibble: 0x12 acts as 0x2.
    assert!(c.can_be_accessed(0x5, InteractionType::Positive, 0x12));
}
