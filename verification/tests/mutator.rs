use blackbox_fuzz::mutator::{mutate, mutate_with, Draw, MUTATION_STEPS};

#[test]
fn mutation_performs_eight_steps() {
    assert_eq!(MUTATION_STEPS, 8);
}

#[test]
fn mutate_keeps_length_for_small_and_large_seeds() {
    for len in 1..=64usize {
        let seed = vec![0xAAu8; len];
        for _ in 0..16 {
            assert_eq!(mutate(&seed).len(), len);
        }
    }
    let seed = vec![7u8; 4096];
    assert_eq!(mutate(&seed).len(), 4096);
}

#[test]
fn mutate_leaves_empty_seed_unchanged() {
    let seed: Vec<u8> = Vec::new();
    assert_eq!(mutate(&seed), Vec::<u8>::new());
}

#[test]
fn mutate_changes_at_most_eight_positions() {
    let seed: Vec<u8> = (0..200u32).map(|i| (i % 251) as u8).collect();
    for _ in 0..200 {
        let candidate = mutate(&seed);
        let changed = seed.iter().zip(candidate.iter()).filter(|(a, b)| a != b).count();
        assert!(changed <= MUTATION_STEPS);
    }
}

#[test]
fn mutate_does_not_touch_the_seed() {
    let seed = vec![1u8, 2, 3, 4, 5, 6, 7, 8, 9, 10];
    let copy = seed.clone();
    let _ = mutate(&seed);
    assert_eq!(seed, copy);
}

#[test]
fn mutate_varies_between_calls() {
    let seed = vec![0u8; 256];
    let first = mutate(&seed);
    let mut saw_other = false;
    for _ in 0..64 {
        if mutate(&seed) != first {
            saw_other = true;
        }
    }
    assert!(saw_other);
}

#[test]
fn mutate_with_applies_draws_in_order() {
    let seed = vec![10u8, 20, 30, 40];
    let draws = [
        Draw { position: 1, value: 0xFF },
        Draw { position: 6, value: 0x01 },
        Draw { position: 1, value: 0x7F },
    ];
    assert_eq!(mutate_with(&seed, &draws), vec![10u8, 0x7F, 0x01, 40]);
}

#[test]
fn mutate_with_reduces_positions_modulo_length() {
    let seed = vec![0u8; 100];
    let draws = [Draw { position: 100 * 7 + 42, value: 9 }];
    let candidate = mutate_with(&seed, &draws);
    assert_eq!(candidate[42], 9);
    assert_eq!(candidate.iter().filter(|b| **b != 0).count(), 1);

    let draws = [Draw { position: usize::MAX, value: 3 }];
    let candidate = mutate_with(&seed, &draws);
    assert_eq!(candidate[usize::MAX % 100], 3);
}

#[test]
fn mutate_with_no_draws_copies_the_seed() {
    let seed = vec![5u8, 6, 7];
    assert_eq!(mutate_with(&seed, &[]), seed);
}

#[test]
fn mutate_with_ignores_draws_on_empty_seed() {
    let draws = [Draw { position: 3, value: 1 }; 8];
    assert_eq!(mutate_with(&[], &draws), Vec::<u8>::new());
}

#[test]
fn mutate_with_is_deterministic() {
    let seed: Vec<u8> = (0..50u8).collect();
    let draws: Vec<Draw> = (0..8usize)
        .map(|i| Draw { position: i * 977 + 13, value: (i * 31) as u8 })
        .collect();
    let first = mutate_with(&seed, &draws);
    for _ in 0..10 {
        assert_eq!(mutate_with(&seed, &draws), first);
    }
}

#[test]
fn mutate_with_single_byte_seed() {
    let draws = [Draw { position: 12345, value: 0xEE }];
    assert_eq!(mutate_with(&[0x11], &draws), vec![0xEEu8]);
}
