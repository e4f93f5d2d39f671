use last_stander::network::Brain;
use last_stander::pool::{GenePool, BLANK_FITNESS, EDEN_FITNESS, IDEAL_POPULATION};

fn distinct(k: u32) -> Brain {
    let mut b = Brain::new_dumb(3);
    b.hidden_layer[0].weights[0] = (k as f32 + 1.0).to_bits();
    b
}

#[test]
fn eden_spawn_returns_the_seed() {
    let mut pool = GenePool::new_eden();
    assert_eq!(pool.len(), 1);
    assert_eq!(pool.fitness_of(0), 800);
    assert_eq!(EDEN_FITNESS, 800);
    assert_eq!(pool.blank_frequency(), 0);
    assert_eq!(pool.ideal_population_size(), IDEAL_POPULATION);
    let seed = Brain::new_dumb(3);
    let mut spawned = pool.spawn(distinct(7));
    assert!(spawned == seed);
    assert_eq!(pool.fitness_of(0), 400);
    spawned.hidden_layer[0].weights[0] = 1.5f32.to_bits();
    assert!(pool.genotype(0) == &seed);
    assert_eq!(pool.len(), 1);
}

#[test]
fn spawn_from_empty_pool_is_the_blank() {
    let mut pool = GenePool::from_population(Vec::new(), Vec::new(), 10, 0);
    let blank = distinct(3);
    assert!(pool.spawn(blank.clone()) == blank);
    assert_eq!(pool.len(), 0);
}

#[test]
fn spawn_with_full_blank_frequency() {
    let mut pool = GenePool::with_settings(10, 1000);
    let blank = distinct(5);
    assert!(pool.spawn(blank.clone()) == blank);
    assert_eq!(pool.fitness_of(0), 800);
}

#[test]
fn spawn_draws_from_the_population() {
    let gs: Vec<Brain> = (0..4).map(distinct).collect();
    let mut pool = GenePool::from_population(gs.iter().cloned().collect(), vec![0, 10, 20, 30], 10, 0);
    let total_before: u32 = (0..4).map(|i| pool.fitness_of(i)).sum();
    let s = pool.spawn(distinct(99));
    let i = gs.iter().position(|g| g == &s).unwrap();
    let f = [0u32, 10, 20, 30][i];
    assert_eq!(pool.fitness_of(i), f / 2);
    let total_after: u32 = (0..4).map(|i| pool.fitness_of(i)).sum();
    assert_eq!(total_before - total_after, f - f / 2);
}

#[test]
fn spawn_from_halves_fitness() {
    let mut pool = GenePool::from_population(vec![distinct(0), distinct(1)], vec![9, 100], 10, 0);
    assert!(pool.spawn_from(1) == distinct(1));
    assert_eq!(pool.fitness_of(1), 50);
    assert_eq!(pool.fitness_of(0), 9);
    assert_eq!(pool.id_of(0), 1);
    assert_eq!(pool.id_of(1), 2);
}

#[test]
fn preserving_a_duplicate_reinforces_it() {
    let mut pool = GenePool::new_eden();
    pool.preserve(Brain::new_dumb(3), 25);
    assert_eq!(pool.len(), 1);
    assert_eq!(pool.fitness_of(0), 825);
    pool.preserve(distinct(1), 7);
    assert_eq!(pool.len(), 2);
    assert_eq!(pool.fitness_of(1), 7);
    assert_eq!(pool.id_of(1), 1);
    pool.preserve(distinct(1), 5);
    assert_eq!(pool.len(), 2);
    assert_eq!(pool.fitness_of(1), 12);
    pool.preserve(distinct(2), 1);
    assert_eq!(pool.id_of(2), 2);
}

#[test]
fn record_saturates() {
    let mut pool = GenePool::from_population(vec![distinct(0)], vec![u32::MAX - 1], 10, 0);
    pool.record(distinct(0), 5);
    assert_eq!(pool.fitness_of(0), u32::MAX);
}

#[test]
fn culling_keeps_population_in_bounds() {
    for _ in 0..50 {
        let gs: Vec<Brain> = (0..15).map(distinct).collect();
        let mut pool = GenePool::from_population(gs, vec![1; 15], 10, 0);
        pool.preserve(distinct(15), 1);
        assert!(pool.len() <= 16);
        assert!(pool.len() >= 10 / 4);
    }
}

#[test]
fn repeated_preserves_stay_under_twice_the_ideal() {
    let mut pool = GenePool::with_settings(10, 0);
    for k in 0..200 {
        pool.preserve(distinct(k), k);
        assert!(pool.len() <= 20);
        if pool.len() > 6 {
            assert!(pool.len() >= 2);
        }
    }
}

#[test]
fn cull_retires_the_oldest_and_refills() {
    let gs: Vec<Brain> = (0..8).map(distinct).collect();
    let mut pool = GenePool::from_population(gs, (0..8).collect(), 10, 0);
    pool.cull(3);
    assert_eq!(pool.len(), 5);
    assert!(pool.genotype(0) == &distinct(3));
    assert_eq!(pool.fitness_of(0), 3);
    assert_eq!(pool.id_of(0), 4);
    pool.cull(100);
    assert_eq!(pool.len(), 2);
    for i in 0..2 {
        assert!(pool.genotype(i) == &Brain::new_dumb(3));
        assert_eq!(pool.fitness_of(i), BLANK_FITNESS);
        assert_eq!(pool.id_of(i), 0);
    }
}

#[test]
fn cull_enforces_the_ceiling() {
    let gs: Vec<Brain> = (0..20).map(distinct).collect();
    let mut pool = GenePool::from_population(gs, vec![0; 20], 10, 0);
    pool.record(distinct(20), 0);
    assert_eq!(pool.len(), 21);
    pool.cull(0);
    assert_eq!(pool.len(), 20);
    assert!(pool.genotype(0) == &distinct(1));
}

#[test]
fn ideal_of_one_retires_everyone() {
    let mut pool = GenePool::with_settings(1, 0);
    pool.preserve(distinct(1), 3);
    assert_eq!(pool.len(), 0);
}

#[test]
fn mutation_rounds_shrink_with_population() {
    assert_eq!(GenePool::new_eden().get_mut_rate(), 19);
    assert_eq!(GenePool::from_population(Vec::new(), Vec::new(), 10, 0).get_mut_rate(), 200);
    let gs: Vec<Brain> = (0..20).map(distinct).collect();
    assert_eq!(GenePool::from_population(gs, vec![0; 20], 10, 0).get_mut_rate(), 1);
    let gs: Vec<Brain> = (0..3).map(distinct).collect();
    assert_eq!(GenePool::from_population(gs, vec![0; 3], 10, 0).get_mut_rate(), 7);
}

#[test]
fn position_finds_the_first_copy() {
    let pool = GenePool::from_population(vec![distinct(0), distinct(1), distinct(1)], vec![0; 3], 10, 0);
    assert_eq!(pool.position_of(&distinct(1)), Some(1));
    assert_eq!(pool.position_of(&distinct(2)), None);
}

#[test]
fn generation_ids_increase() {
    let mut pool = GenePool::with_settings(100, 0);
    let mut last = pool.id_of(0);
    for k in 1..40 {
        pool.preserve(distinct(k), 1);
        let id = pool.id_of(pool.len() - 1);
        assert!(id > last);
        last = id;
    }
    pool.preserve(distinct(1), 1);
    assert_eq!(pool.id_of(pool.len() - 1), last);
}
