use particle_life::simulation::{
    add_attractor, clamp_particle_count, credit_spawned, compact_attraction, equal_species, expand_attraction, grid_dispatch,
    pack_srgb, pick_species, spawn_budget, species_counts, unpack_srgb, wall_row, Rng,
    ATTRACTION_LEN, MAX_ATTRACTORS, MAX_GRID_CELLS, MAX_PARTICLES, MAX_PREFIX_BLOCKS,
    MAX_SPECIES, PALETTE_DEFAULT, WALL_ROW,
};

fn xorshift(x: u32) -> u32 {
    let mut s = x;
    s ^= s << 13;
    s ^= s >> 17;
    s ^= s << 5;
    s
}

// The attraction buffer layout is load-bearing: [0..256] is the 16×16 matrix,
// [256..272] is the wall row.
#[test]
fn attraction_array_layout() {
    assert_eq!(
        MAX_SPECIES * MAX_SPECIES,
        256,
        "particle matrix occupies [0..256]"
    );
    assert_eq!(
        MAX_SPECIES * MAX_SPECIES + MAX_SPECIES,
        272,
        "wall row ends at 272"
    );
}

#[test]
fn rng_is_deterministic() {
    let mut a = Rng::new();
    let mut b = Rng::new();
    for _ in 0..100 {
        assert_eq!(a.next_u32(), b.next_u32());
    }
}

#[test]
fn layout_constants_agree() {
    assert_eq!(ATTRACTION_LEN, 272);
    assert_eq!(WALL_ROW, MAX_SPECIES * MAX_SPECIES);
    assert_eq!(MAX_PREFIX_BLOCKS, 1173);
    assert_eq!(PALETTE_DEFAULT[0], 0xFF8585EF);
    assert_eq!(PALETTE_DEFAULT[15], 0xFFB8F485);
}

#[test]
fn rng_follows_xorshift32_from_seed() {
    let mut rng = Rng::new();
    let mut s = 0xDEAD_BEEFu32;
    for _ in 0..1000 {
        s = xorshift(s);
        let v = rng.next_u32();
        assert_eq!(v, s);
        assert_ne!(v, 0);
    }
}

#[test]
fn pick_species_locked_and_random() {
    let mut rng = Rng::new();
    assert_eq!(pick_species(&mut rng, Some(3), 6), 3);
    // A locked pick draws nothing: the next draw is still the first one.
    let first = xorshift(0xDEAD_BEEF);
    assert_eq!(pick_species(&mut rng, None, 6), (first as usize) % 6);
    assert_eq!(pick_species(&mut rng, None, 6), (xorshift(first) as usize) % 6);
}

#[test]
fn srgb_packing_round_trips_and_is_opaque() {
    let p = pack_srgb(239, 133, 133);
    assert_eq!(p, 0xFF8585EF);
    assert_eq!((p >> 24) & 0xFF, 0xFF);
    assert_eq!(unpack_srgb(p), (239, 133, 133));
    assert_eq!(pack_srgb(0, 0, 0), 0xFF00_0000);
    assert_eq!(unpack_srgb(0xFFEF9885), (0x85, 0x98, 0xEF));
}

#[test]
fn expand_then_compact_restores_the_matrix() {
    let n = 3usize;
    let compact: Vec<f32> = (0..n * n).map(|k| k as f32 * 0.1 - 0.4).collect();
    let wall: Vec<f32> = (0..16).map(|s| s as f32 * -0.05).collect();
    let full = expand_attraction(&compact, n, n, Some(&wall), 0.0f32);
    assert_eq!(full.len(), ATTRACTION_LEN);
    assert_eq!(full[0], compact[0]);
    assert_eq!(full[1 * MAX_SPECIES + 2], compact[1 * n + 2]);
    assert_eq!(full[3], 0.0);
    assert_eq!(full[3 * MAX_SPECIES], 0.0);
    assert_eq!(full[WALL_ROW + 5], wall[5]);
    assert_eq!(compact_attraction(&full, n), compact);
    assert_eq!(wall_row(&full), wall);
}

#[test]
fn expand_copies_the_common_block_and_skips_missing_entries() {
    // A preset for 4 species loaded with only 2 active species.
    let compact: Vec<i32> = (1..=16).collect();
    let full = expand_attraction(&compact, 4, 2, None, 0);
    assert_eq!(full[0], 1);
    assert_eq!(full[1], 2);
    assert_eq!(full[MAX_SPECIES], 5);
    assert_eq!(full[MAX_SPECIES + 1], 6);
    assert_eq!(full[2], 0);
    assert!(full[WALL_ROW..].iter().all(|&v| v == 0));
    // A short compact matrix leaves the missing cells at zero.
    let short = vec![7, 8, 9];
    let full = expand_attraction(&short, 2, 2, Some(&vec![4, 5]), 0);
    assert_eq!(&full[0..2], &[7, 8]);
    assert_eq!(full[MAX_SPECIES], 9);
    assert_eq!(full[MAX_SPECIES + 1], 0);
    assert_eq!(&full[WALL_ROW..WALL_ROW + 3], &[4, 5, 0]);
}

#[test]
fn species_counts_count_each_species() {
    let species = vec![0u32, 1, 1, 2, 5, 1, 0];
    assert_eq!(species_counts(&species, 3), vec![2, 3, 1]);
    assert_eq!(species_counts(&species, 0), Vec::<usize>::new());
}

#[test]
fn equal_species_spreads_evenly() {
    let layout = equal_species(14, 4);
    assert_eq!(layout[..6], [0, 1, 2, 3, 0, 1]);
    assert_eq!(species_counts(&layout, 4), vec![4, 4, 3, 3]);
}

#[test]
fn spawn_budget_never_overflows_the_buffer() {
    assert_eq!(spawn_budget(0, 50), 50);
    assert_eq!(spawn_budget(MAX_PARTICLES as u32 - 10, 50), 10);
    assert_eq!(spawn_budget(MAX_PARTICLES as u32, 50), 0);
    assert_eq!(spawn_budget(u32::MAX, 50), 0);
}

#[test]
fn attractors_are_capped() {
    let mut list: Vec<u32> = Vec::new();
    for i in 0..(MAX_ATTRACTORS as u32 + 5) {
        add_attractor(&mut list, i);
    }
    assert_eq!(list.len(), MAX_ATTRACTORS);
    assert_eq!(list[MAX_ATTRACTORS - 1], MAX_ATTRACTORS as u32 - 1);
}

#[test]
fn grid_dispatch_sizes() {
    // Default r_max = 0.08 gives a 25 × 25 grid.
    let d = grid_dispatch(5_000, 25);
    assert_eq!(d.grid_w, 25);
    assert_eq!(d.n_cells, 625);
    assert_eq!(d.workgroups, 79);
    assert_eq!(d.n_blocks, 3);
    assert_eq!(d.propagate_groups, 3);
    // Small grids are raised to 5 × 5; exact multiples keep a sentinel group.
    let d = grid_dispatch(64, 2);
    assert_eq!(d.grid_w, 5);
    assert_eq!(d.workgroups, 1);
    let d = grid_dispatch(0, 16);
    assert_eq!(d.n_cells, 256);
    assert_eq!(d.n_blocks, 1);
    assert_eq!(d.propagate_groups, 2);
    assert_eq!(d.workgroups, 0);
    let d = grid_dispatch(2_000_000, 547);
    assert!(d.n_cells as usize <= MAX_GRID_CELLS);
    assert!((d.n_blocks as usize) < MAX_PREFIX_BLOCKS);
}

#[test]
fn spawned_particles_are_credited_to_species() {
    let mut counts = vec![10usize, 10, 10, 10];
    credit_spawned(&mut counts, 7, Some(2), 4);
    assert_eq!(counts, vec![10, 10, 17, 10]);
    credit_spawned(&mut counts, 7, None, 4);
    assert_eq!(counts, vec![12, 12, 19, 11]);
    // A locked species without a counter falls back to the even split.
    credit_spawned(&mut counts, 4, Some(9), 4);
    assert_eq!(counts, vec![13, 13, 20, 12]);
    assert_eq!(counts.iter().sum::<usize>(), 40 + 18);
}

#[test]
fn requested_particle_counts_are_clamped() {
    assert_eq!(clamp_particle_count(0), 100);
    assert_eq!(clamp_particle_count(99), 100);
    assert_eq!(clamp_particle_count(100), 100);
    assert_eq!(clamp_particle_count(12_345), 12_345);
    assert_eq!(clamp_particle_count(MAX_PARTICLES), MAX_PARTICLES);
    assert_eq!(clamp_particle_count(MAX_PARTICLES + 1), MAX_PARTICLES);
}
