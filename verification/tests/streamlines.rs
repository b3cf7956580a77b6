use particle_advection::streamlines::{build_index_buffer, grid_seed_cells, N_SEEDS, N_STEPS};

#[test]
fn index_buffer_small_exact() {
    assert_eq!(build_index_buffer(2, 3), vec![0, 1, 1, 2, 3, 4, 4, 5]);
    assert_eq!(build_index_buffer(1, 2), vec![0, 1]);
}

#[test]
fn index_buffer_edge_cases() {
    assert_eq!(build_index_buffer(0, 5), Vec::<u32>::new());
    assert_eq!(build_index_buffer(4, 1), Vec::<u32>::new());
}

#[test]
fn index_buffer_default_size_and_range() {
    let ix = build_index_buffer(N_SEEDS, N_STEPS);
    assert_eq!(ix.len(), (N_SEEDS * (N_STEPS - 1) * 2) as usize);
    let total = N_SEEDS * N_STEPS;
    assert!(ix.iter().all(|&i| i < total));
    for seg in ix.chunks(2) {
        assert_eq!(seg[1], seg[0] + 1);
        assert_eq!(seg[0] / N_STEPS, seg[1] / N_STEPS);
    }
    assert_eq!(*ix.last().unwrap(), total - 1);
}

#[test]
fn grid_cells_stop_at_n() {
    let cells = grid_seed_cells(5, 2);
    assert_eq!(cells, vec![(0, 0, 0), (0, 0, 1), (0, 1, 0), (0, 1, 1), (1, 0, 0)]);
}

#[test]
fn grid_cells_whole_grid_when_small() {
    let cells = grid_seed_cells(10, 2);
    assert_eq!(cells.len(), 8);
    assert_eq!(cells[7], (1, 1, 1));
    assert_eq!(grid_seed_cells(3, 0), vec![]);
    assert_eq!(grid_seed_cells(0, 4), vec![]);
}

#[test]
fn grid_cells_for_default_seed_count() {
    // 512 seeds fit an 8 × 8 × 8 grid exactly
    let cells = grid_seed_cells(N_SEEDS, 8);
    assert_eq!(cells.len(), 512);
    assert_eq!(cells[0], (0, 0, 0));
    assert_eq!(cells[9], (0, 1, 1));
    assert_eq!(cells[511], (7, 7, 7));
    let mut sorted = cells.clone();
    sorted.dedup();
    assert_eq!(sorted.len(), 512);
}
