use automaton3d::engine::step;
use automaton3d::grid::{Cell, Grid, GridError};
use automaton3d::rule::{Neighbourhood, Rule};

fn cell(grid: &Grid, index: usize) -> Cell {
    grid.cell_at(index).expect("index in range")
}

#[test]
fn construct_none_all_dead() {
    let grid = Grid::construct(2, 3, 4, 9, None).expect("valid dimensions");
    assert_eq!(grid.cell_count(), 24);
    assert_eq!(grid.x_len, 2);
    assert_eq!(grid.y_len, 3);
    assert_eq!(grid.z_len, 4);
    for i in 0..24 {
        assert_eq!(cell(&grid, i), Cell { alive: false, state: 0 });
    }
}

#[test]
fn construct_pattern_seeds_full_lifetime() {
    let pattern = vec![true, false, false, true, false, true, true, false];
    let grid = Grid::construct(2, 2, 2, 5, Some(pattern.clone())).expect("valid pattern");
    assert_eq!(grid.cell_count(), 8);
    for i in 0..8 {
        // Every cell starts at the full lifetime state, dead cells included.
        assert_eq!(cell(&grid, i), Cell { alive: pattern[i], state: 5 });
    }
}

#[test]
fn construct_rejects_zero_dims() {
    assert_eq!(Grid::construct(0, 3, 3, 1, None).unwrap_err(), GridError::InvalidDimensions);
    assert_eq!(Grid::construct(3, 0, 3, 1, None).unwrap_err(), GridError::InvalidDimensions);
    assert_eq!(Grid::construct(3, 3, 0, 1, None).unwrap_err(), GridError::InvalidDimensions);
    assert_eq!(
        Grid::construct(0, 0, 0, 1, Some(vec![])).unwrap_err(),
        GridError::InvalidDimensions
    );
}

#[test]
fn construct_rejects_wrong_pattern_len() {
    let short = vec![false; 7];
    assert_eq!(
        Grid::construct(2, 2, 2, 1, Some(short)).unwrap_err(),
        GridError::DimensionMismatch
    );
    let long = vec![false; 9];
    assert_eq!(
        Grid::construct(2, 2, 2, 1, Some(long)).unwrap_err(),
        GridError::DimensionMismatch
    );
}

#[test]
fn flat_index_matches_formula() {
    let grid = Grid::construct(3, 4, 5, 0, None).unwrap();
    assert_eq!(grid.flat_index_of(0, 0, 0), 0);
    assert_eq!(grid.flat_index_of(1, 2, 3), 1 + 2 * 3 + 3 * 3 * 4);
    assert_eq!(grid.flat_index_of(2, 3, 4), 59);
}

#[test]
fn flat_round_trip() {
    let grid = Grid::construct(3, 4, 5, 0, None).unwrap();
    for x in 0..3 {
        for y in 0..4 {
            for z in 0..5 {
                let flat = grid.flat_index_of(x, y, z);
                assert_eq!(grid.coordinates_of(flat).unwrap(), (x, y, z));
            }
        }
    }
}

#[test]
fn coordinates_out_of_range() {
    let grid = Grid::construct(2, 2, 2, 0, None).unwrap();
    assert_eq!(grid.coordinates_of(8).unwrap_err(), GridError::IndexOutOfBounds);
    assert_eq!(grid.cell_at(8).unwrap_err(), GridError::IndexOutOfBounds);
    assert_eq!(grid.cell_at_xyz(2, 0, 0).unwrap_err(), GridError::IndexOutOfBounds);
    assert_eq!(grid.cell_at_xyz(0, 2, 0).unwrap_err(), GridError::IndexOutOfBounds);
    assert_eq!(grid.cell_at_xyz(0, 0, 2).unwrap_err(), GridError::IndexOutOfBounds);
}

#[test]
fn cell_lookup_by_index_and_coordinates_agree() {
    let pattern = (0..24).map(|i| i % 3 == 0).collect::<Vec<bool>>();
    let grid = Grid::construct(2, 3, 4, 6, Some(pattern)).unwrap();
    for x in 0..2 {
        for y in 0..3 {
            for z in 0..4 {
                let flat = grid.flat_index_of(x, y, z);
                assert_eq!(grid.cell_at_xyz(x, y, z).unwrap(), cell(&grid, flat));
            }
        }
    }
}

#[test]
fn neighbor_single_cell_empty() {
    let grid = Grid::construct(1, 1, 1, 0, None).unwrap();
    assert_eq!(grid.neighbor_indices_of(0, Neighbourhood::Moore).unwrap(), Vec::<usize>::new());
    assert_eq!(
        grid.neighbor_indices_of(0, Neighbourhood::VonNeumann).unwrap(),
        Vec::<usize>::new()
    );
}

#[test]
fn neighbor_rejects_out_of_range_index() {
    let grid = Grid::construct(2, 2, 2, 0, None).unwrap();
    assert_eq!(
        grid.neighbor_indices_of(8, Neighbourhood::Moore).unwrap_err(),
        GridError::IndexOutOfBounds
    );
}

#[test]
fn neighbor_center_moore_26_distinct() {
    let grid = Grid::construct(3, 3, 3, 0, None).unwrap();
    let neighbors = grid.neighbor_indices_of(13, Neighbourhood::Moore).unwrap();
    assert_eq!(neighbors.len(), 26);
    for (i, &a) in neighbors.iter().enumerate() {
        assert_ne!(a, 13);
        assert!(a < 27);
        for &b in neighbors.iter().skip(i + 1) {
            assert_ne!(a, b);
        }
    }
    assert_eq!(
        neighbors,
        vec![
            0, 9, 18, 3, 12, 21, 6, 15, 24, 1, 10, 19, 4, 22, 7, 16, 25, 2, 11, 20, 5, 14, 23, 8,
            17, 26
        ]
    );
}

#[test]
fn neighbor_center_von_neumann() {
    let grid = Grid::construct(3, 3, 3, 0, None).unwrap();
    let neighbors = grid.neighbor_indices_of(13, Neighbourhood::VonNeumann).unwrap();
    assert_eq!(neighbors, vec![12, 10, 4, 22, 16, 14]);
}

#[test]
fn neighbor_low_corner_clips() {
    // Offsets that would go below zero on any axis are dropped.
    let grid = Grid::construct(3, 3, 3, 0, None).unwrap();
    let neighbors = grid.neighbor_indices_of(0, Neighbourhood::Moore).unwrap();
    assert_eq!(neighbors, vec![9, 3, 12, 1, 10, 4, 13]);
}

#[test]
fn neighbor_high_boundary_aliases() {
    // The cell at (2, 0, 0) sits on the high x face. Offsets past the high
    // boundary are not rejected per axis, so the candidate at x == 3 aliases
    // into flat index 3, which is (0, 1, 0); only candidates at or beyond the
    // buffer's end are clipped.
    let grid = Grid::construct(3, 3, 3, 0, None).unwrap();
    let neighbors = grid.neighbor_indices_of(2, Neighbourhood::Moore).unwrap();
    assert_eq!(neighbors, vec![1, 10, 4, 13, 11, 5, 14, 3, 12, 6, 15]);
    assert!(neighbors.contains(&3));
    assert!(neighbors.iter().all(|&i| i < 27));
}

#[test]
fn step_revives_cell_with_count_in_both_sets() {
    let rule = Rule::new(vec![4], vec![4], Neighbourhood::Moore, 5);
    // Center dead, exactly 4 of its Moore neighbors alive.
    let mut pattern = vec![false; 27];
    for i in [4, 10, 12, 14] {
        pattern[i] = true;
    }
    let grid = Grid::construct(3, 3, 3, 1, Some(pattern.clone())).unwrap();
    let next = step(&grid, &rule);
    assert_eq!(cell(&next, 13), Cell { alive: true, state: 5 });

    // Same neighbors, center alive this time: same outcome.
    pattern[13] = true;
    let grid = Grid::construct(3, 3, 3, 1, Some(pattern)).unwrap();
    let next = step(&grid, &rule);
    assert_eq!(cell(&next, 13), Cell { alive: true, state: 5 });
}

#[test]
fn step_dead_cell_decays_and_saturates() {
    // A lone cell has no neighbors, so its count 0 is in neither set.
    let rule = Rule::new(vec![1], vec![1], Neighbourhood::Moore, 9);
    let grid = Grid::construct(1, 1, 1, 3, Some(vec![false])).unwrap();
    assert_eq!(cell(&grid, 0), Cell { alive: false, state: 3 });
    let grid = step(&grid, &rule);
    assert_eq!(cell(&grid, 0), Cell { alive: false, state: 2 });
    let grid = step(&grid, &rule);
    assert_eq!(cell(&grid, 0), Cell { alive: false, state: 1 });
    let grid = step(&grid, &rule);
    assert_eq!(cell(&grid, 0), Cell { alive: false, state: 0 });
    let grid = step(&grid, &rule);
    // The counter saturates instead of underflowing.
    assert_eq!(cell(&grid, 0), Cell { alive: false, state: 0 });
}

#[test]
fn step_death_resets_state_to_rule_state() {
    // A living cell that fails the survive test dies with the rule's state,
    // not a decayed one.
    let rule = Rule::new(vec![5], vec![], Neighbourhood::Moore, 2);
    let grid = Grid::construct(1, 1, 1, 7, Some(vec![true])).unwrap();
    let next = step(&grid, &rule);
    assert_eq!(cell(&next, 0), Cell { alive: false, state: 2 });
}

#[test]
fn step_empty_sets_never_survive_never_born() {
    let rule = Rule::new(vec![], vec![], Neighbourhood::Moore, 3);
    let mut pattern = vec![false; 27];
    pattern[13] = true;
    let grid = Grid::construct(3, 3, 3, 4, Some(pattern)).unwrap();
    let next = step(&grid, &rule);
    // The living center dies; dead cells stay dead and decay.
    assert_eq!(cell(&next, 13), Cell { alive: false, state: 3 });
    assert_eq!(cell(&next, 0), Cell { alive: false, state: 3 });
}

#[test]
fn step_neighbourhood_selects_offset_set() {
    // All 27 cells alive: the center sees 26 Moore neighbors but only 6
    // Von Neumann neighbors.
    let pattern = vec![true; 27];
    let grid = Grid::construct(3, 3, 3, 1, Some(pattern)).unwrap();

    let vn_rule = Rule::new(vec![6], vec![], Neighbourhood::VonNeumann, 8);
    let next = step(&grid, &vn_rule);
    assert_eq!(cell(&next, 13), Cell { alive: true, state: 8 });

    let moore_rule = Rule::new(vec![6], vec![], Neighbourhood::Moore, 8);
    let next = step(&grid, &moore_rule);
    assert_eq!(cell(&next, 13), Cell { alive: false, state: 8 });
}

#[test]
fn step_preserves_dimensions() {
    let pattern = (0..24).map(|i| i % 5 == 0).collect::<Vec<bool>>();
    let grid = Grid::construct(4, 2, 3, 2, Some(pattern)).unwrap();
    let rule = Rule::new(vec![2, 3], vec![3], Neighbourhood::Moore, 2);
    let next = step(&grid, &rule);
    assert_eq!(next.x_len, 4);
    assert_eq!(next.y_len, 2);
    assert_eq!(next.z_len, 3);
    assert_eq!(next.cell_count(), 24);
}

#[test]
fn step_deterministic() {
    let pattern = (0..27).map(|i| i % 2 == 0 || i % 7 == 0).collect::<Vec<bool>>();
    let grid = Grid::construct(3, 3, 3, 6, Some(pattern)).unwrap();
    let rule = Rule::new(vec![2, 3], vec![3], Neighbourhood::Moore, 4);
    let first = step(&grid, &rule);
    let second = step(&grid, &rule);
    assert_eq!(first.x_len, second.x_len);
    assert_eq!(first.y_len, second.y_len);
    assert_eq!(first.z_len, second.z_len);
    assert_eq!(first.cell_count(), second.cell_count());
    for i in 0..27 {
        assert_eq!(cell(&first, i), cell(&second, i));
    }
}

#[test]
fn rule_new_stores_fields() {
    let rule = Rule::new(vec![2, 3], vec![3], Neighbourhood::VonNeumann, 7);
    assert_eq!(rule.survive, vec![2, 3]);
    assert_eq!(rule.birth, vec![3]);
    assert!(matches!(rule.neighbourhood, Neighbourhood::VonNeumann));
    assert_eq!(rule.state, 7);
}
