use particle_sims::grid::{Grid, GridError, NodeRule, BAND_DIVISOR, STENCIL_WIDTH};

fn grid(resolution: usize) -> Grid {
    Grid::new(resolution).expect("a valid resolution")
}

#[test]
fn zero_resolution_is_refused() {
    assert_eq!(Grid::new(0), Err(GridError::ZeroResolution));
}

#[test]
fn resolution_whose_nodes_cannot_be_counted_is_refused() {
    assert_eq!(Grid::new(usize::MAX), Err(GridError::ResolutionTooLarge));
    assert_eq!(Grid::new(usize::MAX - 1), Err(GridError::ResolutionTooLarge));
    let root = (usize::MAX as f64).sqrt() as usize;
    assert_eq!(Grid::new(root), Err(GridError::ResolutionTooLarge));
}

#[test]
fn smallest_grid_has_four_nodes() {
    let g = grid(1);
    assert_eq!(g.resolution(), 1);
    assert_eq!(g.side(), 2);
    assert_eq!(g.node_count(), 4);
}

#[test]
fn grid_of_resolution_32_has_1089_nodes() {
    let g = grid(32);
    assert_eq!(g.resolution(), 32);
    assert_eq!(g.side(), 33);
    assert_eq!(g.node_count(), 1089);
}

#[test]
fn node_index_is_column_after_column() {
    let g = grid(32);
    assert_eq!(g.node_index(0, 0), Some(0));
    assert_eq!(g.node_index(0, 32), Some(32));
    assert_eq!(g.node_index(1, 0), Some(33));
    assert_eq!(g.node_index(3, 4), Some(103));
    assert_eq!(g.node_index(32, 32), Some(1088));
}

#[test]
fn node_index_outside_the_grid_is_none() {
    let g = grid(32);
    assert_eq!(g.node_index(33, 0), None);
    assert_eq!(g.node_index(0, 33), None);
    assert_eq!(g.node_index(usize::MAX, usize::MAX), None);
}

#[test]
fn node_coords_inverts_node_index() {
    for resolution in [1usize, 2, 7, 32] {
        let g = grid(resolution);
        let mut expected = 0;
        for i in 0..=resolution {
            for j in 0..=resolution {
                let k = g.node_index(i, j).expect("a node of the grid");
                assert_eq!(k, expected);
                assert_eq!(g.node_coords(k), Some((i, j)));
                expected += 1;
            }
        }
        assert_eq!(expected, g.node_count());
        assert_eq!(g.node_coords(g.node_count()), None);
        assert_eq!(g.node_coords(usize::MAX), None);
    }
}

#[test]
fn stencil_lists_nine_nodes_in_row_major_order() {
    let g = grid(32);
    assert_eq!(
        g.stencil(15, 15),
        Some([510, 511, 512, 543, 544, 545, 576, 577, 578])
    );
    assert_eq!(g.stencil(0, 0), Some([0, 1, 2, 33, 34, 35, 66, 67, 68]));
}

#[test]
fn stencil_matches_node_index() {
    let g = grid(9);
    for bx in 0..=7i32 {
        for by in 0..=7i32 {
            let nodes = g.stencil(bx, by).expect("a stencil inside the grid");
            for i in 0..STENCIL_WIDTH {
                for j in 0..STENCIL_WIDTH {
                    assert_eq!(
                        Some(nodes[STENCIL_WIDTH * i + j]),
                        g.node_index(bx as usize + i, by as usize + j)
                    );
                }
            }
        }
    }
}

#[test]
fn stencil_nodes_are_distinct_and_inside() {
    let g = grid(5);
    for bx in 0..=3i32 {
        for by in 0..=3i32 {
            let nodes = g.stencil(bx, by).expect("a stencil inside the grid");
            for a in 0..9 {
                assert!(nodes[a] < g.node_count());
                for b in (a + 1)..9 {
                    assert_ne!(nodes[a], nodes[b]);
                }
            }
        }
    }
}

#[test]
fn stencil_that_leaves_the_grid_is_none() {
    let g = grid(32);
    assert!(g.stencil(30, 30).is_some());
    assert_eq!(g.stencil(31, 0), None);
    assert_eq!(g.stencil(0, 31), None);
    assert_eq!(g.stencil(-1, 0), None);
    assert_eq!(g.stencil(0, -1), None);
    assert_eq!(g.stencil(i32::MIN, i32::MAX), None);
    assert_eq!(g.stencil(i32::MAX, 5), None);
}

#[test]
fn grids_smaller_than_a_stencil_have_none() {
    assert_eq!(grid(1).stencil(0, 0), None);
    assert!(grid(2).stencil(0, 0).is_some());
    assert_eq!(grid(2).stencil(1, 0), None);
}

#[test]
fn wall_nodes_are_sticky() {
    for resolution in [1usize, 2, 19, 20, 21, 32, 64, 255] {
        let g = grid(resolution);
        for j in 0..=resolution {
            assert!(g.node_rule(0, j).sticky);
            assert!(g.node_rule(resolution, j).sticky);
        }
        for i in 0..=resolution {
            assert!(g.node_rule(i, resolution).sticky);
            assert!(g.node_rule(i, 0).floor);
        }
    }
}

#[test]
fn node_rules_of_resolution_32() {
    let g = grid(32);
    // 1/32 lies in the band, 2/32 does not; 30/32 does not, 31/32 does.
    assert_eq!(g.node_rule(1, 16), NodeRule { sticky: true, floor: false });
    assert_eq!(g.node_rule(2, 16), NodeRule { sticky: false, floor: false });
    assert_eq!(g.node_rule(30, 16), NodeRule { sticky: false, floor: false });
    assert_eq!(g.node_rule(31, 16), NodeRule { sticky: true, floor: false });
    assert_eq!(g.node_rule(16, 1), NodeRule { sticky: false, floor: true });
    assert_eq!(g.node_rule(16, 2), NodeRule { sticky: false, floor: false });
    assert_eq!(g.node_rule(16, 30), NodeRule { sticky: false, floor: false });
    assert_eq!(g.node_rule(16, 31), NodeRule { sticky: true, floor: false });
    assert_eq!(g.node_rule(1, 1), NodeRule { sticky: true, floor: true });
}

#[test]
fn band_edges_themselves_are_outside_the_band() {
    // With twenty cells per axis, node 1 sits exactly at 1/20 and node 19 at 19/20.
    assert_eq!(BAND_DIVISOR, 20);
    let g = grid(20);
    assert_eq!(g.node_rule(1, 10), NodeRule { sticky: false, floor: false });
    assert_eq!(g.node_rule(19, 10), NodeRule { sticky: false, floor: false });
    assert_eq!(g.node_rule(10, 1), NodeRule { sticky: false, floor: false });
    assert_eq!(g.node_rule(10, 19), NodeRule { sticky: false, floor: false });
    assert_eq!(g.node_rule(10, 0), NodeRule { sticky: false, floor: true });
    assert_eq!(g.node_rule(10, 20), NodeRule { sticky: true, floor: false });
}

#[test]
fn node_rules_agree_with_single_precision_coordinates() {
    let boundary: f32 = 0.05;
    for resolution in 1..=300usize {
        let g = grid(resolution);
        for i in 0..=resolution {
            let x = i as f32 / resolution as f32;
            for j in [0, 1, resolution / 20, resolution / 20 + 1, resolution / 2, resolution - resolution / 20, resolution] {
                if j > resolution {
                    continue;
                }
                let y = j as f32 / resolution as f32;
                let rule = g.node_rule(i, j);
                assert_eq!(rule.sticky, x < boundary || x > 1.0 - boundary || y > 1.0 - boundary);
                assert_eq!(g.node_rule(j, i).floor, x < boundary);
            }
        }
    }
}
