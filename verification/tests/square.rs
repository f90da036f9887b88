use blob_evolution::blob::RGB;
use blob_evolution::gene::Genome;
use blob_evolution::population::{create_black, create_runner};
use blob_evolution::square::{integer_sqrt, Quadrant, Square};

const ALL: [Quadrant; 4] = [
    Quadrant::TopTriangularQuadrant,
    Quadrant::BottomTriangularQuadrant,
    Quadrant::RightTriangularQuadrant,
    Quadrant::LeftTriangularQuadrant,
];

fn indices(quadrant: Quadrant, side: usize) -> Vec<(usize, usize)> {
    <Genome<RGB> as Square<RGB>>::get_quadrant_indices(quadrant, side)
}

fn numbered(size: usize) -> Genome<RGB> {
    (0..size).map(|i| RGB { r: i as u8, g: 0, b: 0 }).collect()
}

#[test]
fn integer_sqrt_is_the_floor_of_the_root() {
    assert_eq!(integer_sqrt(0), 0);
    assert_eq!(integer_sqrt(1), 1);
    assert_eq!(integer_sqrt(2), 1);
    assert_eq!(integer_sqrt(3), 1);
    assert_eq!(integer_sqrt(4), 2);
    assert_eq!(integer_sqrt(8), 2);
    assert_eq!(integer_sqrt(9), 3);
    assert_eq!(integer_sqrt(143), 11);
    assert_eq!(integer_sqrt(144), 12);
    assert_eq!(integer_sqrt(145), 12);
    assert_eq!(integer_sqrt(u32::MAX as usize), 65_535);
    assert_eq!(integer_sqrt(usize::MAX), (1usize << (usize::BITS / 2)) - 1);
}

#[test]
fn integer_sqrt_brackets_every_small_number() {
    for n in 0usize..5000 {
        let root = integer_sqrt(n);
        assert!(root * root <= n);
        assert!(n < (root + 1) * (root + 1));
    }
}

#[test]
fn the_side_is_the_floor_of_the_root_of_the_length() {
    assert_eq!(numbered(0).side_length(), 0);
    assert_eq!(numbered(9).side_length(), 3);
    assert_eq!(numbered(10).side_length(), 3);
    assert_eq!(numbered(15).side_length(), 3);
    assert_eq!(numbered(16).side_length(), 4);
    assert_eq!(numbered(144).side_length(), 12);
}

#[test]
fn the_bottom_quadrant_of_a_grid_of_four() {
    assert_eq!(
        indices(Quadrant::BottomTriangularQuadrant, 4),
        vec![(0, 0), (1, 0), (2, 0), (3, 0), (1, 1), (2, 1)]
    );
}

#[test]
fn the_top_quadrant_of_a_grid_of_four() {
    assert_eq!(
        indices(Quadrant::TopTriangularQuadrant, 4),
        vec![(0, 3), (1, 3), (2, 3), (3, 3), (1, 2), (2, 2)]
    );
}

#[test]
fn the_left_quadrant_of_a_grid_of_four() {
    assert_eq!(
        indices(Quadrant::LeftTriangularQuadrant, 4),
        vec![(0, 0), (0, 1), (0, 2), (0, 3), (1, 1), (1, 2)]
    );
}

#[test]
fn the_right_quadrant_of_a_grid_of_four() {
    assert_eq!(
        indices(Quadrant::RightTriangularQuadrant, 4),
        vec![(3, 0), (3, 1), (3, 2), (3, 3), (2, 1), (2, 2)]
    );
}

#[test]
fn top_and_bottom_share_no_cell_in_a_grid_of_four() {
    let top = indices(Quadrant::TopTriangularQuadrant, 4);
    let bottom = indices(Quadrant::BottomTriangularQuadrant, 4);
    assert_eq!(top.len(), 6);
    assert_eq!(bottom.len(), 6);
    for cell in &top {
        assert!(!bottom.contains(cell));
    }
}

#[test]
fn opposite_quadrants_share_no_cell() {
    for side in 0..12 {
        let top = indices(Quadrant::TopTriangularQuadrant, side);
        let bottom = indices(Quadrant::BottomTriangularQuadrant, side);
        let left = indices(Quadrant::LeftTriangularQuadrant, side);
        let right = indices(Quadrant::RightTriangularQuadrant, side);
        for cell in &top {
            assert!(!bottom.contains(cell));
        }
        for cell in &left {
            assert!(!right.contains(cell));
        }
    }
}

#[test]
fn neighbouring_quadrants_meet_on_the_diagonal() {
    let bottom = indices(Quadrant::BottomTriangularQuadrant, 4);
    let left = indices(Quadrant::LeftTriangularQuadrant, 4);
    let shared: Vec<(usize, usize)> = bottom.iter().filter(|cell| left.contains(cell)).cloned().collect();
    assert_eq!(shared, vec![(0, 0), (1, 1)]);
}

#[test]
fn the_quadrants_of_a_grid_of_three_leave_the_centre_out() {
    assert_eq!(indices(Quadrant::BottomTriangularQuadrant, 3), vec![(0, 0), (1, 0), (2, 0)]);
    assert_eq!(indices(Quadrant::TopTriangularQuadrant, 3), vec![(0, 2), (1, 2), (2, 2)]);
    assert_eq!(indices(Quadrant::LeftTriangularQuadrant, 3), vec![(0, 0), (0, 1), (0, 2)]);
    assert_eq!(indices(Quadrant::RightTriangularQuadrant, 3), vec![(2, 0), (2, 1), (2, 2)]);
    for quadrant in ALL {
        assert!(!indices(quadrant, 3).contains(&(1, 1)));
    }
}

#[test]
fn grids_below_two_have_empty_quadrants() {
    for quadrant in ALL {
        assert_eq!(indices(quadrant, 0), vec![]);
        assert_eq!(indices(quadrant, 1), vec![]);
    }
}

#[test]
fn a_quadrant_has_as_many_cells_as_its_rows_hold() {
    for side in 0usize..20 {
        let half = side / 2;
        let expected = if half == 0 { 0 } else { half * side - half * (half - 1) };
        for quadrant in ALL {
            let cells = indices(quadrant, side);
            assert_eq!(cells.len(), expected);
            for (x, y) in cells {
                assert!(x < side && y < side);
            }
        }
    }
}

#[test]
fn get_reads_the_cell_at_row_times_side_plus_column() {
    let genome = numbered(16);
    assert_eq!(genome.get((0, 0)).r, 0);
    assert_eq!(genome.get((3, 0)).r, 3);
    assert_eq!(genome.get((0, 1)).r, 4);
    assert_eq!(genome.get((2, 3)).r, 14);
    let longer = numbered(11);
    assert_eq!(longer.get((1, 2)).r, 7);
}

#[test]
fn set_writes_one_cell() {
    let mut genome = numbered(16);
    Square::set(&mut genome, (2, 1), RGB { r: 200, g: 1, b: 2 });
    for i in 0..16 {
        if i == 6 {
            assert_eq!(genome[i], RGB { r: 200, g: 1, b: 2 });
        } else {
            assert_eq!(genome[i], RGB { r: i as u8, g: 0, b: 0 });
        }
    }
}

#[test]
fn get_quadrant_reads_the_cells_in_their_order() {
    let genome = numbered(16);
    let reds: Vec<u8> = genome.get_quadrant(Quadrant::BottomTriangularQuadrant).iter().map(|c| c.r).collect();
    assert_eq!(reds, vec![0, 1, 2, 3, 5, 6]);
    let reds: Vec<u8> = genome.get_quadrant(Quadrant::TopTriangularQuadrant).iter().map(|c| c.r).collect();
    assert_eq!(reds, vec![12, 13, 14, 15, 9, 10]);
    let reds: Vec<u8> = genome.get_quadrant(Quadrant::LeftTriangularQuadrant).iter().map(|c| c.r).collect();
    assert_eq!(reds, vec![0, 4, 8, 12, 5, 9]);
    let reds: Vec<u8> = genome.get_quadrant(Quadrant::RightTriangularQuadrant).iter().map(|c| c.r).collect();
    assert_eq!(reds, vec![3, 7, 11, 15, 6, 10]);
}

#[test]
fn get_quadrant_passes_over_the_units_past_the_grid() {
    let genome = numbered(11);
    let reds: Vec<u8> = genome.get_quadrant(Quadrant::TopTriangularQuadrant).iter().map(|c| c.r).collect();
    assert_eq!(reds, vec![6, 7, 8]);
}

#[test]
fn set_quadrant_paints_the_wedge_and_nothing_else() {
    let red = RGB { r: 255, g: 0, b: 0 };
    let black = RGB { r: 0, g: 0, b: 0 };
    let mut genome = create_black(16);
    genome.set_quadrant(Quadrant::RightTriangularQuadrant, red);
    let painted = [3usize, 7, 11, 15, 6, 10];
    for i in 0..16 {
        assert_eq!(genome[i], if painted.contains(&i) { red } else { black });
    }
}

#[test]
fn set_quadrant_leaves_the_units_past_the_grid() {
    let white = RGB { r: 255, g: 255, b: 255 };
    let mut genome = numbered(11);
    genome.set_quadrant(Quadrant::BottomTriangularQuadrant, white);
    assert_eq!(genome.len(), 11);
    for i in 0..11 {
        assert_eq!(genome[i], if i < 3 { white } else { RGB { r: i as u8, g: 0, b: 0 } });
    }
}

#[test]
fn a_runner_has_a_red_first_row() {
    let red = RGB { r: 255, g: 0, b: 0 };
    let black = RGB { r: 0, g: 0, b: 0 };
    let runner = create_runner(9);
    assert_eq!(runner, vec![red, red, red, black, black, black, black, black, black]);
    let runner = create_runner(11);
    assert_eq!(runner.len(), 11);
    for i in 0..11 {
        assert_eq!(runner[i], if i < 3 { red } else { black });
    }
    assert_eq!(create_runner(0), vec![]);
    assert_eq!(create_runner(1), vec![red]);
}

#[test]
fn a_black_genome_is_black() {
    let black = RGB { r: 0, g: 0, b: 0 };
    assert_eq!(create_black(0), vec![]);
    assert_eq!(create_black(5), vec![black; 5]);
    assert_eq!(create_black(144).len(), 144);
}
