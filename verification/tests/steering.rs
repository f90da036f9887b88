use blob_evolution::blob::RGB;
use blob_evolution::gene::Genome;
use blob_evolution::population::{
    _black_costs, _red_ratio, create_black, create_runner, extract_velocity, rate, Velocity,
};
use blob_evolution::square::{Quadrant, Square};

fn color(r: u8, g: u8, b: u8) -> RGB {
    RGB { r, g, b }
}

#[test]
fn dark_colors_cost_nothing() {
    assert_eq!(_black_costs(&color(0, 0, 0)), 0);
    assert_eq!(_black_costs(&color(14, 14, 14)), 0);
    assert_eq!(_black_costs(&color(15, 0, 0)), 1);
    assert_eq!(_black_costs(&color(0, 15, 0)), 1);
    assert_eq!(_black_costs(&color(0, 0, 15)), 1);
    assert_eq!(_black_costs(&color(255, 255, 255)), 1);
}

#[test]
fn dark_colors_are_fit() {
    assert_eq!(rate(&color(0, 0, 0)), 1);
    assert_eq!(rate(&color(14, 14, 14)), 1);
    assert_eq!(rate(&color(14, 14, 15)), 0);
    assert_eq!(rate(&color(255, 255, 255)), 0);
}

#[test]
fn red_colors_pay_back() {
    assert_eq!(_red_ratio(&color(255, 0, 0)), -1);
    assert_eq!(_red_ratio(&color(41, 5, 5)), -1);
    assert_eq!(_red_ratio(&color(40, 5, 5)), 0);
    assert_eq!(_red_ratio(&color(255, 255, 255)), 0);
    assert_eq!(_red_ratio(&color(0, 0, 0)), 0);
}

#[test]
fn a_black_genome_stands_still() {
    assert_eq!(extract_velocity(&create_black(16)), Velocity { x: 0, y: 0, scale: 6 * 255 });
    assert_eq!(extract_velocity(&create_black(144)), Velocity { x: 0, y: 0, scale: 42 * 255 });
}

#[test]
fn a_genome_without_quadrants_has_no_velocity() {
    assert_eq!(extract_velocity(&create_black(0)), Velocity { x: 0, y: 0, scale: 0 });
    assert_eq!(extract_velocity(&create_black(3)), Velocity { x: 0, y: 0, scale: 0 });
}

#[test]
fn a_red_quadrant_pulls_towards_its_edge() {
    let red = color(255, 0, 0);
    let mut right = create_black(16);
    right.set_quadrant(Quadrant::RightTriangularQuadrant, red);
    assert_eq!(extract_velocity(&right), Velocity { x: 6 * 255, y: 0, scale: 6 * 255 });
    let mut left = create_black(16);
    left.set_quadrant(Quadrant::LeftTriangularQuadrant, red);
    assert_eq!(extract_velocity(&left), Velocity { x: -6 * 255, y: 0, scale: 6 * 255 });
    let mut top = create_black(16);
    top.set_quadrant(Quadrant::TopTriangularQuadrant, red);
    assert_eq!(extract_velocity(&top), Velocity { x: 0, y: 6 * 255, scale: 6 * 255 });
    let mut bottom = create_black(16);
    bottom.set_quadrant(Quadrant::BottomTriangularQuadrant, red);
    assert_eq!(extract_velocity(&bottom), Velocity { x: 0, y: -6 * 255, scale: 6 * 255 });
}

#[test]
fn a_runner_runs_downwards() {
    // The first row is the bottom edge: all three cells of the bottom quadrant
    // are red, and one cell each of the left and of the right quadrant.
    assert_eq!(extract_velocity(&create_runner(9)), Velocity { x: 0, y: -3 * 255, scale: 3 * 255 });
}

#[test]
fn green_and_blue_pull_backwards() {
    let mut genome: Genome<RGB> = create_black(16);
    genome.set_quadrant(Quadrant::RightTriangularQuadrant, color(10, 20, 30));
    // cells 6 and 10 lie in the right quadrant only; 3 and 15 are shared with
    // the bottom and the top.
    assert_eq!(extract_velocity(&genome), Velocity { x: 6 * -40, y: 0, scale: 6 * 255 });
    Square::set(&mut genome, (0, 0), color(200, 0, 0));
    // (0, 0) lies in the left and in the bottom quadrant.
    assert_eq!(extract_velocity(&genome), Velocity { x: -240 - 200, y: -200, scale: 6 * 255 });
}
