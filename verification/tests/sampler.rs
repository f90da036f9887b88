use blob_evolution::error::GeneError;
use blob_evolution::util::{draw_exceeds, rnd_exp, DRAW_RESOLUTION};

#[test]
fn the_sampler_refuses_zero() {
    assert_eq!(rnd_exp(0), Err(GeneError::InvalidArgument));
}

#[test]
fn the_sampler_returns_for_every_positive_parameter() {
    for expected in [2usize, 3, 10, 1000, usize::MAX] {
        assert!(rnd_exp(expected).is_ok());
    }
}

#[test]
fn the_sample_mean_converges() {
    let draws = 100_000;
    let mut total: f64 = 0.0;
    for _ in 0..draws {
        total += rnd_exp(10).unwrap() as f64;
    }
    let mean = total / draws as f64;
    let theoretical = 1.0 / 9.0;
    assert!((mean - theoretical).abs() < 0.01, "mean {} against {}", mean, theoretical);
}

#[test]
fn the_sample_mean_converges_for_two() {
    let draws = 100_000;
    let mut total: f64 = 0.0;
    for _ in 0..draws {
        total += rnd_exp(2).unwrap() as f64;
    }
    let mean = total / draws as f64;
    assert!((mean - 1.0).abs() < 0.05, "mean {} against 1", mean);
}

#[test]
fn the_resolution_is_that_of_a_single_precision_draw() {
    assert_eq!(DRAW_RESOLUTION, 1 << 24);
}

#[test]
fn a_draw_fails_above_the_success_probability() {
    // expected = 2: p = 1/2, so the upper half of the draws fails, the middle excluded.
    assert!(!draw_exceeds(0, 2));
    assert!(!draw_exceeds(DRAW_RESOLUTION / 2, 2));
    assert!(draw_exceeds(DRAW_RESOLUTION / 2 + 1, 2));
    assert!(draw_exceeds(DRAW_RESOLUTION - 1, 2));
    // expected = 4: p = 3/4.
    assert!(!draw_exceeds(12_582_912, 4));
    assert!(draw_exceeds(12_582_913, 4));
    // expected = 10: p = 9/10, and 0.9 * 2^24 = 15099494.4.
    assert!(!draw_exceeds(15_099_494, 10));
    assert!(draw_exceeds(15_099_495, 10));
}

#[test]
fn with_one_every_draw_but_zero_fails() {
    assert!(!draw_exceeds(0, 1));
    assert!(draw_exceeds(1, 1));
    assert!(draw_exceeds(DRAW_RESOLUTION - 1, 1));
}

#[test]
fn no_draw_fails_where_the_parameter_is_above_the_resolution() {
    assert!(!draw_exceeds(DRAW_RESOLUTION - 1, DRAW_RESOLUTION + 1));
    assert!(!draw_exceeds(DRAW_RESOLUTION - 1, usize::MAX));
    assert_eq!(rnd_exp(usize::MAX), Ok(0));
}
