use blob_evolution::blob::RGB;
use blob_evolution::error::GeneError;
use blob_evolution::gene::{Compare, Genetic, Genome, Similarity};
use blob_evolution::util::Create;

fn color(r: u8, g: u8, b: u8) -> RGB {
    RGB { r, g, b }
}

fn ramp(size: usize, offset: u8) -> Genome<RGB> {
    (0..size).map(|i| color(i as u8 + offset, offset, 255 - i as u8)).collect()
}

#[test]
fn as_color_gives_the_channels_in_order() {
    assert_eq!(color(1, 2, 3).as_color(), (1, 2, 3));
    assert_eq!(color(255, 0, 128).as_color(), (255, 0, 128));
}

#[test]
fn created_colors_vary() {
    let first = RGB::create();
    let mut varied = false;
    for _ in 0..64 {
        if RGB::create() != first {
            varied = true;
        }
    }
    assert!(varied);
}

#[test]
fn create_like_gives_the_length_asked_for() {
    assert_eq!(Genome::<RGB>::create_like(0).len(), 0);
    assert_eq!(Genome::<RGB>::create_like(1).len(), 1);
    assert_eq!(Genome::<RGB>::create_like(144).len(), 144);
}

#[test]
fn mutate_at_keeps_the_other_loci() {
    let before = ramp(9, 3);
    let mut genome = before.clone();
    assert_eq!(genome.mutate_at(4), Ok(()));
    assert_eq!(genome.len(), 9);
    for i in 0..9 {
        if i != 4 {
            assert_eq!(genome[i], before[i]);
        }
    }
}

#[test]
fn mutate_at_refuses_a_locus_past_the_end() {
    let before = ramp(9, 3);
    let mut genome = before.clone();
    assert_eq!(genome.mutate_at(9), Err(GeneError::OutOfBounds));
    assert_eq!(genome.mutate_at(usize::MAX), Err(GeneError::OutOfBounds));
    assert_eq!(genome, before);
    let mut empty: Genome<RGB> = Vec::new();
    assert_eq!(empty.mutate_at(0), Err(GeneError::OutOfBounds));
}

#[test]
fn combine_with_no_donor_leaves_the_mother() {
    for size in [1usize, 2, 9, 16] {
        let mother = ramp(size, 1);
        for father_count in [0usize, 1, 3] {
            let fathers: Vec<Genome<RGB>> = (0..father_count).map(|k| ramp(size, 50 + k as u8)).collect();
            let donor_of = vec![father_count; size];
            let mut child = mother.clone();
            assert_eq!(child.combine(&fathers, &donor_of), Ok(()));
            assert_eq!(child, mother);
        }
    }
}

#[test]
fn combine_with_no_donor_ignores_the_length_of_the_fathers() {
    let mother = ramp(5, 1);
    let fathers = vec![ramp(2, 9), ramp(7, 9), Vec::new()];
    let mut child = mother.clone();
    assert_eq!(child.combine(&fathers, &vec![3, 4, 3, 100, usize::MAX]), Ok(()));
    assert_eq!(child, mother);
}

#[test]
fn combine_with_one_donor_gives_that_father() {
    let mother = ramp(9, 1);
    let fathers = vec![ramp(9, 20), ramp(9, 40), ramp(9, 60)];
    for k in 0..3 {
        let mut child = mother.clone();
        assert_eq!(child.combine(&fathers, &vec![k; 9]), Ok(()));
        assert_eq!(child, fathers[k]);
    }
}

#[test]
fn combine_takes_each_locus_from_its_donor() {
    let mother = vec![color(0, 0, 0), color(1, 1, 1), color(2, 2, 2), color(3, 3, 3)];
    let fathers = vec![
        vec![color(10, 0, 0), color(11, 0, 0), color(12, 0, 0), color(13, 0, 0)],
        vec![color(20, 0, 0), color(21, 0, 0), color(22, 0, 0), color(23, 0, 0)],
    ];
    let mut child = mother.clone();
    assert_eq!(child.combine(&fathers, &vec![1, 2, 0, 7]), Ok(()));
    assert_eq!(child, vec![color(20, 0, 0), color(1, 1, 1), color(12, 0, 0), color(3, 3, 3)]);
}

#[test]
fn combine_refuses_a_donor_map_of_another_length() {
    let mother = ramp(9, 1);
    let fathers = vec![ramp(9, 20)];
    for wrong in [0usize, 8, 10] {
        let mut child = mother.clone();
        assert_eq!(child.combine(&fathers, &vec![0; wrong]), Err(GeneError::LengthMismatch));
        assert_eq!(child, mother);
    }
}

#[test]
fn combine_refuses_a_father_without_the_locus() {
    let mother = ramp(4, 1);
    let fathers = vec![ramp(4, 20), ramp(3, 40)];
    let mut child = mother.clone();
    assert_eq!(child.combine(&fathers, &vec![0, 0, 0, 1]), Err(GeneError::LengthMismatch));
    assert_eq!(child, mother);
    assert_eq!(child.combine(&fathers, &vec![1, 1, 1, 0]), Ok(()));
    assert_eq!(child, vec![fathers[1][0], fathers[1][1], fathers[1][2], fathers[0][3]]);
}

#[test]
fn colors_are_rated_by_their_summed_difference() {
    let a = color(10, 200, 30);
    let b = color(20, 100, 35);
    assert_eq!(a.compare(&b), Ok(Similarity { score: 765 - 115, norm: 765 }));
    assert_eq!(color(0, 0, 0).compare(&color(255, 255, 255)), Ok(Similarity { score: 0, norm: 765 }));
    assert_eq!(color(0, 0, 0).compare(&color(255, 0, 0)), Ok(Similarity { score: 510, norm: 765 }));
}

#[test]
fn a_color_rates_one_against_itself() {
    for c in [color(0, 0, 0), color(255, 255, 255), color(7, 99, 180)] {
        let rating = c.compare(&c).unwrap();
        assert_eq!(rating.score, rating.norm);
        assert_eq!(rating.score as f32 / rating.norm as f32, 1.0);
    }
}

#[test]
fn ratings_of_colors_are_symmetric_and_bounded() {
    let colors = [color(0, 0, 0), color(255, 255, 255), color(7, 99, 180), color(200, 3, 60)];
    for a in colors {
        for b in colors {
            let forth = a.compare(&b).unwrap();
            let back = b.compare(&a).unwrap();
            assert_eq!(forth, back);
            assert!(forth.score <= forth.norm);
        }
    }
}

#[test]
fn genomes_are_rated_by_the_mean_of_their_loci() {
    let a = vec![color(0, 0, 0), color(255, 255, 255), color(10, 10, 10)];
    let b = vec![color(0, 0, 0), color(0, 0, 0), color(20, 10, 5)];
    assert_eq!(a.compare(&b), Ok(Similarity { score: 765 + 0 + 750, norm: 3 * 765 }));
    assert_eq!(b.compare(&a), a.compare(&b));
    let rating = a.compare(&b).unwrap();
    let mean = (1.0 + 0.0 + 750.0 / 765.0) / 3.0;
    assert!((rating.score as f64 / rating.norm as f64 - mean).abs() < 1e-12);
}

#[test]
fn a_genome_rates_one_against_itself() {
    for size in [1usize, 9, 144] {
        let genome = Genome::<RGB>::create_like(size);
        let rating = genome.compare(&genome).unwrap();
        assert_eq!(rating.score, rating.norm);
        assert_eq!(rating.norm, 765 * size as u128);
        assert_eq!(rating.score as f32 / rating.norm as f32, 1.0);
    }
}

#[test]
fn the_rating_of_empty_genomes_has_no_norm() {
    let empty: Genome<RGB> = Vec::new();
    assert_eq!(empty.compare(&empty), Ok(Similarity { score: 0, norm: 0 }));
}

#[test]
fn genomes_of_different_lengths_are_not_rated() {
    let a = ramp(9, 1);
    let b = ramp(8, 1);
    assert_eq!(a.compare(&b), Err(GeneError::LengthMismatch));
    assert_eq!(b.compare(&a), Err(GeneError::LengthMismatch));
}
