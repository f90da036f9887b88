//! The colour unit.

use vstd::prelude::*;
use crate::error::GeneError;
use crate::gene::{total_norm, total_score, totals_nonnegative, Compare, Genome, Similarity};
use crate::util::{random_byte, Create};

verus! {

/// A colour of three 8-bit channels: the unit that genomes are made of.
#[derive(Debug, Clone, Copy, PartialEq, Eq, Structural)]
pub struct RGB {
    pub r: u8,
    pub g: u8,
    pub b: u8,
}

impl RGB {
    /// The three channels as a tuple, red first.
    pub fn as_color(&self) -> (color: (u8, u8, u8))
        ensures
            color == (self.r, self.g, self.b),
    {
        (self.r, self.g, self.b)
    }
}

impl Create for RGB {
    /// A colour whose three channels are drawn independently.
    fn create() -> Self {
        RGB { r: random_byte(), g: random_byte(), b: random_byte() }
    }
}

/// The largest summed difference between two colours: three channels of at
/// most 255 each.
pub const RGB_NORM: u128 = 765;

/// The absolute difference of two channel values.
pub open spec fn channel_gap(a: u8, b: u8) -> int {
    if a >= b {
        a - b
    } else {
        b - a
    }
}

/// The summed absolute difference of the channels of two colours.
pub open spec fn color_distance(a: RGB, b: RGB) -> int {
    channel_gap(a.r, b.r) + channel_gap(a.g, b.g) + channel_gap(a.b, b.b)
}

fn gap(a: u8, b: u8) -> (distance: u8)
    ensures
        distance == channel_gap(a, b),
{
    if a >= b {
        a - b
    } else {
        b - a
    }
}

/// Colours are rated by the summed difference of their channels: the
/// rating is `(765 - distance) / 765`.
impl Compare for RGB {
    open spec fn comparable(&self, to: &Self) -> bool {
        true
    }

    open spec fn similarity(&self, to: &Self) -> Similarity {
        Similarity { score: (RGB_NORM - color_distance(*self, *to)) as u128, norm: RGB_NORM }
    }

    proof fn similarity_bounded(&self, to: &Self) {
    }

    proof fn similarity_reflexive(&self) {
    }

    proof fn similarity_symmetric(&self, to: &Self) {
    }

    fn compare(&self, to: &Self) -> (rating: Result<Similarity, GeneError>) {
        let distance: u128 = gap(self.r, to.r) as u128 + gap(self.g, to.g) as u128 + gap(
            self.b,
            to.b,
        ) as u128;
        Ok(Similarity { score: RGB_NORM - distance, norm: RGB_NORM })
    }
}

/// The sums over genomes of colours: the norm is 765 for each locus, and the
/// score is at most the norm.
pub proof fn color_totals(a: Seq<RGB>, b: Seq<RGB>, count: nat)
    ensures
        total_norm(a, b, count) == RGB_NORM * count,
        total_score(a, b, count) <= RGB_NORM * count,
    decreases count,
{
    if count > 0 {
        color_totals(a, b, (count - 1) as nat);
    }
}

/// Genomes of colours can be rated exactly when they have the same length,
/// and their rating is the mean of the ratings of their loci: the summed
/// scores over 765 times the length.
pub proof fn color_genomes_comparable(a: &Genome<RGB>, b: &Genome<RGB>)
    ensures
        a.comparable(b) <==> a@.len() == b@.len(),
        a.similarity(b).norm == RGB_NORM * a@.len(),
        a.similarity(b).score == total_score(a@, b@, a@.len()),
{
    color_totals(a@, b@, a@.len());
    totals_nonnegative(a@, b@, a@.len());
    assert(a@.len() == a.len());
    assert(RGB_NORM * a@.len() <= 765 * 0xffff_ffff_ffff_ffff) by (nonlinear_arith)
        requires
            RGB_NORM == 765,
            a@.len() <= 0xffff_ffff_ffff_ffff,
    ;
}

/// A genome of colours rates 1 against itself.
pub proof fn color_genome_rates_itself(a: &Genome<RGB>)
    ensures
        a.comparable(a),
        a.similarity(a).score == a.similarity(a).norm,
{
    color_genomes_comparable(a, a);
    a.similarity_reflexive();
}

/// The rating of two genomes of colours of one length lies between 0 and
/// 1, and does not depend on their order.
pub proof fn color_genome_rating_laws(a: &Genome<RGB>, b: &Genome<RGB>)
    requires
        a@.len() == b@.len(),
    ensures
        a.comparable(b) && b.comparable(a),
        a.similarity(b).score <= a.similarity(b).norm,
        a.similarity(b) == b.similarity(a),
{
    color_genomes_comparable(a, b);
    color_genomes_comparable(b, a);
    a.similarity_bounded(b);
    a.similarity_symmetric(b);
}

} // verus!
