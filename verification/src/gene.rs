//! Genomes: point mutation, crossover, random construction and similarity.

use vstd::prelude::*;
use crate::error::GeneError;
use crate::util::Create;

verus! {

/// A Genome is an ordered, fixed-length sequence of heritable units.
pub type Genome<T> = Vec<T>;

/// Whether a crossover is defined: there is one donor index for every locus
/// of the mother, and every father that a locus names has that locus.
pub open spec fn crossable<T>(mother: Seq<T>, fathers: Seq<Seq<T>>, donor_of: Seq<usize>) -> bool {
    &&& donor_of.len() == mother.len()
    &&& forall|i: int|
        0 <= i < donor_of.len() && #[trigger] donor_of[i] < fathers.len() ==> i
            < fathers[donor_of[i] as int].len()
}

/// The genome that a crossover leaves: locus `i` comes from the father
/// `donor_of[i]`, and from the mother where `donor_of[i]` names no father.
pub open spec fn crossover<T>(mother: Seq<T>, fathers: Seq<Seq<T>>, donor_of: Seq<usize>) -> Seq<T> {
    Seq::new(
        mother.len(),
        |i: int|
            if donor_of[i] < fathers.len() {
                fathers[donor_of[i] as int][i]
            } else {
                mother[i]
            },
    )
}

/// The trait which a Genome needs to fulfill.
pub trait Genetic<T>: Sized {
    /// The units in order.
    spec fn units(&self) -> Seq<T>;

    /// The units of each genome of a list.
    open spec fn units_of(genomes: Seq<Self>) -> Seq<Seq<T>> {
        Seq::new(genomes.len(), |k: int| genomes[k].units())
    }

    /// Replaces the unit at `at` by a fresh random unit. The other units
    /// stay; a locus past the end is refused and nothing changes.
    fn mutate_at(&mut self, at: usize) -> (done: Result<(), GeneError>)
        ensures
            done is Ok <==> at < old(self).units().len(),
            done is Err ==> done == Err::<(), GeneError>(GeneError::OutOfBounds),
            final(self).units().len() == old(self).units().len(),
            forall|i: int|
                0 <= i < old(self).units().len() && i != at ==> #[trigger] final(self).units()[i]
                    == old(self).units()[i],
    ;

    /// Takes over, locus by locus, the unit of the father that `indices`
    /// names for the locus; an index that names no father keeps the unit of
    /// `self`, the mother. Where the crossover is not defined it is refused
    /// and nothing changes.
    fn combine(&mut self, fathers: &Vec<Self>, indices: &Vec<usize>) -> (done: Result<(), GeneError>)
        ensures
            done is Ok <==> crossable(old(self).units(), Self::units_of(fathers@), indices@),
            done is Ok ==> final(self).units() == crossover(
                old(self).units(),
                Self::units_of(fathers@),
                indices@,
            ),
            done is Err ==> done == Err::<(), GeneError>(GeneError::LengthMismatch)
                && final(self).units() == old(self).units(),
    ;

    /// A genome of `size` fresh random units.
    fn create_like(size: usize) -> (genome: Self)
        ensures
            genome.units().len() == size,
    ;
}

/// Whether the locus `at` of the mother can be filled as `donor_of` asks.
fn locus_defined<T: Copy>(fathers: &Vec<Genome<T>>, indices: &Vec<usize>, at: usize) -> (defined: bool)
    requires
        at < indices.len(),
    ensures
        defined == (indices[at as int] < fathers.len() ==> at < fathers[indices[at as int] as int].len()),
{
    let from = indices[at];
    from >= fathers.len() || at < fathers[from].len()
}

/// Concrete implementation of the Genetic trait.
impl<T: Create + Copy> Genetic<T> for Genome<T> {
    open spec fn units(&self) -> Seq<T> {
        self@
    }

    fn mutate_at(&mut self, at: usize) -> (done: Result<(), GeneError>) {
        if at >= self.len() {
            return Err(GeneError::OutOfBounds);
        }
        self[at] = T::create();
        Ok(())
    }

    fn combine(&mut self, fathers: &Vec<Self>, indices: &Vec<usize>) -> (done: Result<(), GeneError>) {
        if self.len() != indices.len() {
            return Err(GeneError::LengthMismatch);
        }
        let size = self.len();
        let ghost donors = Self::units_of(fathers@);
        let mut at: usize = 0;
        while at < size
            invariant
                at <= size,
                size == indices.len(),
                donors == Self::units_of(fathers@),
                forall|i: int|
                    0 <= i < at && #[trigger] indices[i] < fathers.len() ==> i
                        < donors[indices[i] as int].len(),
            decreases size - at,
        {
            if !locus_defined(fathers, indices, at) {
                assert(!crossable(self@, donors, indices@));
                return Err(GeneError::LengthMismatch);
            }
            at += 1;
        }
        let mut at: usize = 0;
        while at < size
            invariant
                at <= size,
                size == indices.len(),
                size == self.len(),
                size == old(self).len(),
                donors == Self::units_of(fathers@),
                crossable(old(self)@, donors, indices@),
                forall|i: int|
                    0 <= i < at ==> #[trigger] self[i] == crossover(old(self)@, donors, indices@)[i],
                forall|i: int| at <= i < size ==> #[trigger] self[i] == old(self)[i],
            decreases size - at,
        {
            let from = indices[at];
            if from < fathers.len() {
                self[at] = fathers[from][at];
            }
            at += 1;
        }
        assert(self@ =~= crossover(old(self)@, donors, indices@));
        Ok(())
    }

    fn create_like(size: usize) -> (genome: Self) {
        let mut genome: Genome<T> = Vec::new();
        let mut made: usize = 0;
        while made < size
            invariant
                made <= size,
                genome.len() == made,
            decreases size - made,
        {
            genome.push(T::create());
            made += 1;
        }
        genome
    }
}

/// A crossover in which no locus names a father leaves the mother as she
/// is, whatever the fathers are.
pub proof fn combine_identity<T>(mother: Seq<T>, fathers: Seq<Seq<T>>, donor_of: Seq<usize>)
    requires
        donor_of.len() == mother.len(),
        forall|i: int| 0 <= i < donor_of.len() ==> #[trigger] donor_of[i] >= fathers.len(),
    ensures
        crossable(mother, fathers, donor_of),
        crossover(mother, fathers, donor_of) == mother,
{
    assert(crossover(mother, fathers, donor_of) =~= mother);
}

/// A crossover in which every locus names the same father, of the mother's
/// length, gives that father.
pub proof fn combine_full_donor<T>(mother: Seq<T>, fathers: Seq<Seq<T>>, donor_of: Seq<usize>, k: usize)
    requires
        donor_of.len() == mother.len(),
        k < fathers.len(),
        fathers[k as int].len() == mother.len(),
        forall|i: int| 0 <= i < donor_of.len() ==> #[trigger] donor_of[i] == k,
    ensures
        crossable(mother, fathers, donor_of),
        crossover(mother, fathers, donor_of) == fathers[k as int],
{
    assert(crossover(mother, fathers, donor_of) =~= fathers[k as int]);
}

/// A type which carries a Genome<T> is called a Creature.
pub trait Creature<T: Create + Copy> {
    /// The genome that the creature carries.
    spec fn genome(&self) -> Genome<T>;

    /// A Creature provides access to its Genome through this method: what
    /// is written through the reference is the creature's genome from then
    /// on.
    fn extract_genome(&mut self) -> (genome: &mut Genome<T>)
        ensures
            *genome == old(self).genome(),
            final(self).genome() == *final(genome),
    ;
}

/// A bare genome is the creature that carries itself.
impl<T: Create + Copy> Creature<T> for Genome<T> {
    open spec fn genome(&self) -> Genome<T> {
        *self
    }

    fn extract_genome(&mut self) -> (genome: &mut Genome<T>) {
        self
    }
}

/// How alike two values are, as the exact fraction `score / norm`. It is 1
/// where `score == norm`; a `norm` of 0 stands for a rating of nothing at
/// all, which has no value.
#[derive(Debug, Clone, Copy, PartialEq, Eq, Structural)]
pub struct Similarity {
    pub score: u128,
    pub norm: u128,
}

/// Rates similarity as a fraction between 0 and 1.
pub trait Compare: Sized {
    /// Whether the two values can be rated against each other.
    spec fn comparable(&self, to: &Self) -> bool;

    /// The rating of two values that can be rated.
    spec fn similarity(&self, to: &Self) -> Similarity;

    /// A rating is at most 1.
    proof fn similarity_bounded(&self, to: &Self)
        requires
            self.comparable(to),
        ensures
            self.similarity(to).score <= self.similarity(to).norm,
    ;

    /// A value rated against itself rates 1.
    proof fn similarity_reflexive(&self)
        requires
            self.comparable(self),
        ensures
            self.similarity(self).score == self.similarity(self).norm,
    ;

    /// The rating does not depend on the order of the two values.
    proof fn similarity_symmetric(&self, to: &Self)
        ensures
            self.comparable(to) == to.comparable(self),
            self.comparable(to) ==> self.similarity(to) == to.similarity(self),
    ;

    /// Rates `self` against `to`.
    fn compare(&self, to: &Self) -> (rating: Result<Similarity, GeneError>)
        ensures
            rating is Ok <==> self.comparable(to),
            rating is Ok ==> rating->Ok_0 == self.similarity(to),
    ;
}

/// The sum of the norms of the ratings of the first `count` loci.
pub open spec fn total_norm<T: Compare>(a: Seq<T>, b: Seq<T>, count: nat) -> int
    decreases count,
{
    if count == 0 {
        0
    } else {
        total_norm(a, b, (count - 1) as nat) + a[count - 1].similarity(&b[count - 1]).norm
    }
}

/// The sum of the scores of the ratings of the first `count` loci.
pub open spec fn total_score<T: Compare>(a: Seq<T>, b: Seq<T>, count: nat) -> int
    decreases count,
{
    if count == 0 {
        0
    } else {
        total_score(a, b, (count - 1) as nat) + a[count - 1].similarity(&b[count - 1]).score
    }
}

/// Whether each of the first `count` loci can be rated.
pub open spec fn loci_comparable<T: Compare>(a: Seq<T>, b: Seq<T>, count: nat) -> bool {
    forall|i: int| 0 <= i < count ==> (#[trigger] a[i]).comparable(&b[i])
}

/// Neither sum is negative.
pub proof fn totals_nonnegative<T: Compare>(a: Seq<T>, b: Seq<T>, count: nat)
    ensures
        0 <= total_score(a, b, count),
        0 <= total_norm(a, b, count),
    decreases count,
{
    if count > 0 {
        totals_nonnegative(a, b, (count - 1) as nat);
    }
}

/// The sum of the norms grows with the number of loci.
pub proof fn total_norm_grows<T: Compare>(a: Seq<T>, b: Seq<T>, fewer: nat, more: nat)
    requires
        fewer <= more,
    ensures
        total_norm(a, b, fewer) <= total_norm(a, b, more),
    decreases more,
{
    if fewer < more {
        total_norm_grows(a, b, fewer, (more - 1) as nat);
    }
}

/// The scores of loci that can be rated sum to at most the sum of their
/// norms.
pub proof fn total_score_bounded<T: Compare>(a: Seq<T>, b: Seq<T>, count: nat)
    requires
        loci_comparable(a, b, count),
    ensures
        total_score(a, b, count) <= total_norm(a, b, count),
    decreases count,
{
    if count > 0 {
        total_score_bounded(a, b, (count - 1) as nat);
        a[count - 1].similarity_bounded(&b[count - 1]);
    }
}

/// Rated against itself, a genome scores the whole sum of the norms.
pub proof fn total_score_reflexive<T: Compare>(a: Seq<T>, count: nat)
    requires
        loci_comparable(a, a, count),
    ensures
        total_score(a, a, count) == total_norm(a, a, count),
    decreases count,
{
    if count > 0 {
        total_score_reflexive(a, (count - 1) as nat);
        a[count - 1].similarity_reflexive();
    }
}

/// The sums do not depend on the order of the two genomes.
pub proof fn totals_symmetric<T: Compare>(a: Seq<T>, b: Seq<T>, count: nat)
    ensures
        loci_comparable(a, b, count) == loci_comparable(b, a, count),
        loci_comparable(a, b, count) ==> total_score(a, b, count) == total_score(b, a, count)
            && total_norm(a, b, count) == total_norm(b, a, count),
    decreases count,
{
    assert forall|i: int| 0 <= i < count implies (#[trigger] a[i]).comparable(&b[i]) == b[i].comparable(
        &a[i],
    ) by {
        a[i].similarity_symmetric(&b[i]);
    }
    if loci_comparable(a, b, count) {
        assert forall|i: int| 0 <= i < count implies (#[trigger] b[i]).comparable(&a[i]) by {
            assert(a[i].comparable(&b[i]));
        }
    }
    if loci_comparable(b, a, count) {
        assert forall|i: int| 0 <= i < count implies (#[trigger] a[i]).comparable(&b[i]) by {
            assert(b[i].comparable(&a[i]));
        }
    }
    if count > 0 && loci_comparable(a, b, count) {
        assert(loci_comparable(a, b, (count - 1) as nat));
        totals_symmetric(a, b, (count - 1) as nat);
        assert(a[count - 1].comparable(&b[count - 1]));
        a[count - 1].similarity_symmetric(&b[count - 1]);
    }
}

/// Two genomes are rated by the mean of the ratings of their loci: the
/// scores and the norms of the loci are summed, so that the fraction is the
/// mean wherever all loci have the same norm.
impl<T: Compare> Compare for Genome<T> {
    /// Genomes can be rated where they have the same length, every locus
    /// can be rated, and the sum of the norms fits the integer type.
    open spec fn comparable(&self, to: &Self) -> bool {
        &&& self@.len() == to@.len()
        &&& loci_comparable(self@, to@, self@.len())
        &&& total_norm(self@, to@, self@.len()) <= u128::MAX
    }

    open spec fn similarity(&self, to: &Self) -> Similarity {
        Similarity {
            score: total_score(self@, to@, self@.len()) as u128,
            norm: total_norm(self@, to@, self@.len()) as u128,
        }
    }

    proof fn similarity_bounded(&self, to: &Self) {
        total_score_bounded(self@, to@, self@.len());
        totals_nonnegative(self@, to@, self@.len());
    }

    proof fn similarity_reflexive(&self) {
        total_score_reflexive(self@, self@.len());
    }

    proof fn similarity_symmetric(&self, to: &Self) {
        if self@.len() == to@.len() {
            totals_symmetric(self@, to@, self@.len());
        }
    }

    /// Genomes of different lengths are refused with `LengthMismatch`, and
    /// genomes whose norms sum up past the integer type with `Overflow`.
    /// Where a locus cannot be rated, the genomes cannot either.
    fn compare(&self, to: &Self) -> (rating: Result<Similarity, GeneError>)
        ensures
            self@.len() != to@.len() ==> rating == Err::<Similarity, GeneError>(
                GeneError::LengthMismatch,
            ),
            self@.len() == to@.len() && loci_comparable(self@, to@, self@.len()) && !self.comparable(
                to,
            ) ==> rating == Err::<Similarity, GeneError>(GeneError::Overflow),
    {
        if self.len() != to.len() {
            return Err(GeneError::LengthMismatch);
        }
        let size = self.len();
        let mut score: u128 = 0;
        let mut norm: u128 = 0;
        let mut at: usize = 0;
        while at < size
            invariant
                at <= size,
                size == self@.len(),
                size == to@.len(),
                loci_comparable(self@, to@, at as nat),
                score == total_score(self@, to@, at as nat),
                norm == total_norm(self@, to@, at as nat),
            decreases size - at,
        {
            match self[at].compare(&to[at]) {
                Err(error) => {
                    assert(!self@[at as int].comparable(&to@[at as int]));
                    return Err(error);
                },
                Ok(unit) => {
                    proof {
                        total_score_bounded(self@, to@, at as nat);
                        self@[at as int].similarity_bounded(&to@[at as int]);
                        total_norm_grows(self@, to@, (at + 1) as nat, size as nat);
                    }
                    match norm.checked_add(unit.norm) {
                        None => {
                            return Err(GeneError::Overflow);
                        },
                        Some(sum) => {
                            score = score + unit.score;
                            norm = sum;
                        },
                    }
                },
            }
            at += 1;
        }
        Ok(Similarity { score, norm })
    }
}

} // verus!
