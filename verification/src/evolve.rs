//! The generation step: ranking, the choice of fathers, the donor map of a
//! crossover, mutation, and the pass over the whole population.

use vstd::prelude::*;
use crate::error::GeneError;
use crate::gene::{Creature, Genetic, Genome};
use crate::util::{random_between, rnd_exp, Create};

verus! {

/// `value` brought into `low ..= high`.
pub open spec fn clamp(value: int, low: int, high: int) -> int {
    if value < low {
        low
    } else if value > high {
        high
    } else {
        value
    }
}

/// How many mutations a genome is to expect in one generation, before the
/// number is brought into `1 ..= length - 1`.
#[derive(Debug, Clone, Copy, PartialEq, Eq, Structural)]
pub enum MutationRate {
    /// The same number for every genome.
    Constant(usize),
    /// The length of the genome divided by this number.
    Fraction(usize),
}

impl MutationRate {
    /// Whether the rate gives a number for genomes of this length: the
    /// length must leave room between 1 and `length - 1`, and a fraction
    /// cannot divide by zero.
    pub open spec fn defined_for(self, genome_size: usize) -> bool {
        genome_size >= 2 && (self matches MutationRate::Fraction(divisor) ==> divisor > 0)
    }

    /// The number of mutations to expect, brought into `1 ..= length - 1`.
    pub open spec fn spec_expected(self, genome_size: usize) -> int {
        let wanted = match self {
            MutationRate::Constant(number) => number as int,
            MutationRate::Fraction(divisor) => genome_size as int / divisor as int,
        };
        clamp(wanted, 1, genome_size - 1)
    }

    /// The number of mutations that a genome of this length is to expect.
    pub fn expected(&self, genome_size: usize) -> (expected: Result<usize, GeneError>)
        ensures
            expected is Ok <==> self.defined_for(genome_size),
            expected is Ok ==> expected->Ok_0 == self.spec_expected(genome_size),
            expected is Err ==> expected == Err::<usize, GeneError>(GeneError::InvalidArgument),
    {
        if genome_size < 2 {
            return Err(GeneError::InvalidArgument);
        }
        let wanted = match self {
            MutationRate::Constant(number) => *number,
            MutationRate::Fraction(divisor) => {
                if *divisor == 0 {
                    return Err(GeneError::InvalidArgument);
                }
                genome_size / *divisor
            },
        };
        if wanted < 1 {
            Ok(1)
        } else if wanted > genome_size - 1 {
            Ok(genome_size - 1)
        } else {
            Ok(wanted)
        }
    }
}

/// How strongly the choice of the fathers leans towards the front of the
/// ranking: the parameter of the sampler that picks their positions. The
/// smaller it is, the more the front is favoured.
#[derive(Debug, Clone, Copy, PartialEq, Eq, Structural)]
pub enum Diversity {
    /// Half the size of the population.
    HalfOfPopulation,
    /// The same number for every population.
    Fixed(usize),
}

impl Diversity {
    /// The parameter for a population of this size.
    pub open spec fn spec_value(self, population_size: usize) -> usize {
        match self {
            Diversity::HalfOfPopulation => population_size / 2,
            Diversity::Fixed(number) => number,
        }
    }

    /// The parameter for a population of this size.
    pub fn value(&self, population_size: usize) -> (diversity: usize)
        ensures
            diversity == self.spec_value(population_size),
    {
        match self {
            Diversity::HalfOfPopulation => population_size / 2,
            Diversity::Fixed(number) => *number,
        }
    }
}

/// What one generation step is run with.
#[derive(Debug, Clone, Copy, PartialEq, Eq, Structural)]
pub struct Settings {
    /// The number of fathers that are drawn for each mother.
    pub rho: usize,
    /// The lean of the choice of the fathers.
    pub diversity: Diversity,
    /// The number of mutations that each genome is to expect.
    pub mutation_rate: MutationRate,
}

/// The units of the genome of each creature.
pub open spec fn genome_views<T: Create + Copy, R: Creature<T>>(population: Seq<R>) -> Seq<Seq<T>> {
    Seq::new(population.len(), |i: int| population[i].genome()@)
}

/// Whether all genomes have the length of the first.
pub open spec fn same_lengths<T>(genomes: Seq<Seq<T>>) -> bool {
    forall|i: int| 0 <= i < genomes.len() ==> (#[trigger] genomes[i]).len() == genomes[0].len()
}

/// Whether a generation step can be run on these genomes, and the reason
/// where it cannot. An empty population evolves into itself. Any other
/// needs genomes of one length, a diversity above 0 for the fathers to be
/// drawn with, at least two fathers for the donors to be drawn with, and a
/// mutation rate that is defined for the genomes.
pub open spec fn evolve_verdict<T>(genomes: Seq<Seq<T>>, settings: Settings) -> Result<(), GeneError> {
    if genomes.len() == 0 {
        Ok(())
    } else if !same_lengths(genomes) {
        Err(GeneError::LengthMismatch)
    } else if settings.rho == usize::MAX {
        Err(GeneError::Overflow)
    } else if settings.diversity.spec_value(genomes.len() as usize) == 0 || settings.rho < 2
        || !settings.mutation_rate.defined_for(genomes[0].len() as usize) {
        Err(GeneError::InvalidArgument)
    } else {
        Ok(())
    }
}

/// Whether a donor map can be drawn for a genome of `genome_size` units and
/// `father_count` fathers, and the reason where it cannot: the number that
/// stands for the mother must fit, and the sampler needs a parameter above
/// 0, that is at least two fathers, unless there is no locus to draw for.
pub open spec fn indices_verdict(genome_size: usize, father_count: usize) -> Result<(), GeneError> {
    if father_count == usize::MAX {
        Err(GeneError::Overflow)
    } else if genome_size > 0 && father_count < 2 {
        Err(GeneError::InvalidArgument)
    } else {
        Ok(())
    }
}

/// Whether every father has all the loci of a genome of `genome_size`
/// units.
pub open spec fn fathers_reach<T>(fathers: Seq<Genome<T>>, genome_size: nat) -> bool {
    forall|k: int| 0 <= k < fathers.len() ==> (#[trigger] fathers[k])@.len() >= genome_size
}

/// Whether the child has every unit from the mother or from a father, at
/// the locus at which the child has it.
pub open spec fn inherited<T>(mother: Seq<T>, fathers: Seq<Genome<T>>, child: Seq<T>) -> bool {
    &&& child.len() == mother.len()
    &&& forall|i: int|
        0 <= i < child.len() ==> #[trigger] child[i] == mother[i] || exists|k: int|
            0 <= k < fathers.len() && i < (#[trigger] fathers[k])@.len() && child[i] == fathers[k]@[i]
}

/// Whether the units are those of a genome of the pool.
pub open spec fn drawn_from<T>(father: Seq<T>, genome_pool: Seq<Genome<T>>) -> bool {
    exists|j: int| 0 <= j < genome_pool.len() && (#[trigger] genome_pool[j])@ == father
}

/// The loci at which two genomes of one length differ.
pub open spec fn changed_loci<T>(before: Seq<T>, after: Seq<T>) -> Set<int> {
    Set::new(|i: int| 0 <= i < before.len() && before[i] != after[i])
}

/// The position in the ranked pool that a sample of the geometric sampler
/// stands for. Small samples are the likely ones, so the front of the
/// ranking is favoured.
pub fn choose_father(sample: usize, pool_size: usize) -> (index: usize)
    requires
        pool_size > 0,
    ensures
        index == sample % pool_size,
{
    sample % pool_size
}

/// The donor that a sample of the geometric sampler stands for at one
/// locus: one of the `father_count` fathers, or `father_count` itself for
/// the mother.
pub fn choose_donor(sample: usize, father_count: usize) -> (donor: usize)
    requires
        father_count < usize::MAX,
    ensures
        donor == (sample as int) % (father_count + 1),
{
    sample % (father_count + 1)
}

/// A copy of the genome.
fn duplicate<T: Copy>(genome: &Genome<T>) -> (copy: Genome<T>)
    ensures
        copy@ == genome@,
{
    let mut copy: Genome<T> = Vec::new();
    let mut at: usize = 0;
    while at < genome.len()
        invariant
            at <= genome.len(),
            copy@ == genome@.take(at as int),
        decreases genome.len() - at,
    {
        copy.push(genome[at]);
        assert(genome@.take(at as int).push(genome[at as int]) =~= genome@.take(at + 1));
        at += 1;
    }
    assert(genome@.take(genome.len() as int) =~= genome@);
    copy
}

/// Replaces the unit at a random locus by a fresh random unit, `count`
/// times over. At most `count` loci differ afterwards. An empty genome
/// has no locus to pick: it is refused unless `count` is 0.
pub fn mutate_times<T: Create + Copy>(t: &mut Genome<T>, count: usize) -> (done: Result<(), GeneError>)
    ensures
        done is Ok <==> count == 0 || old(t)@.len() > 0,
        done is Err ==> done == Err::<(), GeneError>(GeneError::InvalidArgument),
        final(t)@.len() == old(t)@.len(),
        changed_loci(old(t)@, final(t)@).finite(),
        changed_loci(old(t)@, final(t)@).len() <= count,
{
    assert(changed_loci(old(t)@, t@) =~= Set::<int>::empty());
    if count == 0 {
        return Ok(());
    }
    if t.len() == 0 {
        return Err(GeneError::InvalidArgument);
    }
    let mut made: usize = 0;
    while made < count
        invariant
            made <= count,
            t@.len() == old(t)@.len(),
            t@.len() > 0,
            changed_loci(old(t)@, t@).finite(),
            changed_loci(old(t)@, t@).len() <= made,
        decreases count - made,
    {
        let at = random_between(0, t.len());
        let ghost before = t@;
        t.mutate_at(at).unwrap();
        proof {
            one_more_change(old(t)@, before, t@, at as int, made as nat);
        }
        made += 1;
    }
    Ok(())
}

/// A genetic algorithm on a population of creatures.
pub trait Evolve<T: Create + Copy, R: Creature<T>> {
    /// Ranks the population: the creature with the lowest cost comes
    /// first. Each genome is rated once, and the costs are returned in the
    /// order of the ranking. Creatures of equal cost come in no particular
    /// order.
    fn weight<F: Fn(&Genome<T>) -> i64>(population: &mut Vec<R>, rate_fitness: F) -> (costs: Vec<i64>)
        requires
            forall|genome: &Genome<T>| call_requires(rate_fitness, (genome,)),
        ensures
            final(population).len() == old(population).len(),
            genome_views(final(population)@).to_multiset() == genome_views(
                old(population)@,
            ).to_multiset(),
            costs.len() == final(population).len(),
            forall|i: int|
                0 <= i < costs.len() ==> call_ensures(
                    rate_fitness,
                    (&final(population)[i].genome(),),
                    #[trigger] costs[i],
                ),
            forall|i: int, j: int| 0 <= i <= j < costs.len() ==> costs[i] <= costs[j],
    ;

    /// Draws `rho` fathers from the ranked pool, each at the position that
    /// a sample of the geometric sampler with the parameter `diversity`
    /// stands for. A genome may be drawn more than once; the fathers are
    /// copies.
    fn get_fathers(genome_pool: &Vec<Genome<T>>, rho: usize, diversity: usize) -> (fathers: Result<
        Vec<Genome<T>>,
        GeneError,
    >)
        ensures
            fathers is Ok <==> rho == 0 || (diversity > 0 && genome_pool.len() > 0),
            fathers is Err ==> fathers == Err::<Vec<Genome<T>>, GeneError>(
                GeneError::InvalidArgument,
            ),
            fathers is Ok ==> fathers->Ok_0@.len() == rho && forall|i: int|
                0 <= i < rho ==> drawn_from((#[trigger] fathers->Ok_0@[i])@, genome_pool@),
    ;

    /// Maps every locus of a genome of `genome_size` units to its donor:
    /// one of the fathers, or the mother, for whom the number of the
    /// fathers stands. The donor of a locus is what a sample of the
    /// geometric sampler with the parameter `fathers.len() / 2` stands for.
    /// Fewer than two fathers give no parameter; two or three give 1, under
    /// which the samples are large and slow to come: see `rnd_exp`.
    fn get_indices(genome_size: usize, fathers: &Vec<Genome<T>>) -> (indices: Result<
        Vec<usize>,
        GeneError,
    >)
        ensures
            indices is Ok <==> indices_verdict(genome_size, fathers.len()) is Ok,
            indices is Err ==> indices_verdict(genome_size, fathers.len()) == Err::<(), GeneError>(
                indices->Err_0,
            ),
            indices is Ok ==> indices->Ok_0@.len() == genome_size && forall|i: int|
                0 <= i < genome_size ==> #[trigger] indices->Ok_0@[i] <= fathers.len(),
    ;

    /// Lets the mother inherit from the fathers: a donor map is drawn for
    /// her, and she is combined with the fathers as it says. Where no donor
    /// map can be drawn, and where the map that was drawn names a father
    /// for a locus that he does not have, nothing changes.
    fn reproduce(mother: &mut Genome<T>, fathers: &Vec<Genome<T>>) -> (done: Result<(), GeneError>)
        ensures
            indices_verdict(old(mother).len(), fathers.len()) is Err ==> indices_verdict(
                old(mother).len(),
                fathers.len(),
            ) == done,
            indices_verdict(old(mother).len(), fathers.len()) is Ok && fathers_reach(
                fathers@,
                old(mother)@.len(),
            ) ==> done is Ok,
            indices_verdict(old(mother).len(), fathers.len()) is Ok && done is Err ==> done
                == Err::<(), GeneError>(GeneError::LengthMismatch),
            done is Ok ==> inherited(old(mother)@, fathers@, final(mother)@),
            done is Err ==> final(mother)@ == old(mother)@,
    ;

    /// Adds mutations to a genome: their number is a sample of the
    /// geometric sampler with the parameter `expected`, and each replaces
    /// the unit at a random locus. An `expected` of 0 is refused, and so is
    /// an empty genome when the sample is not 0.
    fn mutate(t: &mut Genome<T>, expected: usize) -> (done: Result<(), GeneError>)
        ensures
            expected == 0 ==> done is Err,
            expected > 0 && old(t)@.len() > 0 ==> done is Ok,
            done is Err ==> done == Err::<(), GeneError>(GeneError::InvalidArgument) && final(t)@
                == old(t)@,
            final(t)@.len() == old(t)@.len(),
    ;

    /// One generation. The population is ranked by cost. Then every
    /// genome, from the last of the ranking to the first, takes its turn as
    /// the mother: `settings.rho` fathers are drawn from the ranked genomes
    /// as they are at that moment; the mother inherits from them, and is
    /// then mutated. There is one buffer only: a father may be a genome
    /// that had its own turn earlier in the same pass.
    ///
    /// Whether the step can be run is decided before anything is done, so a
    /// refused step leaves every genome as it was. A step that was run
    /// leaves the creatures in the order of the ranking, every genome with
    /// the length it had.
    fn evolve<F: Fn(&Genome<T>) -> i64>(
        population: &mut Vec<R>,
        rate_fitness: F,
        settings: &Settings,
    ) -> (done: Result<(), GeneError>)
        requires
            forall|genome: &Genome<T>| call_requires(rate_fitness, (genome,)),
        ensures
            done == evolve_verdict(genome_views(old(population)@), *settings),
            final(population).len() == old(population).len(),
            done is Err ==> genome_views(final(population)@) == genome_views(old(population)@),
            done is Ok ==> forall|i: int|
                0 <= i < final(population).len() ==> (#[trigger] genome_views(
                    final(population)@,
                )[i]).len() == genome_views(old(population)@)[0].len(),
    ;
}

/// The algorithm on a vector of creatures.
impl<T: Create + Copy, R: Creature<T>> Evolve<T, R> for Vec<R> {
    fn weight<F: Fn(&Genome<T>) -> i64>(population: &mut Vec<R>, rate_fitness: F) -> (costs: Vec<i64>) {
        let size = population.len();
        let mut costs: Vec<i64> = Vec::new();
        let mut at: usize = 0;
        while at < size
            invariant
                at <= size,
                population.len() == size,
                costs.len() == at,
                forall|genome: &Genome<T>| call_requires(rate_fitness, (genome,)),
                genome_views(population@) == genome_views(old(population)@),
                forall|i: int|
                    0 <= i < at ==> call_ensures(
                        rate_fitness,
                        (&population[i].genome(),),
                        #[trigger] costs[i],
                    ),
            decreases size - at,
        {
            let ghost before = population@;
            let genome = population[at].extract_genome();
            let cost = rate_fitness(&*genome);
            costs.push(cost);
            proof {
                assert(genome_views(population@) =~= genome_views(before));
            }
            at += 1;
        }
        let mut ranked: usize = 0;
        while ranked < size
            invariant
                ranked <= size,
                population.len() == size,
                costs.len() == size,
                genome_views(population@).to_multiset() == genome_views(
                    old(population)@,
                ).to_multiset(),
                forall|i: int|
                    0 <= i < size ==> call_ensures(
                        rate_fitness,
                        (&population[i].genome(),),
                        #[trigger] costs[i],
                    ),
                forall|i: int, j: int| 0 <= i <= j < ranked ==> costs[i] <= costs[j],
            decreases size - ranked,
        {
            let cost = costs[ranked];
            let mut place: usize = ranked;
            while place > 0 && costs[place - 1] > cost
                invariant
                    place <= ranked,
                    ranked < costs.len(),
                    cost == costs[ranked as int],
                    forall|k: int| place <= k < ranked ==> costs[k] > cost,
                decreases place,
            {
                place -= 1;
            }
            let ghost creatures = population@;
            let ghost rated = costs@;
            let creature = population.remove(ranked);
            population.insert(place, creature);
            let moved = costs.remove(ranked);
            costs.insert(place, moved);
            proof {
                let views = genome_views(creatures);
                assert(genome_views(population@) =~= views.remove(ranked as int).insert(
                    place as int,
                    views[ranked as int],
                ));
                shift_keeps_items(views, ranked as int, place as int);
                assert forall|i: int| 0 <= i < size implies call_ensures(
                    rate_fitness,
                    (&population[i].genome(),),
                    #[trigger] costs[i],
                ) by {
                    if i < place {
                        assert(population[i] == creatures[i] && costs[i] == rated[i]);
                    } else if i == place {
                        assert(population[i] == creatures[ranked as int] && costs[i] == rated[ranked as int]);
                    } else if i <= ranked {
                        assert(population[i] == creatures[i - 1] && costs[i] == rated[i - 1]);
                    } else {
                        assert(population[i] == creatures[i] && costs[i] == rated[i]);
                    }
                }
                assert forall|i: int, j: int| 0 <= i <= j < ranked + 1 implies costs[i] <= costs[j] by {
                    let before_i = if i < place {
                        i
                    } else if i == place {
                        ranked as int
                    } else {
                        i - 1
                    };
                    let before_j = if j < place {
                        j
                    } else if j == place {
                        ranked as int
                    } else {
                        j - 1
                    };
                    assert(costs[i] == rated[before_i]);
                    assert(costs[j] == rated[before_j]);
                    if place > 0 {
                        assert(rated[place - 1] <= cost);
                    }
                }
            }
            ranked += 1;
        }
        costs
    }

    fn get_fathers(genome_pool: &Vec<Genome<T>>, rho: usize, diversity: usize) -> (fathers: Result<
        Vec<Genome<T>>,
        GeneError,
    >) {
        let mut fathers: Vec<Genome<T>> = Vec::new();
        if rho == 0 {
            return Ok(fathers);
        }
        if diversity == 0 || genome_pool.len() == 0 {
            return Err(GeneError::InvalidArgument);
        }
        while fathers.len() < rho
            invariant
                fathers@.len() <= rho,
                diversity > 0,
                genome_pool.len() > 0,
                forall|i: int|
                    0 <= i < fathers@.len() ==> drawn_from((#[trigger] fathers@[i])@, genome_pool@),
            decreases rho - fathers@.len(),
        {
            let sample = match rnd_exp(diversity) {
                Ok(sample) => sample,
                Err(error) => {
                    return Err(error);
                },
            };
            let index = choose_father(sample, genome_pool.len());
            let father = duplicate(&genome_pool[index]);
            let ghost drawn = fathers@;
            fathers.push(father);
            proof {
                assert forall|i: int| 0 <= i < fathers@.len() implies drawn_from(
                    (#[trigger] fathers@[i])@,
                    genome_pool@,
                ) by {
                    if i < drawn.len() {
                        assert(fathers@[i] == drawn[i]);
                    } else {
                        assert(genome_pool@[index as int]@ == fathers@[i]@);
                    }
                }
            }
        }
        Ok(fathers)
    }

    fn get_indices(genome_size: usize, fathers: &Vec<Genome<T>>) -> (indices: Result<
        Vec<usize>,
        GeneError,
    >) {
        if fathers.len() == usize::MAX {
            return Err(GeneError::Overflow);
        }
        let mut indices: Vec<usize> = Vec::new();
        let mut at: usize = 0;
        while at < genome_size
            invariant
                at <= genome_size,
                fathers.len() < usize::MAX,
                at > 0 ==> fathers.len() >= 2,
                indices@.len() == at,
                forall|i: int| 0 <= i < at ==> #[trigger] indices@[i] <= fathers.len(),
            decreases genome_size - at,
        {
            let sample = match rnd_exp(fathers.len() / 2) {
                Ok(sample) => sample,
                Err(error) => {
                    return Err(error);
                },
            };
            indices.push(choose_donor(sample, fathers.len()));
            at += 1;
        }
        Ok(indices)
    }

    fn reproduce(mother: &mut Genome<T>, fathers: &Vec<Genome<T>>) -> (done: Result<(), GeneError>) {
        let indices = match Self::get_indices(mother.len(), fathers) {
            Ok(indices) => indices,
            Err(error) => {
                return Err(error);
            },
        };
        let ghost donors = Genome::<T>::units_of(fathers@);
        proof {
            if fathers_reach(fathers@, mother@.len()) {
                assert forall|i: int|
                    0 <= i < indices@.len() && #[trigger] indices@[i] < donors.len() implies i
                    < donors[indices@[i] as int].len() by {
                    assert(fathers@[indices@[i] as int]@.len() >= mother@.len());
                }
            }
        }
        let done = mother.combine(fathers, &indices);
        proof {
            if done is Ok {
                assert forall|i: int| 0 <= i < mother@.len() implies #[trigger] mother@[i] == old(
                    mother,
                )@[i] || exists|k: int|
                    0 <= k < fathers@.len() && i < (#[trigger] fathers@[k])@.len() && mother@[i]
                        == fathers@[k]@[i] by {
                    if indices@[i] < fathers@.len() {
                        let k = indices@[i] as int;
                        assert(donors[k] == fathers@[k]@);
                        assert(i < fathers@[k]@.len() && mother@[i] == fathers@[k]@[i]);
                    }
                }
            }
        }
        done
    }

    fn mutate(t: &mut Genome<T>, expected: usize) -> (done: Result<(), GeneError>) {
        let mutation_amount = match rnd_exp(expected) {
            Ok(sample) => sample,
            Err(error) => {
                return Err(error);
            },
        };
        let done = mutate_times(t, mutation_amount);
        proof {
            if done is Err {
                assert(t@ =~= old(t)@);
            }
        }
        done
    }

    fn evolve<F: Fn(&Genome<T>) -> i64>(
        population: &mut Vec<R>,
        rate_fitness: F,
        settings: &Settings,
    ) -> (done: Result<(), GeneError>) {
        let size = population.len();
        if size == 0 {
            return Ok(());
        }
        let genome_size = population[0].extract_genome().len();
        assert(genome_views(population@) =~= genome_views(old(population)@));
        let mut at: usize = 1;
        while at < size
            invariant
                1 <= at <= size,
                population.len() == size,
                size == old(population).len(),
                genome_views(population@) == genome_views(old(population)@),
                genome_size == genome_views(population@)[0].len(),
                forall|i: int| 0 <= i < at ==> (#[trigger] genome_views(population@)[i]).len() == genome_size,
            decreases size - at,
        {
            let ghost before = population@;
            let other_size = population[at].extract_genome().len();
            assert(genome_views(population@) =~= genome_views(before));
            if other_size != genome_size {
                assert(genome_views(population@)[at as int].len() != genome_size);
                return Err(GeneError::LengthMismatch);
            }
            at += 1;
        }
        if settings.rho == usize::MAX {
            return Err(GeneError::Overflow);
        }
        let diversity = settings.diversity.value(size);
        if diversity == 0 || settings.rho < 2 {
            return Err(GeneError::InvalidArgument);
        }
        let expected = match settings.mutation_rate.expected(genome_size) {
            Ok(expected) => expected,
            Err(error) => {
                return Err(error);
            },
        };
        let ghost unranked = genome_views(population@);
        let _ = Self::weight(population, rate_fitness);
        proof {
            same_items_same_lengths(unranked, genome_views(population@), genome_size as nat);
        }
        let ghost ranked = genome_views(population@);
        let mut pool = take_genomes(population);
        assert forall|k: int| 0 <= k < size implies (#[trigger] pool@[k])@.len() == genome_size by {
            assert(pool@[k]@ == ranked[k]);
        }
        let mut index: usize = size;
        while index > 0
            invariant
                index <= size,
                size >= 1,
                diversity >= 1,
                pool@.len() == size,
                2 <= settings.rho < usize::MAX,
                genome_size >= 2,
                1 <= expected,
                forall|k: int| 0 <= k < size ==> (#[trigger] pool@[k])@.len() == genome_size,
            decreases index,
        {
            let fathers = Self::get_fathers(&pool, settings.rho, diversity).unwrap();
            proof {
                assert forall|k: int| 0 <= k < fathers@.len() implies (#[trigger] fathers@[k])@.len()
                    >= genome_size by {
                    assert(drawn_from(fathers@[k]@, pool@));
                }
            }
            Self::reproduce(&mut pool[index - 1], &fathers).unwrap();
            Self::mutate(&mut pool[index - 1], expected).unwrap();
            index -= 1;
        }
        give_genomes(population, pool);
        Ok(())
    }
}

/// Takes the genome out of every creature and leaves an empty one.
fn take_genomes<T: Create + Copy, R: Creature<T>>(population: &mut Vec<R>) -> (pool: Vec<Genome<T>>)
    ensures
        final(population).len() == old(population).len(),
        pool@.len() == old(population).len(),
        forall|i: int| 0 <= i < pool@.len() ==> (#[trigger] pool@[i])@ == old(population)[i].genome()@,
{
    let size = population.len();
    let mut pool: Vec<Genome<T>> = Vec::new();
    let mut at: usize = 0;
    while at < size
        invariant
            at <= size,
            population.len() == size,
            size == old(population).len(),
            pool@.len() == at,
            forall|i: int| 0 <= i < at ==> (#[trigger] pool@[i])@ == old(population)[i].genome()@,
            forall|i: int| at <= i < size ==> #[trigger] population[i] == old(population)[i],
        decreases size - at,
    {
        let mut taken: Genome<T> = Vec::new();
        let genome = population[at].extract_genome();
        core::mem::swap(genome, &mut taken);
        pool.push(taken);
        at += 1;
    }
    pool
}

/// Hands every creature the genome at its place in the pool.
fn give_genomes<T: Create + Copy, R: Creature<T>>(population: &mut Vec<R>, pool: Vec<Genome<T>>)
    requires
        pool@.len() == old(population).len(),
    ensures
        final(population).len() == old(population).len(),
        forall|i: int|
            0 <= i < pool@.len() ==> (#[trigger] final(population)[i]).genome()@ == pool@[i]@,
{
    let size = population.len();
    let mut pool = pool;
    let ghost handed = pool@;
    let mut at: usize = 0;
    while at < size
        invariant
            at <= size,
            population.len() == size,
            pool@.len() == size,
            handed.len() == size,
            forall|i: int| 0 <= i < at ==> (#[trigger] population[i]).genome()@ == handed[i]@,
            forall|i: int| at <= i < size ==> #[trigger] pool@[i] == handed[i],
        decreases size - at,
    {
        let genome = population[at].extract_genome();
        core::mem::swap(genome, &mut pool[at]);
        at += 1;
    }
}

/// Changing one more locus adds at most one to the loci that differ.
proof fn one_more_change<T>(before: Seq<T>, middle: Seq<T>, after: Seq<T>, at: int, count: nat)
    requires
        before.len() == middle.len(),
        middle.len() == after.len(),
        changed_loci(before, middle).finite(),
        changed_loci(before, middle).len() <= count,
        forall|i: int| 0 <= i < middle.len() && i != at ==> #[trigger] after[i] == middle[i],
    ensures
        changed_loci(before, after).finite(),
        changed_loci(before, after).len() <= count + 1,
{
    let earlier = changed_loci(before, middle);
    let later = changed_loci(before, after);
    assert(later.subset_of(earlier.insert(at)));
    vstd::set_lib::lemma_len_subset(later, earlier.insert(at));
}

/// Moving one item of a sequence to another place keeps what the sequence
/// holds.
proof fn shift_keeps_items<A>(items: Seq<A>, from: int, to: int)
    requires
        0 <= from < items.len(),
        0 <= to < items.len(),
    ensures
        items.remove(from).insert(to, items[from]).to_multiset() == items.to_multiset(),
{
    vstd::seq_lib::to_multiset_remove(items, from);
    vstd::seq_lib::to_multiset_insert(items.remove(from), to, items[from]);
    vstd::seq_lib::to_multiset_contains(items, items[from]);
    assert(items.contains(items[from]));
    assert(items.to_multiset().remove(items[from]).insert(items[from]) =~= items.to_multiset());
}

/// Genomes that are those of a list in another order have the lengths of
/// that list.
proof fn same_items_same_lengths<T>(before: Seq<Seq<T>>, after: Seq<Seq<T>>, length: nat)
    requires
        before.to_multiset() == after.to_multiset(),
        forall|i: int| 0 <= i < before.len() ==> (#[trigger] before[i]).len() == length,
    ensures
        forall|i: int| 0 <= i < after.len() ==> (#[trigger] after[i]).len() == length,
{
    assert forall|i: int| 0 <= i < after.len() implies (#[trigger] after[i]).len() == length by {
        let genome = after[i];
        assert(after.contains(genome));
        vstd::seq_lib::to_multiset_contains(after, genome);
        vstd::seq_lib::to_multiset_contains(before, genome);
        let j = choose|j: int| 0 <= j < before.len() && before[j] == genome;
        assert(before[j].len() == length);
    }
}

} // verus!
