//! The fitness of one generation in four numbers: least, greatest, mean and
//! median.

use vstd::prelude::*;
use vstd::relations::{sorted_by, total_ordering};
use vstd::seq_lib::{lemma_sorted_unique, to_multiset_insert};

use crate::genetic::Individual;
use crate::selection::fitness_of;

verus! {

/// The order of fitness values.
pub open spec fn at_most() -> spec_fn(u64, u64) -> bool {
    |a: u64, b: u64| a <= b
}

/// The values in ascending order.
pub open spec fn ascending(values: Seq<u64>) -> Seq<u64> {
    values.sort_by(at_most())
}

/// The sum of the values.
pub open spec fn sum(values: Seq<u64>) -> nat
    decreases values.len(),
{
    if values.len() == 0 {
        0
    } else {
        sum(values.drop_last()) + values.last() as nat
    }
}

/// The order of fitness values is a total order.
pub proof fn lemma_at_most_is_total()
    ensures
        total_ordering(at_most()),
{
    assert(vstd::relations::reflexive(at_most()));
    assert(vstd::relations::antisymmetric(at_most()));
    assert(vstd::relations::transitive(at_most()));
    assert(vstd::relations::strongly_connected(at_most()));
}

/// The ascending arrangement holds the same values, as often, in order.
pub proof fn lemma_ascending(values: Seq<u64>)
    ensures
        ascending(values).len() == values.len(),
        ascending(values).to_multiset() == values.to_multiset(),
        sorted_by(ascending(values), at_most()),
{
    lemma_at_most_is_total();
    values.lemma_sort_by_ensures(at_most());
    values.to_multiset_ensures();
    ascending(values).to_multiset_ensures();
}

/// No sum of `u64` values, as many as a `usize` can count, exceeds a `u128`.
proof fn lemma_sum_bound(values: Seq<u64>)
    ensures
        sum(values) <= values.len() * u64::MAX,
    decreases values.len(),
{
    if values.len() > 0 {
        lemma_sum_bound(values.drop_last());
        assert(values.len() * u64::MAX == (values.len() - 1) * u64::MAX + u64::MAX) by (nonlinear_arith);
    }
}

/// An exact quotient of two integers, for the caller to turn into a real
/// number.
#[derive(Clone, Copy, Debug, PartialEq, Eq, Structural)]
pub struct Ratio {
    pub numerator: u128,
    pub denominator: u128,
}

/// What a generation came to: which generation it was, and the summary of
/// the fitness of its members.
#[derive(Clone, Copy, Debug)]
pub struct Statistics {
    pub generation: usize,
    pub ga: Summary,
}

/// The fitness values of one generation in four numbers.
#[derive(Clone, Copy, Debug)]
pub struct Summary {
    min_fitness: u64,
    max_fitness: u64,
    total_fitness: u128,
    size: usize,
    lower_median: u64,
    upper_median: u64,
}

impl Summary {
    /// The least fitness.
    pub closed spec fn spec_min_fitness(&self) -> u64 {
        self.min_fitness
    }

    /// The greatest fitness.
    pub closed spec fn spec_max_fitness(&self) -> u64 {
        self.max_fitness
    }

    /// The mean fitness: the sum of the values over their number.
    pub closed spec fn spec_avg_fitness(&self) -> Ratio {
        Ratio { numerator: self.total_fitness, denominator: self.size as u128 }
    }

    /// The median fitness: the sum of the two central values over two, where
    /// an odd number of values has one central value, taken twice.
    pub closed spec fn spec_median_fitness(&self) -> Ratio {
        Ratio { numerator: (self.lower_median + self.upper_median) as u128, denominator: 2 }
    }

    /// The summary is that of `values`.
    pub open spec fn summarizes(&self, values: Seq<u64>) -> bool {
        let ordered = ascending(values);
        let n = values.len() as int;
        &&& self.spec_min_fitness() == ordered[0]
        &&& self.spec_max_fitness() == ordered[n - 1]
        &&& self.spec_avg_fitness() == (Ratio { numerator: sum(values) as u128, denominator: n as u128 })
        &&& self.spec_median_fitness() == (Ratio {
            numerator: (ordered[(n - 1) / 2] + ordered[n / 2]) as u128,
            denominator: 2,
        })
        &&& sum(values) <= u128::MAX
    }

    /// The values in ascending order.
    pub fn sort(values: &Vec<u64>) -> (ordered: Vec<u64>)
        ensures
            ordered@ == ascending(values@),
    {
        let mut ordered: Vec<u64> = Vec::new();
        let mut i: usize = 0;
        assert(values@.take(0) =~= Seq::<u64>::empty());
        while i < values.len()
            invariant
                i <= values@.len(),
                ordered@.len() == i,
                sorted_by(ordered@, at_most()),
                ordered@.to_multiset() == values@.take(i as int).to_multiset(),
            decreases values@.len() - i,
        {
            let value = values[i];
            let mut place: usize = 0;
            while place < ordered.len() && ordered[place] <= value
                invariant
                    place <= ordered@.len(),
                    forall|k: int| 0 <= k < place ==> #[trigger] ordered@[k] <= value,
                decreases ordered@.len() - place,
            {
                place += 1;
            }
            let ghost before = ordered@;
            ordered.insert(place, value);
            proof {
                to_multiset_insert(before, place as int, value);
                assert(values@.take(i + 1) =~= values@.take(i as int).push(value));
                values@.take(i as int).to_multiset_ensures();
                assert forall|a: int, b: int| 0 <= a < b < ordered@.len() implies #[trigger] at_most()(
                    ordered@[a],
                    ordered@[b],
                ) by {
                    let x = if a < place {
                        a
                    } else {
                        a - 1
                    };
                    let y = if b < place {
                        b
                    } else {
                        b - 1
                    };
                    if a != place && b != place {
                        assert(at_most()(before[x], before[y]));
                    } else if b == place {
                        assert(before[a] <= value);
                    } else {
                        assert(before[place as int] > value);
                        if y > place {
                            assert(at_most()(before[place as int], before[y]));
                        }
                    }
                }
            }
            i += 1;
        }
        proof {
            assert(values@.take(i as int) =~= values@);
            lemma_ascending(values@);
            lemma_at_most_is_total();
            lemma_sorted_unique(ordered@, ascending(values@), at_most());
        }
        ordered
    }

    /// The summary of the given fitness values.
    pub fn of(values: &Vec<u64>) -> (summary: Summary)
        requires
            values@.len() > 0,
        ensures
            summary.summarizes(values@),
    {
        let ordered = Self::sort(values);
        let n = values.len();
        proof {
            lemma_ascending(values@);
        }
        let mut total: u128 = 0;
        let mut i: usize = 0;
        assert(values@.take(0) =~= Seq::<u64>::empty());
        while i < n
            invariant
                i <= n,
                n == values@.len(),
                total == sum(values@.take(i as int)),
            decreases n - i,
        {
            proof {
                assert(values@.take(i + 1).drop_last() =~= values@.take(i as int));
                lemma_sum_bound(values@.take(i + 1));
                assert((i + 1) * u64::MAX <= u128::MAX) by (nonlinear_arith)
                    requires
                        i + 1 <= u64::MAX,
                ;
            }
            total = total + values[i] as u128;
            i += 1;
        }
        assert(values@.take(i as int) =~= values@);
        Summary {
            min_fitness: ordered[0],
            max_fitness: ordered[n - 1],
            total_fitness: total,
            size: n,
            lower_median: ordered[(n - 1) / 2],
            upper_median: ordered[n / 2],
        }
    }

    /// The summary of the fitness of a population.
    pub fn new<I: Individual>(population: &[I]) -> (summary: Summary)
        requires
            population@.len() > 0,
        ensures
            summary.summarizes(fitness_of(population@)),
    {
        let mut values: Vec<u64> = Vec::new();
        let mut i: usize = 0;
        while i < population.len()
            invariant
                i <= population@.len(),
                values@ == fitness_of(population@).take(i as int),
            decreases population@.len() - i,
        {
            values.push(population[i].fitness());
            i += 1;
            assert(values@ =~= fitness_of(population@).take(i as int));
        }
        assert(values@ =~= fitness_of(population@));
        Self::of(&values)
    }

    /// The least fitness.
    pub fn min_fitness(&self) -> (fitness: u64)
        ensures
            fitness == self.spec_min_fitness(),
    {
        self.min_fitness
    }

    /// The greatest fitness.
    pub fn max_fitness(&self) -> (fitness: u64)
        ensures
            fitness == self.spec_max_fitness(),
    {
        self.max_fitness
    }

    /// The mean fitness, as the sum of the values over their number.
    pub fn avg_fitness(&self) -> (fitness: Ratio)
        ensures
            fitness == self.spec_avg_fitness(),
    {
        Ratio { numerator: self.total_fitness, denominator: self.size as u128 }
    }

    /// The median fitness, as the sum of the two central values over two.
    pub fn median_fitness(&self) -> (fitness: Ratio)
        ensures
            fitness == self.spec_median_fitness(),
    {
        Ratio { numerator: self.lower_median as u128 + self.upper_median as u128, denominator: 2 }
    }
}

} // verus!
