use lib_simulation::{AnimalIndividual, Chromosome, Ratio, Summary};

fn population(fitness: &[u64]) -> Vec<AnimalIndividual> {
    fitness.iter().map(|value| AnimalIndividual::new(*value, Chromosome::new(Vec::new()))).collect()
}

#[test]
fn sort_orders_the_values() {
    assert_eq!(Summary::sort(&vec![30, 10, 20, 10, 0]), vec![0, 10, 10, 20, 30]);
    assert_eq!(Summary::sort(&vec![]), Vec::<u64>::new());
    assert_eq!(Summary::sort(&vec![u64::MAX, 0, 7]), vec![0, 7, u64::MAX]);
}

#[test]
fn summary_of_an_odd_number_of_values() {
    let summary = Summary::of(&vec![30, 10, 20]);
    assert_eq!(summary.min_fitness(), 10);
    assert_eq!(summary.max_fitness(), 30);
    assert_eq!(summary.avg_fitness(), Ratio { numerator: 60, denominator: 3 });
    assert_eq!(summary.median_fitness(), Ratio { numerator: 40, denominator: 2 });
}

#[test]
fn summary_of_an_even_number_of_values() {
    let summary = Summary::new(&population(&[30, 10, 20, 41]));
    assert_eq!(summary.min_fitness(), 10);
    assert_eq!(summary.max_fitness(), 41);
    assert_eq!(summary.avg_fitness(), Ratio { numerator: 101, denominator: 4 });
    assert_eq!(summary.median_fitness(), Ratio { numerator: 50, denominator: 2 });
}

#[test]
fn summary_of_one_value_and_of_the_largest_values() {
    let summary = Summary::of(&vec![7]);
    assert_eq!(summary.min_fitness(), 7);
    assert_eq!(summary.max_fitness(), 7);
    assert_eq!(summary.avg_fitness(), Ratio { numerator: 7, denominator: 1 });
    assert_eq!(summary.median_fitness(), Ratio { numerator: 14, denominator: 2 });
    let summary = Summary::of(&vec![u64::MAX, u64::MAX]);
    assert_eq!(summary.avg_fitness(), Ratio { numerator: 2 * (u64::MAX as u128), denominator: 2 });
    assert_eq!(summary.median_fitness(), Ratio { numerator: 2 * (u64::MAX as u128), denominator: 2 });
}
