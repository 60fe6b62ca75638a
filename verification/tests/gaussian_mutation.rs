use approx::RelativeEq;
use lib_simulation::{Chromosome, Error, GaussianMutation, MutationMethod};
use rand::{Rng, SeedableRng};
use rand_chacha::ChaCha8Rng;

fn perturb(rng: &mut ChaCha8Rng, gene: u32, negative: bool, chance: u32, coeff: u32) -> u32 {
    let sign = if negative { -1.0 } else { 1.0 };
    if rng.gen_bool(f32::from_bits(chance) as f64) {
        (f32::from_bits(gene) + sign * f32::from_bits(coeff) * rng.gen::<f32>()).to_bits()
    } else {
        gene
    }
}

fn actual(chance: f32, coeff: f32) -> Vec<f32> {
    let mut rng = ChaCha8Rng::from_seed(Default::default());
    let genes: Vec<u32> = vec![1.0f32, 2.0, 3.0, 4.0, 5.0].into_iter().map(f32::to_bits).collect();
    let mut child = Chromosome::new(genes);

    GaussianMutation::new(chance.to_bits(), coeff.to_bits(), perturb).unwrap().mutate(&mut rng, &mut child);

    child.into_genes().into_iter().map(f32::from_bits).collect()
}

fn close(actual: &[f32], expected: &[f32]) -> bool {
    actual.relative_eq(expected, f32::EPSILON, f32::EPSILON)
}

#[test]
fn does_not_change_the_original_chromosome() {
    let expected = vec![1.0, 2.0, 3.0, 4.0, 5.0];
    assert!(close(actual(0.0, 0.0).as_slice(), expected.as_slice()));
    assert!(close(actual(0.0, 0.5).as_slice(), expected.as_slice()));
}

#[test]
fn lib_does_not_change_the_original_chromosome() {
    let expected = vec![1.0, 2.0, 3.0, 4.0, 5.0];
    assert!(close(actual(0.5, 0.0).as_slice(), expected.as_slice()));
    assert!(close(actual(1.0, 0.0).as_slice(), expected.as_slice()));
}

#[test]
fn slightly_changes_the_original_chromosome() {
    let actual = actual(0.5, 0.5);
    let expected = vec![1.0, 1.7756249, 3.0, 4.1596804, 5.0];
    assert!(close(actual.as_slice(), expected.as_slice()));
}

#[test]
fn entirely_changes_the_original_chromosome() {
    let actual = actual(1.0, 0.5);
    let expected = vec![1.4545316, 2.1162078, 2.7756248, 3.9505124, 4.638691];
    assert!(close(actual.as_slice(), expected.as_slice()));
}

#[test]
fn a_chance_of_mutation_lies_between_zero_and_one() {
    assert!(GaussianMutation::new(0.0f32.to_bits(), 3.0f32.to_bits(), perturb).is_ok());
    assert!(GaussianMutation::new((-0.0f32).to_bits(), 3.0f32.to_bits(), perturb).is_ok());
    assert!(GaussianMutation::new(1.0f32.to_bits(), (-3.0f32).to_bits(), perturb).is_ok());
    let mutation = GaussianMutation::new(0.25f32.to_bits(), 3.0f32.to_bits(), perturb).unwrap();
    assert_eq!(f32::from_bits(mutation.chance()), 0.25);
    assert_eq!(f32::from_bits(mutation.coeff()), 3.0);
    for chance in [1.000_000_1f32, -0.1, 2.0, f32::INFINITY, f32::NAN, -1.0] {
        let refused = GaussianMutation::new(chance.to_bits(), 3.0f32.to_bits(), perturb);
        assert_eq!(refused.err(), Some(Error::InvalidMutationChance));
    }
}
