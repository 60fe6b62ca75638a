use lib_simulation::{
    Animal, AnimalIndividual, Chromosome, Error, Eye, Food, GeneticAlgorithm, Individual, Motion,
    MutationMethod, Neuron, Point2, Ratio, RouletteWheelSelection, Sighting, Simulation,
    UniformCrossover, World,
};
use rand::{Rng, SeedableRng};
use rand_chacha::ChaCha8Rng;
use std::cell::Cell;

const GENES: usize = 218;

fn point(x: f32, y: f32) -> Point2 {
    Point2::new(x.to_bits(), y.to_bits()).unwrap()
}

fn xy(point: Point2) -> (f32, f32) {
    (f32::from_bits(point.x()), f32::from_bits(point.y()))
}

fn seeded() -> ChaCha8Rng {
    ChaCha8Rng::from_seed(Default::default())
}

fn animal_at(x: f32, y: f32) -> Animal {
    let place = |_: &mut ChaCha8Rng| point(x, y);
    let turn = |_: &mut ChaCha8Rng| 0.0f32.to_bits();
    Animal::from_chromosome(Chromosome::new(vec![0; GENES]), &mut seeded(), &place, &turn).unwrap()
}

fn blind(_: Eye, _: Point2, _: u32, _: Food) -> Option<Sighting> {
    None
}

fn accumulate(a: u32, b: u32) -> u32 {
    (f32::from_bits(a) + f32::from_bits(b)).to_bits()
}

fn fire(neuron: &Neuron, inputs: &Vec<u32>) -> u32 {
    let output = inputs
        .iter()
        .zip(neuron.weights())
        .map(|(input, weight)| f32::from_bits(*input) * f32::from_bits(*weight))
        .sum::<f32>();
    (f32::from_bits(neuron.bias()) + output).max(0.0).to_bits()
}

fn stay(position: Point2, rotation: u32, _: u32, _: &Vec<u32>) -> Motion {
    Motion { position, rotation }
}

fn drift(position: Point2, rotation: u32, speed: u32, response: &Vec<u32>) -> Motion {
    assert_eq!(response.len(), 2);
    assert_eq!(f32::from_bits(speed), 0.002);
    let (x, y) = xy(position);
    let x = (x + 0.3).rem_euclid(1.0);
    let y = (y - 0.3).rem_euclid(1.0);
    Motion { position: point(x, y), rotation }
}

fn touches(animal: Point2, food: Point2) -> bool {
    let (ax, ay) = xy(animal);
    let (fx, fy) = xy(food);
    ((ax - fx).powi(2) + (ay - fy).powi(2)).sqrt() <= 0.01
}

fn never(_: Point2, _: Point2) -> bool {
    false
}

struct Keep;

impl MutationMethod for Keep {
    fn mutate(&self, _rng: &mut ChaCha8Rng, _child: &mut Chromosome) {}
}

#[test]
fn a_world_needs_an_animal_and_an_item_of_food() {
    let food = Food::new(point(0.5, 0.5));
    assert_eq!(World::new(vec![], vec![food]).err(), Some(Error::EmptyPopulation));
    assert_eq!(World::new(vec![], vec![]).err(), Some(Error::EmptyPopulation));
    assert_eq!(World::new(vec![animal_at(0.5, 0.5)], vec![]).err(), Some(Error::EmptyFoodSet));
    let world = World::new(vec![animal_at(0.5, 0.5)], vec![food]).unwrap();
    assert_eq!(world.animals().len(), 1);
    assert_eq!(world.foods().len(), 1);
}

#[test]
fn a_random_world_has_forty_animals_and_sixty_items_of_food() {
    let mut rng = seeded();
    let draw = |rng: &mut ChaCha8Rng| rng.gen_range(-1.0f32..=1.0).to_bits();
    let place = |rng: &mut ChaCha8Rng| {
        let x = rng.gen::<f32>();
        let y = rng.gen::<f32>();
        point(x, y)
    };
    let turn = |rng: &mut ChaCha8Rng| (rng.gen::<f32>() * 6.0).to_bits();
    let simulation = Simulation::random(&mut rng, &draw, &place, &turn);
    assert_eq!(simulation.generation(), 0);
    let world = simulation.world();
    assert_eq!(world.animals().len(), 40);
    assert_eq!(world.foods().len(), 60);
    for animal in world.animals() {
        assert_eq!(animal.satiation(), 0);
        assert_eq!(f32::from_bits(animal.speed()), 0.002);
        assert_eq!(animal.eye().cells(), 9);
        assert_eq!(animal.as_chromosome().len(), GENES);
        let layers = animal.brain().network().layers();
        assert_eq!(layers.len(), 2);
        assert_eq!(layers[0].neurons().len(), 18);
        assert_eq!(layers[0].neurons()[0].weights().len(), 9);
        assert_eq!(layers[1].neurons().len(), 2);
        assert_eq!(layers[1].neurons()[0].weights().len(), 18);
    }
}

#[test]
fn an_animal_is_made_of_as_many_genes_as_its_brain_has_parameters() {
    let mut rng = seeded();
    let place = |_: &mut ChaCha8Rng| point(0.1, 0.2);
    let turn = |_: &mut ChaCha8Rng| 1.5f32.to_bits();
    let genes: Vec<u32> = (0..GENES as u32).collect();
    let animal = Animal::from_chromosome(Chromosome::new(genes.clone()), &mut rng, &place, &turn).unwrap();
    assert_eq!(animal.as_chromosome().into_genes(), genes);
    assert_eq!(xy(animal.position()), (0.1, 0.2));
    assert_eq!(f32::from_bits(animal.rotation()), 1.5);
    assert_eq!(animal.satiation(), 0);
    let short = Animal::from_chromosome(Chromosome::new(vec![0; GENES - 1]), &mut rng, &place, &turn);
    assert_eq!(short.err(), Some(Error::EncodingMismatch));
    let long = AnimalIndividual::create(Chromosome::new(vec![0; GENES + 1])).into_animal(&mut rng, &place, &turn);
    assert_eq!(long.err(), Some(Error::EncodingMismatch));
}

#[test]
fn the_first_animal_that_touches_an_item_of_food_eats_it() {
    let animals = vec![animal_at(0.9, 0.9), animal_at(0.5, 0.5), animal_at(0.5, 0.505), animal_at(0.2, 0.2)];
    let foods = vec![
        Food::new(point(0.5, 0.5)),
        Food::new(point(0.7, 0.7)),
        Food::new(point(0.2, 0.205)),
        Food::new(point(0.5, 0.502)),
    ];
    let mut world = World::new(animals, foods).unwrap();
    let drawn = Cell::new(0u32);
    let relocate = |_: &mut ChaCha8Rng| {
        drawn.set(drawn.get() + 1);
        point(0.0, drawn.get() as f32 / 16.0)
    };
    let eaters = world.process_collisions(&mut seeded(), &touches, &relocate);
    assert_eq!(eaters, vec![Some(1), None, Some(3), Some(1)]);
    let satiation: Vec<usize> = world.animals().iter().map(|animal| animal.satiation()).collect();
    assert_eq!(satiation, vec![0, 2, 0, 1]);
    let foods: Vec<(f32, f32)> = world.foods().iter().map(|food| xy(food.position())).collect();
    assert_eq!(foods, vec![(0.0, 0.0625), (0.7, 0.7), (0.0, 0.125), (0.0, 0.1875)]);
    assert_eq!(drawn.get(), 3);
}

#[test]
fn a_step_moves_every_animal_and_keeps_it_inside_the_world() {
    let animals = vec![animal_at(0.9, 0.1), animal_at(0.5, 0.5), animal_at(0.0, 0.999)];
    let foods = vec![Food::new(point(0.25, 0.25))];
    let mut simulation = Simulation::new(World::new(animals, foods).unwrap());
    let relocate = |_: &mut ChaCha8Rng| point(0.0, 0.0);
    for _ in 0..50 {
        simulation.step(&mut seeded(), &blind, &accumulate, &fire, &drift, &never, &relocate);
        for animal in simulation.world().animals() {
            let (x, y) = xy(animal.position());
            assert!((0.0..1.0).contains(&x) && (0.0..1.0).contains(&y));
            assert_eq!(f32::from_bits(animal.speed()), 0.002);
        }
    }
    assert_eq!(simulation.generation(), 0);
    assert_eq!(simulation.world().animals().len(), 3);
    assert_eq!(simulation.world().foods().len(), 1);
    assert_eq!(xy(simulation.world().foods()[0].position()), (0.25, 0.25));
    let mut simulation =
        Simulation::new(World::new(vec![animal_at(0.9, 0.1)], vec![Food::new(point(0.25, 0.25))]).unwrap());
    simulation.step(&mut seeded(), &blind, &accumulate, &fire, &drift, &never, &relocate);
    let (x, y) = xy(simulation.world().animals()[0].position());
    assert!((x - 0.2).abs() < 1e-6 && (y - 0.8).abs() < 1e-6);
}

#[test]
fn a_step_feeds_the_animals_where_they_have_moved_to() {
    let animals = vec![animal_at(0.2, 0.8), animal_at(0.7, 0.3)];
    let foods = vec![Food::new(point(0.5, 0.5)), Food::new(point(0.0, 0.0)), Food::new(point(0.2, 0.8))];
    let mut simulation = Simulation::new(World::new(animals, foods).unwrap());
    let relocate = |_: &mut ChaCha8Rng| point(0.125, 0.125);
    simulation.step(&mut seeded(), &blind, &accumulate, &fire, &drift, &touches, &relocate);
    let satiation: Vec<usize> = simulation.world().animals().iter().map(|animal| animal.satiation()).collect();
    assert_eq!(satiation, vec![1, 1]);
    let foods: Vec<(f32, f32)> = simulation.world().foods().iter().map(|food| xy(food.position())).collect();
    assert_eq!(foods, vec![(0.125, 0.125), (0.125, 0.125), (0.2, 0.8)]);
}

#[test]
fn a_step_shows_the_brain_what_the_eye_sees() {
    let seen = |eye: Eye, _: Point2, _: u32, _: Food| -> Option<Sighting> {
        Some(Sighting { cell: eye.cells() - 1, energy: 0.5f32.to_bits() })
    };
    let asked = Cell::new(0usize);
    let watch = |neuron: &Neuron, inputs: &Vec<u32>| -> u32 {
        if neuron.weights().len() == 9 {
            asked.set(asked.get() + 1);
            let inputs: Vec<f32> = inputs.iter().map(|input| f32::from_bits(*input)).collect();
            assert_eq!(inputs, vec![0.0, 0.0, 0.0, 0.0, 0.0, 0.0, 0.0, 0.0, 1.0]);
        }
        1.0f32.to_bits()
    };
    let told = |position: Point2, _: u32, speed: u32, response: &Vec<u32>| -> Motion {
        assert_eq!(response, &vec![1.0f32.to_bits(), 1.0f32.to_bits()]);
        assert_eq!(f32::from_bits(speed), 0.002);
        Motion { position, rotation: 2.0f32.to_bits() }
    };
    let foods = vec![Food::new(point(0.5, 0.5)), Food::new(point(0.6, 0.6))];
    let mut simulation = Simulation::new(World::new(vec![animal_at(0.1, 0.1)], foods).unwrap());
    let relocate = |_: &mut ChaCha8Rng| point(0.0, 0.0);
    simulation.step(&mut seeded(), &seen, &accumulate, &watch, &told, &never, &relocate);
    assert_eq!(asked.get(), 18);
    let animal = &simulation.world().animals()[0];
    assert_eq!(f32::from_bits(animal.rotation()), 2.0);
    assert_eq!(f32::from_bits(animal.speed()), 0.002);
    assert_eq!(animal.satiation(), 0);
    assert_eq!(xy(animal.position()), (0.1, 0.1));
}

#[test]
fn evolve_replaces_the_animals_and_counts_the_generation() {
    let animals = vec![animal_at(0.5, 0.5), animal_at(0.5, 0.5), animal_at(0.9, 0.9), animal_at(0.1, 0.1)];
    let foods = vec![
        Food::new(point(0.5, 0.5)),
        Food::new(point(0.5, 0.501)),
        Food::new(point(0.9, 0.9)),
        Food::new(point(0.3, 0.3)),
    ];
    let mut simulation = Simulation::new(World::new(animals, foods).unwrap());
    let relocate = |_: &mut ChaCha8Rng| point(0.75, 0.25);
    simulation.step(&mut seeded(), &blind, &accumulate, &fire, &stay, &touches, &relocate);
    let ga = GeneticAlgorithm::new(RouletteWheelSelection, UniformCrossover, Keep);
    let mut rng = ChaCha8Rng::from_seed(Default::default());
    let place = |_: &mut ChaCha8Rng| point(0.25, 0.75);
    let turn = |_: &mut ChaCha8Rng| 3.0f32.to_bits();
    let statistics = simulation.evolve(&ga, &mut rng, &place, &turn);
    assert_eq!(statistics.generation, 0);
    assert_eq!(statistics.ga.min_fitness(), 0);
    assert_eq!(statistics.ga.max_fitness(), 2);
    assert_eq!(statistics.ga.avg_fitness(), Ratio { numerator: 3, denominator: 4 });
    assert_eq!(statistics.ga.median_fitness(), Ratio { numerator: 1, denominator: 2 });
    assert_eq!(simulation.generation(), 1);
    assert_eq!(simulation.world().animals().len(), 4);
    assert_eq!(simulation.world().foods().len(), 4);
    for animal in simulation.world().animals() {
        assert_eq!(animal.satiation(), 0);
        assert_eq!(xy(animal.position()), (0.25, 0.75));
        assert_eq!(f32::from_bits(animal.rotation()), 3.0);
        assert_eq!(animal.as_chromosome().into_genes(), vec![0; GENES]);
    }
    let statistics = simulation.evolve(&ga, &mut rng, &place, &turn);
    assert_eq!(statistics.generation, 1);
    assert_eq!(statistics.ga.max_fitness(), 0);
    assert_eq!(simulation.generation(), 2);
}
