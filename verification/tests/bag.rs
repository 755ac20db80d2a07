use rand::rngs::StdRng;
use rand::SeedableRng;
use tetris_engine::engine::bag::Bag;
use tetris_engine::engine::piece::Kind;

const KINDS: [Kind; 7] = [Kind::O, Kind::I, Kind::T, Kind::L, Kind::J, Kind::S, Kind::Z];

fn count(drawn: &[Kind], kind: Kind) -> usize {
    drawn.iter().filter(|k| **k == kind).count()
}

#[test]
fn new_bag_is_empty() {
    assert_eq!(Bag::new().len(), 0);
}

#[test]
fn refill_puts_in_seven_kinds() {
    let mut rng = StdRng::from_entropy();
    let mut bag = Bag::new();
    bag.refill(&mut rng);
    assert_eq!(bag.len(), 7);
}

#[test]
fn seven_draws_from_an_empty_bag_give_each_kind_once() {
    let mut rng = StdRng::from_entropy();
    let mut bag = Bag::new();
    for _ in 0..50 {
        assert_eq!(bag.len(), 0);
        let mut drawn = Vec::new();
        for left in (0..7).rev() {
            drawn.push(bag.draw(&mut rng));
            assert_eq!(bag.len(), left);
        }
        for kind in KINDS {
            assert_eq!(count(&drawn, kind), 1, "{:?} in {:?}", kind, drawn);
        }
    }
}

#[test]
fn draw_fills_the_bag_only_when_it_is_empty() {
    let mut rng = StdRng::from_entropy();
    let mut bag = Bag::new();
    bag.draw(&mut rng);
    assert_eq!(bag.len(), 6);
    bag.draw(&mut rng);
    assert_eq!(bag.len(), 5);
    for _ in 0..5 {
        bag.draw(&mut rng);
    }
    assert_eq!(bag.len(), 0);
    bag.draw(&mut rng);
    assert_eq!(bag.len(), 6);
}

#[test]
fn draw_after_refill_takes_from_that_cycle() {
    let mut rng = StdRng::from_entropy();
    let mut bag = Bag::new();
    bag.refill(&mut rng);
    let mut drawn = Vec::new();
    for _ in 0..7 {
        drawn.push(bag.draw(&mut rng));
    }
    assert_eq!(bag.len(), 0);
    for kind in KINDS {
        assert_eq!(count(&drawn, kind), 1);
    }
}

#[test]
fn cycles_come_in_more_than_one_order() {
    let mut rng = StdRng::from_entropy();
    let mut bag = Bag::new();
    let mut orders: Vec<Vec<Kind>> = Vec::new();
    for _ in 0..40 {
        let mut drawn = Vec::new();
        for _ in 0..7 {
            drawn.push(bag.draw(&mut rng));
        }
        orders.push(drawn);
    }
    let listed: Vec<Kind> = KINDS.iter().rev().copied().collect();
    assert!(orders.iter().any(|order| *order != orders[0]));
    assert!(orders.iter().any(|order| *order != listed));
}

#[test]
fn seeded_generators_give_cycles_too() {
    for seed in 0..200 {
        let mut rng = StdRng::seed_from_u64(seed);
        let mut bag = Bag::new();
        for _ in 0..3 {
            let mut drawn = Vec::new();
            for _ in 0..7 {
                drawn.push(bag.draw(&mut rng));
            }
            for kind in KINDS {
                assert_eq!(count(&drawn, kind), 1, "seed {} drew {:?}", seed, drawn);
            }
        }
    }
}

#[test]
fn same_seed_gives_the_same_draws() {
    let mut first_rng = StdRng::seed_from_u64(2024);
    let mut second_rng = StdRng::seed_from_u64(2024);
    let mut first = Bag::new();
    let mut second = Bag::new();
    for _ in 0..35 {
        assert_eq!(first.draw(&mut first_rng), second.draw(&mut second_rng));
    }
}
