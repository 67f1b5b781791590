use raytracer::rand::Rand;

#[test]
fn tests_rand() {
    let seed = 42;
    let mut rand = Rand::new(seed);

    let mut v = 0;
    for _ in 0..100 {
        v = rand.next();
    }

    assert_eq!(v, 3863832633);
}

#[test]
fn tests_rand_time_seed() {
    let mut rand = Rand::new_from_time();
    assert_ne!(rand.next(), 0);
}

#[test]
fn same_seed_gives_same_sequence() {
    let mut first = Rand::new(7);
    let mut second = Rand::new(7);
    for _ in 0..1000 {
        assert_eq!(first.next(), second.next());
    }
}

#[test]
fn different_seeds_give_different_values() {
    let mut first = Rand::new(1);
    let mut second = Rand::new(2);
    let a: Vec<u32> = (0..8).map(|_| first.next()).collect();
    let b: Vec<u32> = (0..8).map(|_| second.next()).collect();
    assert_ne!(a, b);
}

#[test]
fn drawing_more_keeps_earlier_values() {
    let mut short = Rand::new(42);
    let mut long = Rand::new(42);
    let a: Vec<u32> = (0..10).map(|_| short.next()).collect();
    let b: Vec<u32> = (0..50).map(|_| long.next()).collect();
    assert_eq!(a[..], b[..10]);
}

#[test]
fn worker_generator_is_seeded_with_wrapping_sum() {
    let mut worker = Rand::for_worker(40, 2);
    let mut direct = Rand::new(42);
    for _ in 0..20 {
        assert_eq!(worker.next(), direct.next());
    }
    let mut wrapped = Rand::for_worker(u32::MAX, 3);
    let mut two = Rand::new(2);
    assert_eq!(wrapped.next(), two.next());
}

#[test]
fn workers_get_distinct_streams() {
    let mut w0 = Rand::for_worker(1000, 0);
    let mut w1 = Rand::for_worker(1000, 1);
    assert_ne!(w0.next(), w1.next());
}

#[test]
fn copied_generator_continues_identically() {
    let mut rand = Rand::new(3);
    rand.next();
    let mut copy = rand;
    assert_eq!(rand.next(), copy.next());
}

#[test]
fn seed_zero_is_not_stuck() {
    let mut rand = Rand::new(0);
    let values: Vec<u32> = (0..4).map(|_| rand.next()).collect();
    assert!(values.iter().any(|&v| v != 0));
    assert_ne!(values[0], values[1]);
}
