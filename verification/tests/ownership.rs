use performance_test_rs::hashmap::{HashMap, Strategy, DEFAULT_SEED};
use std::rc::Rc;

fn all_strategies() -> [Strategy; 5] {
    [
        Strategy::SeparateChaining,
        Strategy::LinearProbing,
        Strategy::QuadraticProbing,
        Strategy::DoubleHashing,
        Strategy::Std,
    ]
}

#[test]
fn delete_destroys_the_removed_value_exactly_once() {
    for s in all_strategies() {
        let probe = Rc::new(0u64);
        let mut m: HashMap<Rc<u64>> = HashMap::construct(s, DEFAULT_SEED);
        assert!(m.insert(1, Rc::clone(&probe)));
        assert_eq!(Rc::strong_count(&probe), 2);
        assert!(m.delete(1));
        assert_eq!(Rc::strong_count(&probe), 1);
        assert!(!m.delete(1));
        assert_eq!(Rc::strong_count(&probe), 1);
        m.destroy();
        assert_eq!(Rc::strong_count(&probe), 1);
    }
}

#[test]
fn clear_destroys_every_live_value_exactly_once() {
    for s in all_strategies() {
        let probe = Rc::new(0u64);
        let mut m: HashMap<Rc<u64>> = HashMap::construct(s, DEFAULT_SEED);
        for k in 0..8u64 {
            assert!(m.insert(k, Rc::clone(&probe)));
        }
        assert_eq!(Rc::strong_count(&probe), 9);
        m.clear();
        assert_eq!(Rc::strong_count(&probe), 1);
        assert!(m.insert(0, Rc::clone(&probe)));
        assert_eq!(Rc::strong_count(&probe), 2);
        m.destroy();
        assert_eq!(Rc::strong_count(&probe), 1);
    }
}

#[test]
fn destroy_reclaims_every_still_live_value() {
    for s in all_strategies() {
        let probe = Rc::new(0u64);
        let mut m: HashMap<Rc<u64>> = HashMap::construct(s, DEFAULT_SEED);
        for k in 0..5u64 {
            assert!(m.insert(k, Rc::clone(&probe)));
        }
        assert_eq!(Rc::strong_count(&probe), 6);
        m.destroy();
        assert_eq!(Rc::strong_count(&probe), 1);
    }
}

#[test]
fn rejected_duplicate_insert_does_not_leak_the_offered_value() {
    let probe = Rc::new(0u64);
    let mut m: HashMap<Rc<u64>> = HashMap::separate_chaining();
    assert!(m.insert(1, Rc::clone(&probe)));
    assert!(!m.insert(1, Rc::clone(&probe)));
    assert_eq!(Rc::strong_count(&probe), 2);
    m.destroy();
    assert_eq!(Rc::strong_count(&probe), 1);
}

#[test]
fn whole_sequence_never_double_frees_and_never_leaks() {
    for s in all_strategies() {
        let probe = Rc::new(0u64);
        let mut m: HashMap<Rc<u64>> = HashMap::construct(s, DEFAULT_SEED);
        for k in 0..10u64 {
            assert!(m.insert(k, Rc::clone(&probe)));
        }
        assert!(m.delete(3));
        assert!(m.delete(7));
        assert!(m.find(4).is_some());
        m.clear();
        for k in 0..4u64 {
            assert!(m.insert(k, Rc::clone(&probe)));
        }
        assert!(m.delete(0));
        m.destroy();
        assert_eq!(Rc::strong_count(&probe), 1);
    }
}
