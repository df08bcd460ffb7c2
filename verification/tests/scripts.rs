use performance_test_rs::hashmap::{HashMap, Strategy, DEFAULT_SEED};
use performance_test_rs::script::ScriptOp;

fn all_strategies() -> [Strategy; 5] {
    [
        Strategy::SeparateChaining,
        Strategy::LinearProbing,
        Strategy::QuadraticProbing,
        Strategy::DoubleHashing,
        Strategy::Std,
    ]
}

fn duplicate_free_script() -> Vec<ScriptOp> {
    let mut ops: Vec<ScriptOp> = Vec::new();
    for k in 0..50u64 {
        ops.push(ScriptOp::Insert(k, k * 2));
    }
    for k in 0..60u64 {
        ops.push(ScriptOp::Find(k));
    }
    for k in 10..20u64 {
        ops.push(ScriptOp::Delete(k));
    }
    for k in 5..25u64 {
        ops.push(ScriptOp::Find(k));
    }
    ops.push(ScriptOp::Clear);
    for k in 0..5u64 {
        ops.push(ScriptOp::Insert(k, k + 1000));
        ops.push(ScriptOp::Find(k));
    }
    ops.push(ScriptOp::Find(40));
    ops
}

#[test]
fn every_backend_observes_identical_results_on_a_duplicate_free_script() {
    let ops = duplicate_free_script();
    let mut m: HashMap<u64> = HashMap::construct(Strategy::Std, DEFAULT_SEED);
    let baseline = m.run_script(&ops);
    m.destroy();
    for s in all_strategies() {
        let mut m: HashMap<u64> = HashMap::construct(s, DEFAULT_SEED);
        let observed = m.run_script(&ops);
        assert_eq!(observed, baseline);
        m.destroy();
    }
}

#[test]
fn script_observations_match_hand_computed_values() {
    let ops = vec![
        ScriptOp::Insert(1, 10),
        ScriptOp::Find(1),
        ScriptOp::Delete(1),
        ScriptOp::Find(1),
        ScriptOp::Insert(2, 20),
        ScriptOp::Clear,
        ScriptOp::Find(2),
    ];
    for s in all_strategies() {
        let mut m: HashMap<u64> = HashMap::construct(s, DEFAULT_SEED);
        let observed = m.run_script(&ops);
        assert_eq!(observed, vec![Some(10), None, None]);
        m.destroy();
    }
}

#[test]
fn duplicate_inserts_split_the_backends_along_their_policies() {
    let ops = vec![ScriptOp::Insert(1, 10), ScriptOp::Insert(1, 20), ScriptOp::Find(1)];
    for s in [
        Strategy::SeparateChaining,
        Strategy::LinearProbing,
        Strategy::QuadraticProbing,
        Strategy::DoubleHashing,
    ] {
        let mut m: HashMap<u64> = HashMap::construct(s, DEFAULT_SEED);
        assert_eq!(m.run_script(&ops), vec![Some(10)]);
        m.destroy();
    }
    let mut m: HashMap<u64> = HashMap::construct(Strategy::Std, DEFAULT_SEED);
    assert_eq!(m.run_script(&ops), vec![Some(20)]);
    m.destroy();
}
