use performance_test_rs::harness;
use performance_test_rs::hashmap::Strategy;

fn all_strategies() -> [Strategy; 5] {
    [
        Strategy::SeparateChaining,
        Strategy::LinearProbing,
        Strategy::QuadraticProbing,
        Strategy::DoubleHashing,
        Strategy::Std,
    ]
}

#[test]
fn bulk_insert_empty_yields_exactly_n_live_entries() {
    for s in all_strategies() {
        let r = harness::inserts_into_new(s, 1000);
        assert_eq!(r.title, "bulk-insert-empty");
        assert_eq!(r.mismatches, 0);
        assert_eq!(r.live, 1000);
    }
}

#[test]
fn bulk_insert_reused_yields_exactly_n_live_entries() {
    for s in all_strategies() {
        let r = harness::inserts_into_alocated(s, 1000);
        assert_eq!(r.title, "bulk-insert-reused");
        assert_eq!(r.mismatches, 0);
        assert_eq!(r.live, 1000);
    }
}

#[test]
fn bulk_clear_leaves_no_live_entry() {
    for s in all_strategies() {
        let r = harness::clear(s, 1000);
        assert_eq!(r.title, "bulk-clear");
        assert_eq!(r.mismatches, 0);
        assert_eq!(r.live, 0);
    }
}

#[test]
fn sequential_delete_removes_every_entry() {
    for s in all_strategies() {
        let r = harness::deletes(s, 1000);
        assert_eq!(r.title, "sequential-delete");
        assert_eq!(r.mismatches, 0);
        assert_eq!(r.live, 0);
    }
}

#[test]
fn lookup_forward_reports_zero_mismatches() {
    for s in all_strategies() {
        let r = harness::finds(s, 1000);
        assert_eq!(r.title, "lookup-forward");
        assert_eq!(r.mismatches, 0);
        assert_eq!(r.live, 1000);
    }
}

#[test]
fn lookup_reverse_reports_zero_mismatches() {
    for s in all_strategies() {
        let r = harness::finds_rev(s, 1000);
        assert_eq!(r.title, "lookup-reverse");
        assert_eq!(r.mismatches, 0);
        assert_eq!(r.live, 1000);
    }
}

#[test]
fn scenarios_accept_the_empty_workload() {
    for s in all_strategies() {
        assert_eq!(harness::inserts_into_new(s, 0).live, 0);
        assert_eq!(harness::deletes(s, 0).live, 0);
        assert_eq!(harness::finds(s, 0).mismatches, 0);
        assert_eq!(harness::finds_rev(s, 0).mismatches, 0);
    }
}
