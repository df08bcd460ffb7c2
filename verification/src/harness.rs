use crate::clock;
use crate::hashmap::{DEFAULT_SEED, HashMap, Strategy};
use vstd::prelude::*;

verus! {

/// The table state after inserting every key in [0, n): value key + 1 when
/// `succ` holds, the constant 0 otherwise.
pub open spec fn filled(n: int, succ: bool) -> Map<u64, u64> {
    Map::new(
        |k: u64| (k as int) < n,
        |k: u64|
            if succ {
                (k + 1) as u64
            } else {
                0u64
            },
    )
}

/// The table state while a sequential delete pass is under way: the keys in
/// [lo, hi) still live, each with the constant value 0.
pub open spec fn filled_from(lo: int, hi: int) -> Map<u64, u64> {
    Map::new(|k: u64| lo <= (k as int) < hi, |k: u64| 0u64)
}

/// One scenario's report: the catalogue title, the elapsed microseconds of
/// the timed region, the anomalies the scenario observed (lookup value
/// mismatches, rejected inserts, deletes that found nothing), and the number
/// of live entries when the timed region ended.
pub struct ScenarioReport {
    pub title: &'static str,
    pub micros: u64,
    pub mismatches: u64,
    pub live: u64,
}

fn fill(map: &mut HashMap<u64>, n: u64, succ: bool) -> (rejected: u64)
    requires
        old(map)@ == Map::<u64, u64>::empty(),
    ensures
        final(map).strategy() == old(map).strategy(),
        final(map)@ == filled(n as int, succ),
        final(map)@.len() == n,
        rejected == 0,
{
    let mut rejected: u64 = 0;
    let mut i: u64 = 0;
    proof {
        assert(filled(0, succ) =~= Map::<u64, u64>::empty());
    }
    while i < n
        invariant
            i <= n,
            rejected == 0,
            map.strategy() == old(map).strategy(),
            map@ == filled(i as int, succ),
            map@.len() == i,
            map@.dom().finite(),
        decreases n - i,
    {
        let value = if succ {
            i + 1
        } else {
            0
        };
        let accepted = map.insert(i, value);
        if !accepted {
            rejected = rejected + 1;
        }
        proof {
            assert(!filled(i as int, succ).dom().contains(i));
            assert(map@ =~= filled(i as int + 1, succ));
        }
        i = i + 1;
    }
    rejected
}

/// The bulk-insert-empty scenario: insert `n` sequential keys with a constant
/// value into a fresh handle; the timed region covers exactly the inserts.
/// Every insert is accepted and exactly `n` entries are live afterwards.
pub fn inserts_into_new(strategy: Strategy, n: u64) -> (r: ScenarioReport)
    ensures
        r.title@ == "bulk-insert-empty"@,
        r.mismatches == 0,
        r.live == n,
{
    let mut map = HashMap::<u64>::construct(strategy, DEFAULT_SEED);
    let start = clock::now();
    let rejected = fill(&mut map, n, false);
    let micros = clock::as_micros(&clock::elapsed(&start));
    let live = map.len() as u64;
    map.destroy();
    ScenarioReport { title: "bulk-insert-empty", micros, mismatches: rejected, live }
}

/// The bulk-insert-reused scenario: populate `n` entries, clear, then
/// re-insert `n` entries; the timed region covers only the second pass, which
/// isolates the effect of retained capacity. Every re-insert is accepted.
pub fn inserts_into_alocated(strategy: Strategy, n: u64) -> (r: ScenarioReport)
    ensures
        r.title@ == "bulk-insert-reused"@,
        r.mismatches == 0,
        r.live == n,
{
    let mut map = HashMap::<u64>::construct(strategy, DEFAULT_SEED);
    let _setup = fill(&mut map, n, false);
    map.clear();
    let start = clock::now();
    let rejected = fill(&mut map, n, false);
    let micros = clock::as_micros(&clock::elapsed(&start));
    let live = map.len() as u64;
    map.destroy();
    ScenarioReport { title: "bulk-insert-reused", micros, mismatches: rejected, live }
}

/// The bulk-clear scenario: populate `n` entries, then time one clear call.
/// Afterwards no entry is live.
pub fn clear(strategy: Strategy, n: u64) -> (r: ScenarioReport)
    ensures
        r.title@ == "bulk-clear"@,
        r.mismatches == 0,
        r.live == 0,
{
    let mut map = HashMap::<u64>::construct(strategy, DEFAULT_SEED);
    let _setup = fill(&mut map, n, false);
    let start = clock::now();
    map.clear();
    let micros = clock::as_micros(&clock::elapsed(&start));
    let live = map.len() as u64;
    map.destroy();
    ScenarioReport { title: "bulk-clear", micros, mismatches: 0, live }
}

/// The sequential-delete scenario: populate `n` entries, then time `n`
/// individual deletes in ascending key order. Every delete removes an entry
/// and no entry is live afterwards.
pub fn deletes(strategy: Strategy, n: u64) -> (r: ScenarioReport)
    ensures
        r.title@ == "sequential-delete"@,
        r.mismatches == 0,
        r.live == 0,
{
    let mut map = HashMap::<u64>::construct(strategy, DEFAULT_SEED);
    let _setup = fill(&mut map, n, false);
    proof {
        assert(filled(n as int, false) =~= filled_from(0, n as int));
    }
    let start = clock::now();
    let mut missed: u64 = 0;
    let mut i: u64 = 0;
    while i < n
        invariant
            i <= n,
            missed == 0,
            map@ == filled_from(i as int, n as int),
        decreases n - i,
    {
        let removed = map.delete(i);
        if !removed {
            missed = missed + 1;
        }
        proof {
            assert(map@ =~= filled_from(i as int + 1, n as int));
        }
        i = i + 1;
    }
    let micros = clock::as_micros(&clock::elapsed(&start));
    proof {
        assert(map@ =~= Map::<u64, u64>::empty());
    }
    let live = map.len() as u64;
    map.destroy();
    ScenarioReport { title: "sequential-delete", micros, mismatches: missed, live }
}

/// The lookup-forward scenario: populate `n` entries with value key + 1, then
/// time `n` lookups in ascending order, counting value mismatches. A correct
/// backend reports zero mismatches.
pub fn finds(strategy: Strategy, n: u64) -> (r: ScenarioReport)
    ensures
        r.title@ == "lookup-forward"@,
        r.mismatches == 0,
        r.live == n,
{
    let mut map = HashMap::<u64>::construct(strategy, DEFAULT_SEED);
    let _setup = fill(&mut map, n, true);
    let start = clock::now();
    let mut wrong: u64 = 0;
    let mut i: u64 = 0;
    while i < n
        invariant
            i <= n,
            wrong == 0,
            map@ == filled(n as int, true),
        decreases n - i,
    {
        match map.find(i) {
            Some(v) => {
                if *v != i + 1 {
                    wrong = wrong + 1;
                }
            },
            None => {},
        }
        i = i + 1;
    }
    let micros = clock::as_micros(&clock::elapsed(&start));
    let live = map.len() as u64;
    map.destroy();
    ScenarioReport { title: "lookup-forward", micros, mismatches: wrong, live }
}

/// The lookup-reverse scenario: identical to lookup-forward, but the lookups
/// proceed in descending key order, which stresses locality differently.
pub fn finds_rev(strategy: Strategy, n: u64) -> (r: ScenarioReport)
    ensures
        r.title@ == "lookup-reverse"@,
        r.mismatches == 0,
        r.live == n,
{
    let mut map = HashMap::<u64>::construct(strategy, DEFAULT_SEED);
    let _setup = fill(&mut map, n, true);
    let start = clock::now();
    let mut wrong: u64 = 0;
    let mut i: u64 = n;
    while i > 0
        invariant
            i <= n,
            wrong == 0,
            map@ == filled(n as int, true),
        decreases i,
    {
        let key = i - 1;
        match map.find(key) {
            Some(v) => {
                if *v != key + 1 {
                    wrong = wrong + 1;
                }
            },
            None => {},
        }
        i = i - 1;
    }
    let micros = clock::as_micros(&clock::elapsed(&start));
    let live = map.len() as u64;
    map.destroy();
    ScenarioReport { title: "lookup-reverse", micros, mismatches: wrong, live }
}

} // verus!
