use crate::hashmap::{HashMap, find_spec, insert_spec};
use vstd::prelude::*;

verus! {

/// One operation of a scripted workload over a u64-valued table.
#[derive(Clone, Copy, PartialEq, Eq, Structural, Debug)]
pub enum ScriptOp {
    Insert(u64, u64),
    Delete(u64),
    Clear,
    Find(u64),
}

/// The table state after running a script from state `m` under the given
/// duplicate policy.
pub open spec fn script_state(m: Map<u64, u64>, ops: Seq<ScriptOp>, overwrites: bool) -> Map<
    u64,
    u64,
>
    decreases ops.len(),
{
    if ops.len() == 0 {
        m
    } else {
        let rest = ops.drop_first();
        match ops.first() {
            ScriptOp::Insert(k, v) => script_state(
                insert_spec(m, k, v, overwrites),
                rest,
                overwrites,
            ),
            ScriptOp::Delete(k) => script_state(m.remove(k), rest, overwrites),
            ScriptOp::Clear => script_state(Map::empty(), rest, overwrites),
            ScriptOp::Find(_) => script_state(m, rest, overwrites),
        }
    }
}

/// The observations a script's find operations make, in order, running from
/// state `m` under the given duplicate policy.
pub open spec fn script_finds(m: Map<u64, u64>, ops: Seq<ScriptOp>, overwrites: bool) -> Seq<
    Option<u64>,
>
    decreases ops.len(),
{
    if ops.len() == 0 {
        Seq::empty()
    } else {
        let rest = ops.drop_first();
        match ops.first() {
            ScriptOp::Insert(k, v) => script_finds(
                insert_spec(m, k, v, overwrites),
                rest,
                overwrites,
            ),
            ScriptOp::Delete(k) => script_finds(m.remove(k), rest, overwrites),
            ScriptOp::Clear => script_finds(Map::empty(), rest, overwrites),
            ScriptOp::Find(k) => seq![find_spec(m, k)] + script_finds(m, rest, overwrites),
        }
    }
}

/// Whether a script never inserts a key that is live at the moment of the
/// insert, running from state `m`. On such scripts the backends' differing
/// duplicate policies can never be told apart.
pub open spec fn duplicate_free(m: Map<u64, u64>, ops: Seq<ScriptOp>) -> bool
    decreases ops.len(),
{
    if ops.len() == 0 {
        true
    } else {
        let rest = ops.drop_first();
        match ops.first() {
            ScriptOp::Insert(k, v) => !m.dom().contains(k) && duplicate_free(m.insert(k, v), rest),
            ScriptOp::Delete(k) => duplicate_free(m.remove(k), rest),
            ScriptOp::Clear => duplicate_free(Map::empty(), rest),
            ScriptOp::Find(_) => duplicate_free(m, rest),
        }
    }
}

impl HashMap<u64> {
    /// Run an operation script against this handle, returning the
    /// observations of its find operations in order. The result is a function
    /// of the starting state, the script and the handle's duplicate policy
    /// alone: two backends with the same policy, given the same script from
    /// the same state, observe identical results at every observation point.
    pub fn run_script(&mut self, ops: &Vec<ScriptOp>) -> (r: Vec<Option<u64>>)
        ensures
            final(self).strategy() == old(self).strategy(),
            final(self)@ == script_state(old(self)@, ops@, old(self).overwrites()),
            r@ == script_finds(old(self)@, ops@, old(self).overwrites()),
    {
        let ghost m0 = self@;
        let ghost pol = self.overwrites();
        let mut out: Vec<Option<u64>> = Vec::new();
        let mut i: usize = 0;
        proof {
            assert(ops@.skip(0) =~= ops@);
        }
        while i < ops.len()
            invariant
                i <= ops@.len(),
                self.strategy() == old(self).strategy(),
                self.overwrites() == pol,
                script_state(m0, ops@, pol) == script_state(self@, ops@.skip(i as int), pol),
                script_finds(m0, ops@, pol) == out@ + script_finds(
                    self@,
                    ops@.skip(i as int),
                    pol,
                ),
            decreases ops@.len() - i,
        {
            let ghost pre = self@;
            let ghost tail = ops@.skip(i as int);
            proof {
                assert(tail.first() == ops@[i as int]);
                assert(tail.drop_first() =~= ops@.skip(i as int + 1));
            }
            let op = ops[i];
            match op {
                ScriptOp::Insert(k, v) => {
                    let _accepted = self.insert(k, v);
                },
                ScriptOp::Delete(k) => {
                    let _removed = self.delete(k);
                },
                ScriptOp::Clear => {
                    self.clear();
                },
                ScriptOp::Find(k) => {
                    let observed = match self.find(k) {
                        Some(v) => Some(*v),
                        None => None,
                    };
                    proof {
                        assert(observed == find_spec(pre, k));
                        assert(out@.push(observed) + script_finds(pre, tail.drop_first(), pol)
                            =~= out@ + (seq![find_spec(pre, k)] + script_finds(
                            pre,
                            tail.drop_first(),
                            pol,
                        )));
                    }
                    out.push(observed);
                },
            }
            i = i + 1;
        }
        proof {
            assert(ops@.skip(ops@.len() as int) =~= Seq::<ScriptOp>::empty());
            assert(out@ + Seq::<Option<u64>>::empty() =~= out@);
        }
        out
    }
}

/// Cross-backend equivalence law: a script that never inserts a live key
/// makes every backend, whatever its duplicate policy, observe identical find
/// results at every observation point from identical starting state — and
/// leaves identical table state.
pub proof fn lemma_cross_backend_equivalence(
    m: Map<u64, u64>,
    ops: Seq<ScriptOp>,
    p1: bool,
    p2: bool,
)
    requires
        duplicate_free(m, ops),
    ensures
        script_finds(m, ops, p1) == script_finds(m, ops, p2),
        script_state(m, ops, p1) == script_state(m, ops, p2),
    decreases ops.len(),
{
    if ops.len() > 0 {
        let rest = ops.drop_first();
        match ops.first() {
            ScriptOp::Insert(k, v) => {
                assert(insert_spec(m, k, v, p1) == m.insert(k, v));
                assert(insert_spec(m, k, v, p2) == m.insert(k, v));
                lemma_cross_backend_equivalence(m.insert(k, v), rest, p1, p2);
            },
            ScriptOp::Delete(k) => {
                lemma_cross_backend_equivalence(m.remove(k), rest, p1, p2);
            },
            ScriptOp::Clear => {
                lemma_cross_backend_equivalence(Map::empty(), rest, p1, p2);
            },
            ScriptOp::Find(_) => {
                lemma_cross_backend_equivalence(m, rest, p1, p2);
            },
        }
    }
}

} // verus!
