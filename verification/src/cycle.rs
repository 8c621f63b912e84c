//! Cycles among the contracts: when no build order exists.

use crate::compile::{
    build_order, build_order_from, deps_met, has_name, is_build_order, lemma_build_order,
    lemma_sweep_keeps, lemma_sweep_len, sweep, GeneratedContract,
};
use vstd::prelude::*;

verus! {

/// Whether the contract at `i` deploys the contract at `j`.
pub open spec fn deploys(contracts: Seq<GeneratedContract>, i: int, j: int) -> bool {
    &&& 0 <= i < contracts.len()
    &&& 0 <= j < contracts.len()
    &&& exists|d: int|
        0 <= d < contracts[i].deps@.len() && (#[trigger] contracts[i].deps@[d])@
            == contracts[j].name@
}

/// Whether `path` walks from contract to deployed contract and ends on a
/// contract that deploys the first one.
pub open spec fn is_cycle(contracts: Seq<GeneratedContract>, path: Seq<int>) -> bool {
    &&& path.len() > 0
    &&& forall|k: int| 0 <= k < path.len() - 1 ==> deploys(contracts, #[trigger] path[k], path[k + 1])
    &&& deploys(contracts, path.last(), path[0])
}

/// Whether some contracts deploy each other in a circle.
pub open spec fn has_cycle(contracts: Seq<GeneratedContract>) -> bool {
    exists|path: Seq<int>| is_cycle(contracts, path)
}

/// Whether no two contracts bear the same package name.
pub open spec fn names_distinct(contracts: Seq<GeneratedContract>) -> bool {
    forall|i: int, j: int|
        0 <= i < j < contracts.len() ==> (#[trigger] contracts[i]).name@ != (
        #[trigger] contracts[j]).name@
}

/// Whether every deployed package name is that of one of the contracts.
pub open spec fn deps_known(contracts: Seq<GeneratedContract>) -> bool {
    forall|i: int, d: int|
        0 <= i < contracts.len() && 0 <= d < contracts[i].deps@.len() ==> has_name(
            contracts,
            (#[trigger] contracts[i].deps@[d])@,
        )
}

/// The place of the first dependency of `contract` at or after `from` that
/// is the name of none of `contracts`; the number of its dependencies where
/// there is none.
pub open spec fn unknown_position(
    contracts: Seq<GeneratedContract>,
    contract: GeneratedContract,
    from: int,
) -> int
    decreases contract.deps@.len() - from,
{
    if from < 0 || from >= contract.deps@.len() {
        contract.deps@.len() as int
    } else if !has_name(contracts, contract.deps@[from]@) {
        from
    } else {
        unknown_position(contracts, contract, from + 1)
    }
}

/// The place of the first of `contracts` at or after `from` that deploys
/// what is the name of none of them; their number where there is none.
pub open spec fn unresolved_position(contracts: Seq<GeneratedContract>, from: int) -> int
    decreases contracts.len() - from,
{
    if from < 0 || from >= contracts.len() {
        contracts.len() as int
    } else if unknown_position(contracts, contracts[from], 0) < contracts[from].deps@.len() {
        from
    } else {
        unresolved_position(contracts, from + 1)
    }
}

/// The first dependency, in the order of the contracts and of their
/// dependencies, that is the name of none of the contracts.
pub open spec fn missing_dependency(contracts: Seq<GeneratedContract>) -> Option<Seq<char>> {
    let at = unresolved_position(contracts, 0);
    if at < contracts.len() {
        Some(contracts[at].deps@[unknown_position(contracts, contracts[at], 0)]@)
    } else {
        None
    }
}

/// Contracts of which one deploys what is the name of none of them have no
/// build order.
pub proof fn lemma_unknown_blocks(contracts: Seq<GeneratedContract>, at: int, dep: int)
    requires
        0 <= at < contracts.len(),
        0 <= dep < contracts[at].deps@.len(),
        !has_name(contracts, contracts[at].deps@[dep]@),
    ensures
        !exists|order: Seq<GeneratedContract>| is_build_order(order, contracts),
        build_order(contracts) is None,
{
    broadcast use vstd::seq_lib::to_multiset_contains;

    let c = contracts[at];
    assert forall|order: Seq<GeneratedContract>| !is_build_order(order, contracts) by {
        if is_build_order(order, contracts) {
            assert(contracts.contains(c));
            assert(order.to_multiset().count(c) > 0);
            assert(order.contains(c));
            let p = choose|p: int| 0 <= p < order.len() && order[p] == c;
            assert(deps_met(order.take(p), order[p]));
            assert(has_name(order.take(p), c.deps@[dep]@));
            let m = choose|m: int|
                0 <= m < order.take(p).len() && (#[trigger] order.take(p)[m]).name@
                    == c.deps@[dep]@;
            let found = order[m];
            assert(order.take(p)[m] == found);
            assert(order.contains(found));
            assert(order.to_multiset().count(found) > 0);
            assert(contracts.contains(found));
            let k = choose|k: int| 0 <= k < contracts.len() && contracts[k] == found;
            assert(contracts[k].name@ == c.deps@[dep]@);
        }
    }
    lemma_build_order(contracts);
}

/// In a build order of contracts with distinct names, whatever a contract
/// deploys stands before each place where the contract stands.
proof fn lemma_edge_precedes(
    contracts: Seq<GeneratedContract>,
    order: Seq<GeneratedContract>,
    i: int,
    j: int,
    a: int,
) -> (b: int)
    requires
        names_distinct(contracts),
        is_build_order(order, contracts),
        deploys(contracts, i, j),
        0 <= a < order.len(),
        order[a] == contracts[i],
    ensures
        0 <= b < a,
        order[b] == contracts[j],
{
    broadcast use vstd::seq_lib::to_multiset_contains;

    let d = choose|d: int|
        0 <= d < contracts[i].deps@.len() && (#[trigger] contracts[i].deps@[d])@
            == contracts[j].name@;
    assert(deps_met(order.take(a), order[a]));
    assert(has_name(order.take(a), order[a].deps@[d]@));
    let b = choose|b: int|
        0 <= b < order.take(a).len() && (#[trigger] order.take(a)[b]).name@
            == contracts[j].name@;
    assert(order.take(a)[b] == order[b]);
    assert(order.contains(order[b]));
    assert(order.to_multiset().count(order[b]) > 0);
    assert(contracts.contains(order[b]));
    let k = choose|k: int| 0 <= k < contracts.len() && contracts[k] == order[b];
    if k < j {
        assert(contracts[k].name@ != contracts[j].name@);
    } else if j < k {
        assert(contracts[j].name@ != contracts[k].name@);
    }
    b
}

/// Along a cycle, the contract `k` steps on stands at least `k` places before
/// the one that the cycle starts with.
proof fn lemma_path_precedes(
    contracts: Seq<GeneratedContract>,
    order: Seq<GeneratedContract>,
    path: Seq<int>,
    k: int,
    a: int,
) -> (b: int)
    requires
        names_distinct(contracts),
        is_build_order(order, contracts),
        is_cycle(contracts, path),
        0 <= k < path.len(),
        0 <= a < order.len(),
        order[a] == contracts[path[0]],
    ensures
        0 <= b <= a - k,
        order[b] == contracts[path[k]],
    decreases k,
{
    if k == 0 {
        a
    } else {
        let before = lemma_path_precedes(contracts, order, path, k - 1, a);
        assert(deploys(contracts, path[k - 1], path[k - 1 + 1]));
        lemma_edge_precedes(contracts, order, path[k - 1], path[k], before)
    }
}

/// A contract on a cycle has no place in a build order.
proof fn lemma_no_place(
    contracts: Seq<GeneratedContract>,
    order: Seq<GeneratedContract>,
    path: Seq<int>,
    a: int,
)
    requires
        names_distinct(contracts),
        is_build_order(order, contracts),
        is_cycle(contracts, path),
        0 <= a < order.len(),
    ensures
        order[a] != contracts[path[0]],
    decreases a,
{
    if order[a] == contracts[path[0]] {
        let b = lemma_path_precedes(contracts, order, path, path.len() - 1, a);
        let again = lemma_edge_precedes(contracts, order, path.last(), path[0], b);
        lemma_no_place(contracts, order, path, again);
    }
}

/// Contracts with distinct names that deploy each other in a circle have no build order.
pub proof fn lemma_cycle_blocks(contracts: Seq<GeneratedContract>)
    requires
        names_distinct(contracts),
        has_cycle(contracts),
    ensures
        build_order(contracts) is None,
{
    broadcast use vstd::seq_lib::to_multiset_contains;

    lemma_build_order(contracts);
    if let Some(order) = build_order(contracts) {
        let path = choose|path: Seq<int>| is_cycle(contracts, path);
        let first = contracts[path[0]];
        assert(contracts.contains(first));
        assert(order.to_multiset().count(first) > 0);
        assert(order.contains(first));
        let a = choose|a: int| 0 <= a < order.len() && order[a] == first;
        lemma_no_place(contracts, order, path, a);
    }
}

/// Whether nothing of `pending` can be placed after `placed`, the two together
/// being the contracts.
spec fn stuck(
    contracts: Seq<GeneratedContract>,
    placed: Seq<GeneratedContract>,
    pending: Seq<GeneratedContract>,
) -> bool {
    &&& deps_known(contracts)
    &&& placed.to_multiset().add(pending.to_multiset()) == contracts.to_multiset()
    &&& forall|i: int| 0 <= i < pending.len() ==> !deps_met(placed, #[trigger] pending[i])
}

/// Whether the contract at `i` is among `pending`.
spec fn blocked(contracts: Seq<GeneratedContract>, pending: Seq<GeneratedContract>, i: int) -> bool {
    0 <= i < contracts.len() && pending.contains(contracts[i])
}

/// A contract that cannot be placed deploys another one that cannot be placed.
proof fn lemma_blocked_step(
    contracts: Seq<GeneratedContract>,
    placed: Seq<GeneratedContract>,
    pending: Seq<GeneratedContract>,
    i: int,
) -> (j: int)
    requires
        stuck(contracts, placed, pending),
        blocked(contracts, pending, i),
    ensures
        blocked(contracts, pending, j),
        deploys(contracts, i, j),
{
    broadcast use {vstd::seq_lib::to_multiset_contains, vstd::multiset::group_multiset_axioms};

    let c = contracts[i];
    let m = choose|m: int| 0 <= m < pending.len() && pending[m] == c;
    assert(!deps_met(placed, pending[m]));
    let d = choose|d: int| 0 <= d < c.deps@.len() && !has_name(placed, (#[trigger] c.deps@[d])@);
    assert(has_name(contracts, contracts[i].deps@[d]@));
    let j = choose|j: int|
        0 <= j < contracts.len() && (#[trigger] contracts[j]).name@ == c.deps@[d]@;
    let t = contracts[j];
    assert(contracts.contains(t));
    assert(contracts.to_multiset().count(t) > 0);
    assert(placed.to_multiset().count(t) > 0 || pending.to_multiset().count(t) > 0);
    if placed.contains(t) {
        let q = choose|q: int| 0 <= q < placed.len() && placed[q] == t;
        assert(placed[q].name@ == c.deps@[d]@);
        assert(has_name(placed, c.deps@[d]@));
    }
    assert(pending.contains(t));
    j
}

/// From a contract that cannot be placed, a walk of any length leads along
/// deployments through contracts that cannot be placed.
proof fn lemma_blocked_walk(
    contracts: Seq<GeneratedContract>,
    placed: Seq<GeneratedContract>,
    pending: Seq<GeneratedContract>,
    start: int,
    steps: nat,
) -> (walk: Seq<int>)
    requires
        stuck(contracts, placed, pending),
        blocked(contracts, pending, start),
    ensures
        walk.len() == steps + 1,
        forall|k: int| 0 <= k < walk.len() ==> blocked(contracts, pending, #[trigger] walk[k]),
        forall|k: int| 0 <= k < steps ==> deploys(contracts, #[trigger] walk[k], walk[k + 1]),
    decreases steps,
{
    if steps == 0 {
        seq![start]
    } else {
        let shorter = lemma_blocked_walk(contracts, placed, pending, start, (steps - 1) as nat);
        let next = lemma_blocked_step(contracts, placed, pending, shorter.last());
        let walk = shorter.push(next);
        assert forall|k: int| 0 <= k < steps implies deploys(
            contracts,
            #[trigger] walk[k],
            walk[k + 1],
        ) by {
            if k < steps - 1 {
                assert(walk[k] == shorter[k]);
                assert(walk[k + 1] == shorter[k + 1]);
            }
        }
        walk
    }
}

/// More numbers than `bound`, all of them under `bound`: two are equal.
proof fn lemma_repeat(numbers: Seq<int>, bound: nat) -> (pair: (int, int))
    requires
        numbers.len() > bound,
        forall|k: int| 0 <= k < numbers.len() ==> 0 <= #[trigger] numbers[k] < bound,
    ensures
        0 <= pair.0 < pair.1 < numbers.len(),
        numbers[pair.0] == numbers[pair.1],
{
    if numbers.no_duplicates() {
        numbers.unique_seq_to_set();
        vstd::set_lib::lemma_int_range(0, bound as int);
        assert(numbers.to_set().subset_of(vstd::set_lib::set_int_range(0, bound as int))) by {
            assert forall|v: int| numbers.to_set().contains(v) implies vstd::set_lib::set_int_range(
                0,
                bound as int,
            ).contains(v) by {
                let k = choose|k: int| 0 <= k < numbers.len() && numbers[k] == v;
                assert(0 <= numbers[k] < bound);
            }
        }
        vstd::set_lib::lemma_len_subset(
            numbers.to_set(),
            vstd::set_lib::set_int_range(0, bound as int),
        );
        assert(false);
    }
    let (i, j) = choose|i: int, j: int|
        0 <= i < numbers.len() && 0 <= j < numbers.len() && i != j && numbers[i] == numbers[j];
    if i < j {
        (i, j)
    } else {
        (j, i)
    }
}

/// Where nothing pending can be placed, some contracts deploy each other in a circle.
proof fn lemma_stuck_has_cycle(
    contracts: Seq<GeneratedContract>,
    placed: Seq<GeneratedContract>,
    pending: Seq<GeneratedContract>,
)
    requires
        stuck(contracts, placed, pending),
        pending.len() > 0,
    ensures
        has_cycle(contracts),
{
    broadcast use {vstd::seq_lib::to_multiset_contains, vstd::multiset::group_multiset_axioms};

    let c = pending[0];
    assert(pending.contains(c));
    assert(contracts.to_multiset().count(c) > 0);
    assert(contracts.contains(c));
    let start = choose|i: int| 0 <= i < contracts.len() && contracts[i] == c;
    let walk = lemma_blocked_walk(contracts, placed, pending, start, contracts.len());
    let (a, b) = lemma_repeat(walk, contracts.len());
    let path = walk.subrange(a, b);
    assert forall|k: int| 0 <= k < path.len() - 1 implies deploys(
        contracts,
        #[trigger] path[k],
        path[k + 1],
    ) by {
        assert(deploys(contracts, walk[a + k], walk[a + k + 1]));
    }
    assert(deploys(contracts, walk[b - 1], walk[b - 1 + 1]));
    assert(path.last() == walk[b - 1]);
    assert(is_cycle(contracts, path));
}

/// Where repeated walks find no order, some contracts deploy each other in a circle.
proof fn lemma_none_has_cycle(
    contracts: Seq<GeneratedContract>,
    placed: Seq<GeneratedContract>,
    pending: Seq<GeneratedContract>,
)
    requires
        deps_known(contracts),
        placed.to_multiset().add(pending.to_multiset()) == contracts.to_multiset(),
        build_order_from(placed, pending) is None,
    ensures
        has_cycle(contracts),
    decreases pending.len(),
{
    let (p, d) = sweep(placed, pending);
    lemma_sweep_keeps(placed, pending);
    lemma_sweep_len(placed, pending);
    if d.len() >= pending.len() {
        lemma_stuck_has_cycle(contracts, placed, pending);
    } else {
        lemma_none_has_cycle(contracts, p, d);
    }
}

/// Contracts that deploy only each other and have no build order deploy
/// each other in a circle.
pub proof fn lemma_no_order_has_cycle(contracts: Seq<GeneratedContract>)
    requires
        deps_known(contracts),
        build_order(contracts) is None,
    ensures
        has_cycle(contracts),
{
    broadcast use vstd::multiset::group_multiset_axioms;

    let none = Seq::<GeneratedContract>::empty();
    none.to_multiset_ensures();
    assert(none.to_multiset().add(contracts.to_multiset()) =~= contracts.to_multiset());
    lemma_none_has_cycle(contracts, none, contracts);
}

/// Contracts with distinct names that deploy only each other have a build
/// order exactly if none of them deploy each other in a circle.
pub proof fn lemma_no_order_iff_cycle(contracts: Seq<GeneratedContract>)
    requires
        names_distinct(contracts),
        deps_known(contracts),
    ensures
        build_order(contracts) is None <==> has_cycle(contracts),
{
    if has_cycle(contracts) {
        lemma_cycle_blocks(contracts);
    }
    if build_order(contracts) is None {
        lemma_no_order_has_cycle(contracts);
    }
}

} // verus!
