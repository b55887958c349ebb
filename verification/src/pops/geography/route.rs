//! Connectivity of the trade network.
//!
//! A route is an undirected edge between two settlements; these functions
//! read a network through the end points of its routes, in route order.

use vstd::prelude::*;

use crate::pops::types::ids::SettlementId;

verus! {

/// Whether the edge `from`–`to` joins `a` and `b`, in either direction.
pub open spec fn joins(from: SettlementId, to: SettlementId, a: SettlementId, b: SettlementId) -> bool {
    (from == a && to == b) || (from == b && to == a)
}

/// Check if a route from `from` to `to` connects the given settlements (in either direction)
pub fn connects(from: SettlementId, to: SettlementId, a: SettlementId, b: SettlementId) -> (r: bool)
    ensures
        r == joins(from, to, a, b),
{
    (from == a && to == b) || (from == b && to == a)
}

/// The settlement at the other end of `edge` from `id`, if `edge` touches `id`
/// (a route whose `from` is `id` gives its `to`).
pub open spec fn other_end(edge: (SettlementId, SettlementId), id: SettlementId) -> Option<SettlementId> {
    if edge.0 == id {
        Some(edge.1)
    } else if edge.1 == id {
        Some(edge.0)
    } else {
        None
    }
}

/// The settlements reachable from `id` over one route, one per route, in route order.
pub open spec fn neighbours(routes: Seq<(SettlementId, SettlementId)>, id: SettlementId) -> Seq<SettlementId>
    decreases routes.len(),
{
    if routes.len() == 0 {
        Seq::empty()
    } else {
        let rest = neighbours(routes.drop_last(), id);
        match other_end(routes.last(), id) {
            Some(n) => rest.push(n),
            None => rest,
        }
    }
}

/// Find a route between two settlements: the index of the first route that joins them.
pub fn find_route(routes: &[(SettlementId, SettlementId)], from: SettlementId, to: SettlementId) -> (r: Option<usize>)
    ensures
        match r {
            Some(i) => i < routes@.len() && joins(routes@[i as int].0, routes@[i as int].1, from, to)
                && forall|j: int| 0 <= j < i ==> !joins(#[trigger] routes@[j].0, routes@[j].1, from, to),
            None => forall|j: int| 0 <= j < routes@.len() ==> !joins(#[trigger] routes@[j].0, routes@[j].1, from, to),
        },
{
    let n = routes.len();
    for i in 0..n
        invariant
            n == routes@.len(),
            forall|j: int| 0 <= j < i ==> !joins(#[trigger] routes@[j].0, routes@[j].1, from, to),
    {
        let (a, b) = routes[i];
        if connects(a, b, from, to) {
            return Some(i);
        }
    }
    None
}

/// Get all settlements connected to a given settlement
pub fn connected_settlements(routes: &[(SettlementId, SettlementId)], settlement_id: SettlementId) -> (r: Vec<SettlementId>)
    ensures
        r@ == neighbours(routes@, settlement_id),
{
    let mut out: Vec<SettlementId> = Vec::new();
    let n = routes.len();
    for i in 0..n
        invariant
            n == routes@.len(),
            out@ == neighbours(routes@.take(i as int), settlement_id),
    {
        let (a, b) = routes[i];
        proof {
            assert(routes@.take(i + 1).drop_last() =~= routes@.take(i as int));
            assert(routes@.take(i + 1).last() == routes@[i as int]);
        }
        if a == settlement_id {
            out.push(b);
        } else if b == settlement_id {
            out.push(a);
        }
    }
    assert(routes@.take(n as int) =~= routes@);
    out
}

/// Some route joins `a` and `b`.
pub open spec fn linked(routes: Seq<(SettlementId, SettlementId)>, a: SettlementId, b: SettlementId) -> bool {
    exists|i: int| 0 <= i < routes.len() && joins(#[trigger] routes[i].0, routes[i].1, a, b)
}

/// A route between `a` and `b` is found exactly when `b` is among the
/// settlements connected to `a`.
pub proof fn lemma_route_found_iff_connected(routes: Seq<(SettlementId, SettlementId)>, a: SettlementId, b: SettlementId)
    ensures
        linked(routes, a, b) <==> neighbours(routes, a).contains(b),
    decreases routes.len(),
{
    if routes.len() > 0 {
        let init = routes.drop_last();
        lemma_route_found_iff_connected(init, a, b);
        let rest = neighbours(init, a);
        let e = routes.last();
        let last = routes.len() - 1;
        assert(routes[last] == e);
        match other_end(e, a) {
            Some(n) => assert(neighbours(routes, a) == rest.push(n)),
            None => assert(neighbours(routes, a) == rest),
        }
        if linked(routes, a, b) {
            let i = choose|i: int| 0 <= i < routes.len() && joins(#[trigger] routes[i].0, routes[i].1, a, b);
            if i < last {
                assert(init[i] == routes[i]);
                assert(linked(init, a, b));
                let k = choose|k: int| 0 <= k < rest.len() && rest[k] == b;
                assert(neighbours(routes, a)[k] == b);
            } else {
                assert(other_end(e, a) == Some(b));
                assert(neighbours(routes, a).last() == b);
            }
        }
        if neighbours(routes, a).contains(b) {
            if rest.contains(b) {
                let i = choose|i: int| 0 <= i < init.len() && joins(#[trigger] init[i].0, init[i].1, a, b);
                assert(routes[i] == init[i]);
            } else {
                let k = choose|k: int| 0 <= k < neighbours(routes, a).len() && neighbours(routes, a)[k] == b;
                assert(k == rest.len());
                assert(other_end(e, a) == Some(b));
                assert(joins(routes[last].0, routes[last].1, a, b));
            }
        }
    }
}

/// Routes are undirected: `b` is a neighbour of `a` exactly when `a` is a
/// neighbour of `b`, and a route found from `a` to `b` is the one found from
/// `b` to `a`.
pub proof fn lemma_connectivity_symmetric(routes: Seq<(SettlementId, SettlementId)>, a: SettlementId, b: SettlementId)
    ensures
        neighbours(routes, a).contains(b) <==> neighbours(routes, b).contains(a),
        forall|i: int| 0 <= i < routes.len() ==>
            (joins(#[trigger] routes[i].0, routes[i].1, a, b) <==> joins(routes[i].0, routes[i].1, b, a)),
    decreases routes.len(),
{
    if routes.len() > 0 {
        lemma_connectivity_symmetric(routes.drop_last(), a, b);
        let rest_a = neighbours(routes.drop_last(), a);
        let rest_b = neighbours(routes.drop_last(), b);
        match other_end(routes.last(), a) {
            Some(n) => assert(neighbours(routes, a) == rest_a.push(n)),
            None => {},
        }
        match other_end(routes.last(), b) {
            Some(n) => assert(neighbours(routes, b) == rest_b.push(n)),
            None => {},
        }
        if neighbours(routes, a).contains(b) && !rest_a.contains(b) {
            let k = choose|k: int| 0 <= k < neighbours(routes, a).len() && neighbours(routes, a)[k] == b;
            assert(k == rest_a.len());
            assert(neighbours(routes, b).last() == a);
        }
        if neighbours(routes, b).contains(a) && !rest_b.contains(a) {
            let k = choose|k: int| 0 <= k < neighbours(routes, b).len() && neighbours(routes, b)[k] == a;
            assert(k == rest_b.len());
            assert(neighbours(routes, a).last() == b);
        }
        if rest_a.contains(b) {
            let k = choose|k: int| 0 <= k < rest_a.len() && rest_a[k] == b;
            assert(neighbours(routes, a)[k] == b);
        }
        if rest_b.contains(a) {
            let k = choose|k: int| 0 <= k < rest_b.len() && rest_b[k] == a;
            assert(neighbours(routes, b)[k] == a);
        }
    }
}

} // verus!
