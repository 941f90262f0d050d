//! Checking that a node list is a forest, and deriving each node's parent
//! and depth along the way.
use vstd::prelude::*;
use crate::document::{
    Node, acyclic, child_at, children_in_range, is_child, is_depth_assignment, is_slot,
    unique_parents,
};

verus! {

/// Entry `(q, k)` comes before entry `(p, j)` when child lists are read node
/// by node.
spec fn slot_before(q: int, k: int, p: int, j: int) -> bool {
    q < p || (q == p && k < j)
}

/// `parents` records, for every node, the node whose child list names it.
pub open spec fn parents_describe(nodes: Seq<Node>, parents: Seq<Option<usize>>) -> bool {
    &&& parents.len() == nodes.len()
    &&& forall|child: int|
        0 <= child < nodes.len() ==> (#[trigger] parents[child] matches Some(parent) ==> is_child(
            nodes,
            parent as int,
            child,
        ))
    &&& forall|parent: int, slot: int|
        is_slot(nodes, parent, slot) ==> parents[#[trigger] child_at(nodes, parent, slot)] == Some(
            parent as usize,
        )
}

/// `depths` grows by exactly one from every parent to each of its children
/// and stays below the number of nodes.
pub open spec fn depths_describe(nodes: Seq<Node>, depths: Seq<usize>) -> bool {
    &&& depths.len() == nodes.len()
    &&& forall|node: int| 0 <= node < nodes.len() ==> #[trigger] depths[node] < nodes.len()
    &&& forall|parent: int, slot: int|
        is_slot(nodes, parent, slot) ==> depths[#[trigger] child_at(nodes, parent, slot)]
            == depths[parent] + 1
}

/// Depths that grow by one along every edge witness that the nodes are
/// acyclic.
pub proof fn lemma_depths_witness_acyclic(nodes: Seq<Node>, depths: Seq<usize>)
    requires
        children_in_range(nodes),
        depths_describe(nodes, depths),
    ensures
        acyclic(nodes),
{
    let witness = Seq::new(nodes.len(), |i: int| depths[i] as nat);
    assert(is_depth_assignment(nodes, witness));
}

/// Records the parent of every node, or reports that some node is named by
/// two entries of child lists.
pub(crate) fn build_parents(nodes: &Vec<Node>) -> (result: Option<Vec<Option<usize>>>)
    requires
        children_in_range(nodes@),
    ensures
        match result {
            Some(parents) => unique_parents(nodes@) && parents_describe(nodes@, parents@),
            None => !unique_parents(nodes@),
        },
{
    let n = nodes.len();
    let mut parents: Vec<Option<usize>> = Vec::new();
    let mut i: usize = 0;
    while i < n
        invariant
            i <= n,
            parents@.len() == i,
            forall|c: int| 0 <= c < i ==> #[trigger] parents@[c] is None,
        decreases n - i,
    {
        parents.push(None);
        i += 1;
    }
    let mut p: usize = 0;
    while p < n
        invariant
            n == nodes@.len(),
            p <= n,
            children_in_range(nodes@),
            parents@.len() == n,
            forall|c: int|
                0 <= c < n ==> (#[trigger] parents@[c] matches Some(q) ==> q < p && is_child(
                    nodes@,
                    q as int,
                    c,
                )),
            forall|q: int, k: int|
                is_slot(nodes@, q, k) && q < p ==> parents@[#[trigger] child_at(nodes@, q, k)]
                    == Some(q as usize),
            forall|q: int, k: int, r: int, l: int|
                is_slot(nodes@, q, k) && is_slot(nodes@, r, l) && q < p && r < p
                    && #[trigger] child_at(nodes@, q, k) == #[trigger] child_at(nodes@, r, l)
                    ==> q == r && k == l,
        decreases n - p,
    {
        let children = &nodes[p].children;
        let mut j: usize = 0;
        while j < children.len()
            invariant
                n == nodes@.len(),
                p < n,
                children@ == nodes@[p as int].children@,
                j <= children@.len(),
                children_in_range(nodes@),
                parents@.len() == n,
                forall|c: int|
                    0 <= c < n ==> (#[trigger] parents@[c] matches Some(q) ==> q <= p && exists|
                        k: int,
                    |
                        is_slot(nodes@, q as int, k) && slot_before(q as int, k, p as int, j as int)
                            && #[trigger] child_at(nodes@, q as int, k) == c),
                forall|q: int, k: int|
                    is_slot(nodes@, q, k) && slot_before(q, k, p as int, j as int)
                        ==> parents@[#[trigger] child_at(nodes@, q, k)] == Some(q as usize),
                forall|q: int, k: int, r: int, l: int|
                    is_slot(nodes@, q, k) && is_slot(nodes@, r, l) && slot_before(
                        q,
                        k,
                        p as int,
                        j as int,
                    ) && slot_before(r, l, p as int, j as int) && #[trigger] child_at(nodes@, q, k)
                        == #[trigger] child_at(nodes@, r, l) ==> q == r && k == l,
            decreases children@.len() - j,
        {
            let c = children[j];
            assert(c == child_at(nodes@, p as int, j as int));
            match parents[c] {
                Some(q) => {
                    return None;
                },
                None => {},
            }
            parents[c] = Some(p);
            proof {
                assert forall|d: int| 0 <= d < n implies (#[trigger] parents@[d] matches Some(
                    q,
                ) ==> q <= p && exists|k: int|
                    is_slot(nodes@, q as int, k) && slot_before(
                        q as int,
                        k,
                        p as int,
                        j as int + 1,
                    ) && #[trigger] child_at(nodes@, q as int, k) == d) by {}
            }
            j += 1;
        }
        p += 1;
    }
    Some(parents)
}

/// `x` is one of the entries of `stack`.
spec fn on_stack(stack: Seq<usize>, x: int) -> bool {
    exists|a: int| 0 <= a < stack.len() && #[trigger] stack[a] == x
}

/// Every unvisited node has an unvisited parent.
spec fn unvisited_closed(parents: Seq<Option<usize>>, visited: Seq<bool>) -> bool {
    forall|node: int|
        0 <= node < visited.len() && !#[trigger] visited[node] ==> (parents[node] matches Some(
            parent,
        ) && parent < visited.len() && !visited[parent as int])
}

/// A set of nodes in which every node has its parent in the set cannot be
/// layered: following parents from any member would descend forever.
proof fn lemma_unvisited_never_layered(
    nodes: Seq<Node>,
    parents: Seq<Option<usize>>,
    visited: Seq<bool>,
    depths: Seq<nat>,
    node: int,
)
    requires
        parents_describe(nodes, parents),
        visited.len() == nodes.len(),
        unvisited_closed(parents, visited),
        0 <= node < nodes.len(),
        !visited[node],
    ensures
        !is_depth_assignment(nodes, depths),
    decreases depths[node],
{
    if is_depth_assignment(nodes, depths) {
        let parent = parents[node]->0 as int;
        lemma_unvisited_never_layered(nodes, parents, visited, depths, parent);
    }
}

/// When a search from the parentless nodes has stalled with `node` still
/// unvisited, the child lists contain a cycle.
proof fn lemma_stalled_search_finds_cycle(
    nodes: Seq<Node>,
    parents: Seq<Option<usize>>,
    visited: Seq<bool>,
    node: int,
)
    requires
        parents_describe(nodes, parents),
        visited.len() == nodes.len(),
        forall|c: int| 0 <= c < nodes.len() && parents[c] is None ==> #[trigger] visited[c],
        forall|p: int, k: int|
            is_slot(nodes, p, k) && visited[p] ==> visited[#[trigger] child_at(nodes, p, k)],
        0 <= node < nodes.len(),
        !visited[node],
    ensures
        !acyclic(nodes),
{
    if acyclic(nodes) {
        let layers = choose|layers: Seq<nat>| is_depth_assignment(nodes, layers);
        lemma_unvisited_never_layered(nodes, parents, visited, layers, node);
    }
}

/// Assigns every node its depth below the root of its tree, or reports that
/// the child lists contain a cycle.
pub(crate) fn compute_depths(nodes: &Vec<Node>, parents: &Vec<Option<usize>>) -> (result: Option<
    Vec<usize>,
>)
    requires
        children_in_range(nodes@),
        unique_parents(nodes@),
        parents_describe(nodes@, parents@),
    ensures
        match result {
            Some(depths) => depths_describe(nodes@, depths@),
            None => !acyclic(nodes@),
        },
{
    let n = nodes.len();
    let mut visited: Vec<bool> = Vec::new();
    let mut depths: Vec<usize> = Vec::new();
    let mut stack: Vec<usize> = Vec::new();
    let ghost mut unvisited: Set<int> = Set::empty();
    let ghost mut visited_count: nat = 0;
    let mut i: usize = 0;
    while i < n
        invariant
            n == nodes@.len(),
            parents@.len() == n,
            i <= n,
            visited@.len() == i,
            depths@.len() == i,
            unvisited.finite(),
            unvisited.len() + visited_count == i,
            forall|c: int| unvisited.contains(c) <==> 0 <= c < i && !visited@[c],
            forall|c: int| 0 <= c < i ==> (#[trigger] visited@[c] <==> parents@[c] is None),
            forall|c: int| 0 <= c < i && #[trigger] visited@[c] ==> depths@[c] < visited_count,
            forall|c: int| 0 <= c < i && #[trigger] visited@[c] ==> on_stack(stack@, c),
            forall|a: int|
                0 <= a < stack@.len() ==> #[trigger] stack@[a] < i && visited@[stack@[a] as int],
            forall|a: int, b: int|
                0 <= a < b < stack@.len() ==> #[trigger] stack@[a] != #[trigger] stack@[b],
        decreases n - i,
    {
        let is_root = parents[i].is_none();
        let ghost old_stack = stack@;
        visited.push(is_root);
        depths.push(0);
        if is_root {
            stack.push(i);
            proof {
                visited_count = visited_count + 1;
                assert(stack@[stack@.len() - 1] == i);
                assert forall|c: int| 0 <= c < i + 1 && #[trigger] visited@[c] implies on_stack(
                    stack@,
                    c,
                ) by {
                    if c < i {
                        let a = choose|a: int| 0 <= a < old_stack.len() && #[trigger] old_stack[a] == c;
                        assert(stack@[a] == c);
                    }
                }
            }
        } else {
            proof {
                unvisited = unvisited.insert(i as int);
            }
        }
        i += 1;
    }
    let ghost mut done: Set<int> = Set::empty();
    while stack.len() > 0
        invariant
            n == nodes@.len(),
            parents@.len() == n,
            visited@.len() == n,
            depths@.len() == n,
            children_in_range(nodes@),
            unique_parents(nodes@),
            parents_describe(nodes@, parents@),
            unvisited.finite(),
            unvisited.len() + visited_count == n,
            forall|c: int| unvisited.contains(c) <==> 0 <= c < n && !visited@[c],
            forall|c: int| 0 <= c < n && parents@[c] is None ==> #[trigger] visited@[c],
            forall|c: int| 0 <= c < n && #[trigger] visited@[c] ==> depths@[c] < visited_count,
            forall|c: int|
                0 <= c < n && #[trigger] visited@[c] ==> done.contains(c) || on_stack(stack@, c),
            forall|a: int|
                0 <= a < stack@.len() ==> #[trigger] stack@[a] < n && visited@[stack@[a] as int]
                    && !done.contains(stack@[a] as int),
            forall|a: int, b: int|
                0 <= a < b < stack@.len() ==> #[trigger] stack@[a] != #[trigger] stack@[b],
            forall|p: int| done.contains(p) ==> 0 <= p < n && visited@[p],
            forall|p: int, k: int|
                is_slot(nodes@, p, k) && done.contains(p) ==> visited@[#[trigger] child_at(
                    nodes@,
                    p,
                    k,
                )] && depths@[child_at(nodes@, p, k)] == depths@[p] + 1,
            forall|c: int|
                0 <= c < n && #[trigger] visited@[c] ==> (parents@[c] matches Some(q)
                    ==> done.contains(q as int)),
        decreases unvisited.len() + stack@.len(),
    {
        let ghost full_stack = stack@;
        let u = stack.pop().unwrap();
        proof {
            assert forall|c: int| 0 <= c < n && #[trigger] visited@[c] implies done.contains(c)
                || c == u || on_stack(stack@, c) by {
                if !done.contains(c) && c != u {
                    let a = choose|a: int| 0 <= a < full_stack.len() && #[trigger] full_stack[a] == c;
                    assert(stack@[a] == c);
                }
            }
        }
        let ghost measure = unvisited.len() + stack@.len();
        let ghost depth_u = depths@[u as int];
        let children = &nodes[u].children;
        let mut k: usize = 0;
        while k < children.len()
            invariant
                n == nodes@.len(),
                parents@.len() == n,
                visited@.len() == n,
                depths@.len() == n,
                children_in_range(nodes@),
                unique_parents(nodes@),
                parents_describe(nodes@, parents@),
                u < n,
                visited@[u as int],
                !done.contains(u as int),
                depths@[u as int] == depth_u,
                children@ == nodes@[u as int].children@,
                k <= children@.len(),
                unvisited.finite(),
                unvisited.len() + visited_count == n,
                unvisited.len() + stack@.len() == measure,
                forall|c: int| unvisited.contains(c) <==> 0 <= c < n && !visited@[c],
                forall|c: int| 0 <= c < n && parents@[c] is None ==> #[trigger] visited@[c],
                forall|c: int| 0 <= c < n && #[trigger] visited@[c] ==> depths@[c] < visited_count,
                forall|c: int|
                    0 <= c < n && #[trigger] visited@[c] ==> done.contains(c) || c == u || on_stack(
                        stack@,
                        c,
                    ),
                forall|a: int|
                    0 <= a < stack@.len() ==> #[trigger] stack@[a] < n && visited@[stack@[a] as int]
                        && !done.contains(stack@[a] as int) && stack@[a] != u,
                forall|a: int, b: int|
                    0 <= a < b < stack@.len() ==> #[trigger] stack@[a] != #[trigger] stack@[b],
                forall|p: int| done.contains(p) ==> 0 <= p < n && visited@[p],
                forall|p: int, j: int|
                    is_slot(nodes@, p, j) && done.contains(p) ==> visited@[#[trigger] child_at(
                        nodes@,
                        p,
                        j,
                    )] && depths@[child_at(nodes@, p, j)] == depths@[p] + 1,
                forall|j: int|
                    0 <= j < k ==> visited@[#[trigger] child_at(nodes@, u as int, j)] && depths@[child_at(
                        nodes@,
                        u as int,
                        j,
                    )] == depth_u + 1,
                forall|c: int|
                    0 <= c < n && #[trigger] visited@[c] ==> (parents@[c] matches Some(q)
                        ==> done.contains(q as int) || (q == u && exists|j: int|
                        0 <= j < k && #[trigger] child_at(nodes@, u as int, j) == c)),
            decreases children@.len() - k,
        {
            let c = children[k];
            let ghost old_stack = stack@;
            assert(c == child_at(nodes@, u as int, k as int));
            assert(!visited@[c as int]);
            depths[c] = depths[u] + 1;
            visited[c] = true;
            stack.push(c);
            proof {
                unvisited = unvisited.remove(c as int);
                visited_count = visited_count + 1;
                assert(stack@[stack@.len() - 1] == c);
                assert forall|x: int| 0 <= x < n && #[trigger] visited@[x] implies done.contains(x)
                    || x == u || on_stack(stack@, x) by {
                    if x != c && !done.contains(x) && x != u {
                        let a = choose|a: int|
                            0 <= a < old_stack.len() && #[trigger] old_stack[a] == x;
                        assert(stack@[a] == x);
                    }
                }
            }
            k += 1;
        }
        proof {
            done = done.insert(u as int);
        }
    }
    let mut i: usize = 0;
    while i < n
        invariant
            n == nodes@.len(),
            visited@.len() == n,
            depths@.len() == n,
            parents@.len() == n,
            children_in_range(nodes@),
            parents_describe(nodes@, parents@),
            i <= n,
            forall|c: int| 0 <= c < i ==> #[trigger] visited@[c],
            forall|c: int| 0 <= c < n && parents@[c] is None ==> #[trigger] visited@[c],
            forall|c: int| 0 <= c < n && #[trigger] visited@[c] ==> depths@[c] < n,
            forall|p: int, k: int|
                is_slot(nodes@, p, k) && visited@[p] ==> visited@[#[trigger] child_at(nodes@, p, k)]
                    && depths@[child_at(nodes@, p, k)] == depths@[p] + 1,
        decreases n - i,
    {
        if !visited[i] {
            proof {
                lemma_stalled_search_finds_cycle(nodes@, parents@, visited@, i as int);
            }
            return None;
        }
        i += 1;
    }
    proof {
        assert forall|node: int| 0 <= node < n implies #[trigger] depths@[node] < n by {
            assert(visited@[node]);
        }
    }
    Some(depths)
}

} // verus!
