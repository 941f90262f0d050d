//! Resolving every node's world transform from the node forest.
//!
//! Matrices themselves stay with the caller. A resolved transform says how
//! the caller obtains a node's world matrix from local matrices: it is the
//! identity, the node's own local matrix, or the parent's world matrix
//! multiplied on the right by the node's local matrix.
use vstd::prelude::*;
use crate::document::{
    Node, Scene, SceneDocument, child_at, is_child, is_root_slot, is_scene_root, is_slot, root_at,
};

verus! {

/// How a node's world matrix is obtained.
#[derive(Clone, Copy, Debug, PartialEq, Eq, Structural)]
pub enum WorldTransform {
    /// The identity matrix.
    Identity,
    /// The node's own local matrix.
    Local,
    /// The world matrix of `parent` times the node's local matrix, in that
    /// order.
    Compose { parent: usize },
}

/// `path` walks from node to child along child lists.
pub open spec fn is_path(nodes: Seq<Node>, path: Seq<int>) -> bool {
    &&& path.len() > 0
    &&& forall|step: int|
        0 <= step < path.len() - 1 ==> is_child(nodes, #[trigger] path[step], path[step + 1])
}

/// `node` is `ancestor` itself or lies below it.
pub open spec fn descends(nodes: Seq<Node>, ancestor: int, node: int) -> bool {
    exists|path: Seq<int>|
        #[trigger] is_path(nodes, path) && path[0] == ancestor && path.last() == node
}

/// `node` is a root of some scene or lies below one.
pub open spec fn reachable(nodes: Seq<Node>, scenes: Seq<Scene>, node: int) -> bool {
    exists|scene: int, slot: int|
        is_root_slot(scenes, scene, slot) && descends(
            nodes,
            #[trigger] root_at(scenes, scene, slot),
            node,
        )
}

/// Root entry `(scene, slot)` is read before root entry `(other, other_slot)`
/// when scenes are read in order and each root list front to back.
pub open spec fn root_slot_before(scene: int, slot: int, other: int, other_slot: int) -> bool {
    scene < other || (scene == other && slot < other_slot)
}

/// `node` is listed as a scene root before any root it descends from is
/// listed, so the walk over the scenes meets it first as a root.
pub open spec fn enters_as_root(nodes: Seq<Node>, scenes: Seq<Scene>, node: int) -> bool {
    exists|scene: int, slot: int|
        is_root_slot(scenes, scene, slot) && #[trigger] root_at(scenes, scene, slot) == node
            && forall|earlier: int, earlier_slot: int|
            is_root_slot(scenes, earlier, earlier_slot) && root_slot_before(
                earlier,
                earlier_slot,
                scene,
                slot,
            ) ==> !descends(nodes, #[trigger] root_at(scenes, earlier, earlier_slot), node)
}

/// The world transform of `node`.
///
/// A node that no scene reaches has the identity. A reachable node without
/// a parent has its local matrix. A reachable node with a parent has its
/// parent's world matrix times its local matrix, unless the scenes list it
/// as a root before they list anything above it: then it was resolved as a
/// root and has its local matrix alone.
pub open spec fn world_transform(document: SceneDocument, node: int) -> WorldTransform {
    if !reachable(document.nodes(), document.scenes(), node) {
        WorldTransform::Identity
    } else {
        match document.parents()[node] {
            None => WorldTransform::Local,
            Some(parent) => if enters_as_root(document.nodes(), document.scenes(), node) {
                WorldTransform::Local
            } else {
                WorldTransform::Compose { parent }
            },
        }
    }
}

/// The world transform of every node, indexed by node index.
pub open spec fn world_transforms(document: SceneDocument) -> Seq<WorldTransform> {
    Seq::new(document.nodes().len(), |node: int| world_transform(document, node))
}

/// The nodes whose local matrices are multiplied, left to right, to give the
/// world matrix of `node`; empty for the identity.
pub open spec fn chain(document: SceneDocument, node: int) -> Seq<usize>
    decreases document.depths()[node],
    when document.wf() && 0 <= node < document.nodes().len()
{
    match world_transform(document, node) {
        WorldTransform::Identity => Seq::empty(),
        WorldTransform::Local => seq![node as usize],
        WorldTransform::Compose { parent } => {
            chain(document, parent as int).push(node as usize)
        },
    }
}

/// Every node descends from itself.
pub proof fn lemma_descends_from_itself(nodes: Seq<Node>, node: int)
    ensures
        descends(nodes, node, node),
{
    let path = seq![node];
    assert(is_path(nodes, path));
}

/// A child of a node descends from everything the node descends from.
pub proof fn lemma_child_descends(nodes: Seq<Node>, ancestor: int, parent: int, child: int)
    requires
        descends(nodes, ancestor, parent),
        is_child(nodes, parent, child),
    ensures
        descends(nodes, ancestor, child),
{
    let path = choose|path: Seq<int>|
        #[trigger] is_path(nodes, path) && path[0] == ancestor && path.last() == parent;
    let longer = path.push(child);
    assert(is_path(nodes, longer));
}

/// A scene root is reachable.
pub proof fn lemma_root_reachable(nodes: Seq<Node>, scenes: Seq<Scene>, root: int)
    requires
        is_scene_root(scenes, root),
    ensures
        reachable(nodes, scenes, root),
{
    lemma_descends_from_itself(nodes, root);
}

/// A child of a reachable node is reachable.
pub proof fn lemma_child_reachable(nodes: Seq<Node>, scenes: Seq<Scene>, parent: int, child: int)
    requires
        reachable(nodes, scenes, parent),
        is_child(nodes, parent, child),
    ensures
        reachable(nodes, scenes, child),
{
    let (scene, slot) = choose|scene: int, slot: int|
        is_root_slot(scenes, scene, slot) && descends(
            nodes,
            #[trigger] root_at(scenes, scene, slot),
            parent,
        );
    lemma_child_descends(nodes, root_at(scenes, scene, slot), parent, child);
}

/// Along a path from `path[0]`, every node is in range and at least as
/// deep as the node the path starts from.
proof fn lemma_path_goes_down(document: SceneDocument, path: Seq<int>, step: int)
    requires
        document.wf(),
        is_path(document.nodes(), path),
        0 <= path[0] < document.nodes().len(),
        0 <= step < path.len(),
    ensures
        0 <= path[step] < document.nodes().len(),
        document.depths()[path[step]] >= document.depths()[path[0]] + step,
    decreases step,
{
    if step > 0 {
        lemma_path_goes_down(document, path, step - 1);
    }
}

/// A node that descends from another is at least as deep, and strictly
/// deeper unless it is that node.
pub proof fn lemma_descendant_is_deeper(document: SceneDocument, ancestor: int, node: int)
    requires
        document.wf(),
        0 <= ancestor < document.nodes().len(),
        descends(document.nodes(), ancestor, node),
    ensures
        0 <= node < document.nodes().len(),
        document.depths()[node] >= document.depths()[ancestor],
        document.depths()[node] == document.depths()[ancestor] ==> node == ancestor,
{
    let path = choose|path: Seq<int>|
        #[trigger] is_path(document.nodes(), path) && path[0] == ancestor && path.last() == node;
    lemma_path_goes_down(document, path, path.len() - 1);
}

/// Every filled slot belongs to a reachable node and holds that node's
/// world transform.
spec fn slots_sound(document: SceneDocument, slots: Seq<Option<WorldTransform>>) -> bool {
    forall|node: int|
        0 <= node < slots.len() ==> (#[trigger] slots[node] matches Some(transform) ==> transform
            == world_transform(document, node))
}

/// Every filled node outside `pending` has all of its children filled.
spec fn slots_closed(
    document: SceneDocument,
    slots: Seq<Option<WorldTransform>>,
    pending: Set<int>,
) -> bool {
    forall|parent: int, slot: int|
        is_slot(document.nodes(), parent, slot) && slots[parent] is Some && !pending.contains(
            parent,
        ) ==> slots[#[trigger] child_at(document.nodes(), parent, slot)] is Some
}

/// Slots only ever go from empty to filled.
spec fn slots_extend(
    before: Seq<Option<WorldTransform>>,
    after: Seq<Option<WorldTransform>>,
) -> bool {
    &&& after.len() == before.len()
    &&& forall|node: int|
        0 <= node < before.len() && #[trigger] before[node] is Some ==> after[node] == before[node]
}

/// No empty slot belongs to a node below a root entry read before
/// `(scene, slot)`.
spec fn earlier_roots_done(
    document: SceneDocument,
    slots: Seq<Option<WorldTransform>>,
    scene: int,
    slot: int,
) -> bool {
    forall|node: int, earlier: int, earlier_slot: int|
        #![trigger slots[node], root_at(document.scenes(), earlier, earlier_slot)]
        0 <= node < slots.len() && slots[node] is None && is_root_slot(
            document.scenes(),
            earlier,
            earlier_slot,
        ) && root_slot_before(earlier, earlier_slot, scene, slot) ==> !descends(
            document.nodes(),
            root_at(document.scenes(), earlier, earlier_slot),
            node,
        )
}

/// What descends from a child descends from its parent.
pub proof fn lemma_descends_through_parent(nodes: Seq<Node>, parent: int, child: int, node: int)
    requires
        is_child(nodes, parent, child),
        descends(nodes, child, node),
    ensures
        descends(nodes, parent, node),
{
    let path = choose|path: Seq<int>|
        #[trigger] is_path(nodes, path) && path[0] == child && path.last() == node;
    let longer = seq![parent] + path;
    assert(is_path(nodes, longer));
}

/// Every slot of a node that does not descend from `node` is in `after`
/// what it was in `before`.
#[verifier::opaque]
spec fn kept_outside(
    nodes: Seq<Node>,
    before: Seq<Option<WorldTransform>>,
    after: Seq<Option<WorldTransform>>,
    node: int,
) -> bool {
    &&& after.len() == before.len()
    &&& forall|other: int|
        0 <= other < before.len() && !descends(nodes, node, other) ==> #[trigger] after[other]
            == before[other]
}

/// Filling the slot of `node` changes nothing outside its subtree.
proof fn lemma_fill_keeps_outside(
    nodes: Seq<Node>,
    before: Seq<Option<WorldTransform>>,
    node: int,
    transform: WorldTransform,
)
    requires
        0 <= node < before.len(),
    ensures
        kept_outside(nodes, before, before.update(node, Some(transform)), node),
{
    reveal(kept_outside);
    lemma_descends_from_itself(nodes, node);
}

/// What changes nothing outside the subtree of a child changes nothing
/// outside the subtree of its parent.
proof fn lemma_child_keeps_outside(
    nodes: Seq<Node>,
    first: Seq<Option<WorldTransform>>,
    middle: Seq<Option<WorldTransform>>,
    last: Seq<Option<WorldTransform>>,
    node: int,
    child: int,
)
    requires
        is_child(nodes, node, child),
        kept_outside(nodes, first, middle, node),
        last.len() == middle.len(),
        forall|other: int|
            0 <= other < middle.len() && !descends(nodes, child, other) ==> #[trigger] last[other]
                == middle[other],
    ensures
        kept_outside(nodes, first, last, node),
{
    reveal(kept_outside);
    assert forall|other: int|
        0 <= other < first.len() && !descends(nodes, node, other) implies #[trigger] last[other]
        == first[other] by {
        if descends(nodes, child, other) {
            lemma_descends_through_parent(nodes, node, child, other);
        }
    }
}

/// What `kept_outside` says, spelled out.
proof fn lemma_kept_outside_means(
    nodes: Seq<Node>,
    before: Seq<Option<WorldTransform>>,
    after: Seq<Option<WorldTransform>>,
    node: int,
)
    requires
        kept_outside(nodes, before, after, node),
    ensures
        after.len() == before.len(),
        forall|other: int|
            0 <= other < before.len() && !descends(nodes, node, other) ==> #[trigger] after[other]
                == before[other],
{
    reveal(kept_outside);
}

/// Every member of `pending` lies strictly above `node`.
spec fn pending_above(nodes: Seq<Node>, pending: Set<int>, node: int) -> bool {
    forall|ancestor: int| #[trigger]
        pending.contains(ancestor) ==> ancestor != node && descends(nodes, ancestor, node)
}

/// What lies strictly above a node, and the node itself, lie strictly
/// above each of its children.
proof fn lemma_pending_above_child(
    document: SceneDocument,
    pending: Set<int>,
    node: int,
    child: int,
)
    requires
        document.wf(),
        0 <= node < document.nodes().len(),
        is_child(document.nodes(), node, child),
        pending_above(document.nodes(), pending, node),
    ensures
        pending_above(document.nodes(), pending.insert(node), child),
{
    let nodes = document.nodes();
    lemma_descends_from_itself(nodes, node);
    lemma_child_descends(nodes, node, node, child);
    let slot = choose|slot: int|
        is_slot(nodes, node, slot) && #[trigger] child_at(nodes, node, slot) == child;
    assert forall|ancestor: int| #[trigger]
        pending.insert(node).contains(ancestor) implies ancestor != child && descends(
        nodes,
        ancestor,
        child,
    ) by {
        if ancestor != node {
            lemma_child_descends(nodes, ancestor, node, child);
            lemma_descendant_is_deeper(document, ancestor, node);
        }
    }
}

/// Along a path from a filled node that lies below everything pending,
/// every node is filled when filled nodes that are not pending have their
/// children filled.
proof fn lemma_closed_fills_path(
    document: SceneDocument,
    slots: Seq<Option<WorldTransform>>,
    pending: Set<int>,
    path: Seq<int>,
    step: int,
)
    requires
        document.wf(),
        slots.len() == document.nodes().len(),
        slots_closed(document, slots, pending),
        is_path(document.nodes(), path),
        0 <= path[0] < slots.len(),
        slots[path[0]] is Some,
        pending_above(document.nodes(), pending, path[0]),
        0 <= step < path.len(),
    ensures
        0 <= path[step] < slots.len(),
        slots[path[step]] is Some,
        !pending.contains(path[step]),
    decreases step,
{
    lemma_path_goes_down(document, path, step);
    if pending.contains(path[step]) {
        lemma_descendant_is_deeper(document, path[step], path[0]);
    }
    if step > 0 {
        lemma_closed_fills_path(document, slots, pending, path, step - 1);
        let parent = path[step - 1];
        let slot = choose|slot: int|
            is_slot(document.nodes(), parent, slot) && #[trigger] child_at(
                document.nodes(),
                parent,
                slot,
            ) == path[step];
    }
}

/// Below a filled node that lies below everything pending, every node is
/// filled when filled nodes that are not pending have their children
/// filled.
proof fn lemma_closed_fills_subtree(
    document: SceneDocument,
    slots: Seq<Option<WorldTransform>>,
    pending: Set<int>,
    node: int,
)
    requires
        document.wf(),
        slots.len() == document.nodes().len(),
        slots_closed(document, slots, pending),
        0 <= node < slots.len(),
        slots[node] is Some,
        pending_above(document.nodes(), pending, node),
    ensures
        forall|other: int|
            0 <= other < slots.len() && descends(document.nodes(), node, other)
                ==> #[trigger] slots[other] is Some,
{
    assert forall|other: int|
        0 <= other < slots.len() && descends(
            document.nodes(),
            node,
            other,
        ) implies #[trigger] slots[other] is Some by {
        let path = choose|path: Seq<int>|
            #[trigger] is_path(document.nodes(), path) && path[0] == node && path.last() == other;
        lemma_closed_fills_path(document, slots, pending, path, path.len() - 1);
    }
}

/// A node met while the walk is below root entry `(scene, slot)`, with its
/// slot still empty, has the transform the walk is about to give it.
proof fn lemma_first_visit_transform(
    document: SceneDocument,
    slots: Seq<Option<WorldTransform>>,
    scene: int,
    slot: int,
    parent: Option<usize>,
    node: int,
)
    requires
        document.wf(),
        slots.len() == document.nodes().len(),
        0 <= node < slots.len(),
        slots[node] is None,
        is_root_slot(document.scenes(), scene, slot),
        earlier_roots_done(document, slots, scene, slot),
        match parent {
            Some(parent) => parent < document.nodes().len() && is_child(
                document.nodes(),
                parent as int,
                node,
            ) && descends(
                document.nodes(),
                root_at(document.scenes(), scene, slot),
                parent as int,
            ),
            None => root_at(document.scenes(), scene, slot) == node,
        },
    ensures
        world_transform(document, node) == match parent {
            Some(parent) => WorldTransform::Compose { parent },
            None => WorldTransform::Local,
        },
{
    let nodes = document.nodes();
    let scenes = document.scenes();
    let root = root_at(scenes, scene, slot);
    match parent {
        Some(parent) => {
            lemma_child_descends(nodes, root, parent as int, node);
            if enters_as_root(nodes, scenes, node) {
                let (first, first_slot) = choose|first: int, first_slot: int|
                    is_root_slot(scenes, first, first_slot) && #[trigger] root_at(
                        scenes,
                        first,
                        first_slot,
                    ) == node && forall|earlier: int, earlier_slot: int|
                        is_root_slot(scenes, earlier, earlier_slot) && root_slot_before(
                            earlier,
                            earlier_slot,
                            first,
                            first_slot,
                        ) ==> !descends(nodes, #[trigger] root_at(scenes, earlier, earlier_slot), node);
                if root_slot_before(first, first_slot, scene, slot) {
                    lemma_descends_from_itself(nodes, node);
                } else if !root_slot_before(scene, slot, first, first_slot) {
                    lemma_descendant_is_deeper(document, root, parent as int);
                }
            }
        },
        None => {
            lemma_descends_from_itself(nodes, node);
        },
    }
}

/// Fills the slot of `node` and of everything below it, unless the slot is
/// already filled. A root takes its local matrix; a child composes its
/// parent's world matrix with its own local matrix.
///
/// A call on a node whose slot is filled changes nothing. Any call leaves
/// filled slots and the slots of nodes outside the subtree of `node` as
/// they are, and ends with every slot in that subtree filled with the
/// world transform of its node.
fn resolve_node(
    document: &SceneDocument,
    parent: Option<usize>,
    node: usize,
    results: &mut Vec<Option<WorldTransform>>,
    Ghost(pending): Ghost<Set<int>>,
    Ghost(scene): Ghost<int>,
    Ghost(slot): Ghost<int>,
)
    requires
        node < document.nodes().len(),
        old(results)@.len() == document.nodes().len(),
        slots_sound(*document, old(results)@),
        slots_closed(*document, old(results)@, pending),
        pending_above(document.nodes(), pending, node as int),
        is_root_slot(document.scenes(), scene, slot),
        earlier_roots_done(*document, old(results)@, scene, slot),
        match parent {
            Some(parent) => parent < document.nodes().len() && is_child(
                document.nodes(),
                parent as int,
                node as int,
            ) && old(results)@[parent as int] is Some && descends(
                document.nodes(),
                root_at(document.scenes(), scene, slot),
                parent as int,
            ),
            None => root_at(document.scenes(), scene, slot) == node,
        },
    ensures
        slots_extend(old(results)@, final(results)@),
        slots_sound(*document, final(results)@),
        slots_closed(*document, final(results)@, pending),
        earlier_roots_done(*document, final(results)@, scene, slot),
        final(results)@[node as int] is Some,
        old(results)@[node as int] is Some ==> final(results)@ == old(results)@,
        forall|other: int|
            0 <= other < old(results)@.len() && !descends(document.nodes(), node as int, other)
                ==> #[trigger] final(results)@[other] == old(results)@[other],
        forall|other: int|
            0 <= other < old(results)@.len() && descends(document.nodes(), node as int, other)
                ==> #[trigger] final(results)@[other] is Some,
    decreases document.nodes().len() - document.depths()[node as int],
{
    proof {
        use_type_invariant(document);
    }
    if results[node].is_some() {
        proof {
            lemma_closed_fills_subtree(*document, results@, pending, node as int);
        }
        return ;
    }
    let transform = match parent {
        Some(parent) => WorldTransform::Compose { parent },
        None => WorldTransform::Local,
    };
    let ghost before = results@;
    proof {
        lemma_first_visit_transform(*document, results@, scene, slot, parent, node as int);
        match parent {
            Some(parent) => {
                lemma_child_descends(
                    document.nodes(),
                    root_at(document.scenes(), scene, slot),
                    parent as int,
                    node as int,
                );
            },
            None => {
                lemma_descends_from_itself(document.nodes(), node as int);
            },
        }
    }
    results.set(node, Some(transform));
    proof {
        lemma_fill_keeps_outside(document.nodes(), before, node as int, transform);
    }
    let children = &document.node_list()[node].children;
    let mut k: usize = 0;
    while k < children.len()
        invariant
            document.wf(),
            node < document.nodes().len(),
            before[node as int] is None,
            kept_outside(document.nodes(), before, results@, node as int),
            pending_above(document.nodes(), pending, node as int),
            children@ == document.nodes()[node as int].children@,
            k <= children@.len(),
            results@.len() == document.nodes().len(),
            results@[node as int] is Some,
            is_root_slot(document.scenes(), scene, slot),
            descends(document.nodes(), root_at(document.scenes(), scene, slot), node as int),
            slots_extend(before, results@),
            slots_sound(*document, results@),
            slots_closed(*document, results@, pending.insert(node as int)),
            earlier_roots_done(*document, results@, scene, slot),
            forall|child_slot: int|
                0 <= child_slot < k ==> results@[#[trigger] child_at(
                    document.nodes(),
                    node as int,
                    child_slot,
                )] is Some,
        decreases children@.len() - k,
    {
        let child = children[k];
        let ghost earlier = results@;
        proof {
            assert(child == child_at(document.nodes(), node as int, k as int));
            lemma_pending_above_child(*document, pending, node as int, child as int);
        }
        resolve_node(
            document,
            Some(node),
            child,
            results,
            Ghost(pending.insert(node as int)),
            Ghost(scene),
            Ghost(slot),
        );
        proof {
            lemma_child_keeps_outside(
                document.nodes(),
                before,
                earlier,
                results@,
                node as int,
                child as int,
            );
        }
        k += 1;
    }
    proof {
        lemma_kept_outside_means(document.nodes(), before, results@, node as int);
        lemma_closed_fills_subtree(*document, results@, pending, node as int);
    }
}

/// Computes the world transform of every node.
///
/// Walks the trees below every scene's root nodes depth first, filling each
/// node's slot the first time the node is met and never again. Nodes that no
/// scene reaches keep the identity.
pub fn resolve_world_transforms(document: &SceneDocument) -> (transforms: Vec<WorldTransform>)
    ensures
        transforms@ == world_transforms(*document),
{
    proof {
        use_type_invariant(document);
    }
    let node_count = document.node_list().len();
    let mut results: Vec<Option<WorldTransform>> = Vec::new();
    let mut i: usize = 0;
    while i < node_count
        invariant
            i <= node_count,
            results@.len() == i,
            forall|node: int| 0 <= node < i ==> #[trigger] results@[node] is None,
        decreases node_count - i,
    {
        results.push(None);
        i += 1;
    }
    let scenes = document.scene_list();
    let mut s: usize = 0;
    while s < scenes.len()
        invariant
            document.wf(),
            scenes@ == document.scenes(),
            s <= scenes@.len(),
            results@.len() == document.nodes().len(),
            slots_sound(*document, results@),
            slots_closed(*document, results@, Set::empty()),
            earlier_roots_done(*document, results@, s as int, 0),
        decreases scenes@.len() - s,
    {
        let roots = &scenes[s].nodes;
        let mut j: usize = 0;
        while j < roots.len()
            invariant
                document.wf(),
                scenes@ == document.scenes(),
                s < scenes@.len(),
                roots@ == scenes@[s as int].nodes@,
                j <= roots@.len(),
                results@.len() == document.nodes().len(),
                slots_sound(*document, results@),
                slots_closed(*document, results@, Set::empty()),
                earlier_roots_done(*document, results@, s as int, j as int),
            decreases roots@.len() - j,
        {
            let root = roots[j];
            proof {
                assert(root == root_at(scenes@, s as int, j as int));
            }
            resolve_node(
                document,
                None,
                root,
                &mut results,
                Ghost(Set::empty()),
                Ghost(s as int),
                Ghost(j as int),
            );
            j += 1;
        }
        s += 1;
    }
    let mut transforms: Vec<WorldTransform> = Vec::new();
    let mut i: usize = 0;
    while i < node_count
        invariant
            document.wf(),
            node_count == document.nodes().len(),
            results@.len() == node_count,
            i <= node_count,
            transforms@.len() == i,
            slots_sound(*document, results@),
            earlier_roots_done(*document, results@, document.scenes().len() as int, 0),
            forall|node: int|
                0 <= node < i ==> #[trigger] transforms@[node] == world_transform(*document, node),
        decreases node_count - i,
    {
        let transform = match results[i] {
            Some(transform) => transform,
            None => {
                WorldTransform::Identity
            },
        };
        transforms.push(transform);
        i += 1;
    }
    transforms
}

/// Resolution yields exactly one transform per node, and resolving the same
/// document again yields the same transforms.
pub proof fn lemma_resolution_total_and_repeatable(
    document: SceneDocument,
    first: Seq<WorldTransform>,
    second: Seq<WorldTransform>,
)
    requires
        document.wf(),
        first == world_transforms(document),
        second == world_transforms(document),
    ensures
        first.len() == document.nodes().len(),
        second == first,
{
}

/// A node that no scene reaches resolves to the identity.
pub proof fn lemma_unreachable_is_identity(document: SceneDocument, node: int)
    requires
        document.wf(),
        0 <= node < document.nodes().len(),
        !reachable(document.nodes(), document.scenes(), node),
    ensures
        world_transforms(document)[node] == WorldTransform::Identity,
        chain(document, node) == Seq::<usize>::empty(),
{
}

/// A scene root without a parent resolves to its own local matrix.
pub proof fn lemma_root_is_local(document: SceneDocument, root: int)
    requires
        document.wf(),
        is_scene_root(document.scenes(), root),
        document.parents()[root] is None,
    ensures
        0 <= root < document.nodes().len(),
        world_transforms(document)[root] == WorldTransform::Local,
        chain(document, root) == seq![root as usize],
{
    lemma_root_reachable(document.nodes(), document.scenes(), root);
}

/// A child of a reachable node that no scene lists as a root resolves to
/// its parent's world matrix times its own local matrix: the parent's
/// factors come first, the child's local matrix last.
pub proof fn lemma_child_composes_after_parent(document: SceneDocument, parent: int, child: int)
    requires
        document.wf(),
        is_child(document.nodes(), parent, child),
        reachable(document.nodes(), document.scenes(), parent),
        !is_scene_root(document.scenes(), child),
    ensures
        0 <= child < document.nodes().len(),
        world_transforms(document)[child] == (WorldTransform::Compose { parent: parent as usize }),
        chain(document, child) == chain(document, parent).push(child as usize),
{
    lemma_child_reachable(document.nodes(), document.scenes(), parent, child);
}

/// What is left of a node's chain while it is collected from its end: the
/// chain of the node the collection has arrived at, or nothing.
spec fn remaining_chain(document: SceneDocument, at: Option<usize>) -> Seq<usize> {
    match at {
        Some(node) => chain(document, node as int),
        None => Seq::empty(),
    }
}

/// Lists the nodes whose local matrices give the world matrix of `node`
/// when multiplied from left to right, starting from the first matrix
/// itself rather than from the identity. The list is empty when the world
/// matrix is the identity.
pub fn resolve_chain(document: &SceneDocument, transforms: &Vec<WorldTransform>, node: usize) -> (nodes:
    Vec<usize>)
    requires
        node < document.nodes().len(),
        transforms@ == world_transforms(*document),
    ensures
        nodes@ == chain(*document, node as int),
{
    proof {
        use_type_invariant(document);
    }
    let mut collected: Vec<usize> = Vec::new();
    let mut at: Option<usize> = Some(node);
    while at.is_some()
        invariant
            document.wf(),
            transforms@ == world_transforms(*document),
            at matches Some(current) ==> current < document.nodes().len(),
            chain(*document, node as int) == remaining_chain(*document, at) + collected@.reverse(),
        decreases
                match at {
                    Some(current) => document.depths()[current as int] + 1,
                    None => 0,
                },
    {
        let current = at.unwrap();
        match transforms[current] {
            WorldTransform::Identity => {
                at = None;
            },
            WorldTransform::Local => {
                collected.push(current);
                at = None;
            },
            WorldTransform::Compose { parent } => {
                collected.push(current);
                at = Some(parent);
            },
        }
    }
    let mut nodes: Vec<usize> = Vec::new();
    let mut taken: usize = collected.len();
    while taken > 0
        invariant
            taken <= collected@.len(),
            nodes@.len() == collected@.len() - taken,
            forall|i: int| 0 <= i < nodes@.len() ==> #[trigger] nodes@[i] == collected@.reverse()[i],
        decreases taken,
    {
        taken -= 1;
        nodes.push(collected[taken]);
    }
    nodes
}

} // verus!
