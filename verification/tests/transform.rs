use scene_model::document::{Node, Scene, SceneDocument};
use scene_model::transform::{resolve_chain, resolve_world_transforms, WorldTransform};

fn node(children: &[usize]) -> Node {
    Node { children: children.to_vec(), mesh: None }
}

fn document(nodes: Vec<Node>, scenes: Vec<Vec<usize>>) -> SceneDocument {
    let scenes = scenes.into_iter().map(|nodes| Scene { nodes }).collect();
    SceneDocument::new(nodes, vec![], vec![], scenes, None).unwrap()
}

/// Multiplies out a resolved transform over 2x2 integer matrices standing
/// in for local transforms.
fn evaluate(
    transforms: &[WorldTransform],
    locals: &[[[i64; 2]; 2]],
    node: usize,
) -> [[i64; 2]; 2] {
    match transforms[node] {
        WorldTransform::Identity => [[1, 0], [0, 1]],
        WorldTransform::Local => locals[node],
        WorldTransform::Compose { parent } => {
            let a = evaluate(transforms, locals, parent);
            let b = locals[node];
            [
                [a[0][0] * b[0][0] + a[0][1] * b[1][0], a[0][0] * b[0][1] + a[0][1] * b[1][1]],
                [a[1][0] * b[0][0] + a[1][1] * b[1][0], a[1][0] * b[0][1] + a[1][1] * b[1][1]],
            ]
        }
    }
}

#[test]
fn every_node_is_resolved_exactly_once() {
    let document = document(
        vec![node(&[1, 2]), node(&[]), node(&[3]), node(&[]), node(&[])],
        vec![vec![0]],
    );
    assert_eq!(resolve_world_transforms(&document).len(), 5);
}

#[test]
fn resolving_twice_gives_the_same_transforms() {
    let document = document(
        vec![node(&[1, 2]), node(&[]), node(&[3]), node(&[]), node(&[])],
        vec![vec![0], vec![4, 0]],
    );
    let first = resolve_world_transforms(&document);
    let second = resolve_world_transforms(&document);
    assert_eq!(first, second);
}

#[test]
fn unreachable_node_resolves_to_identity() {
    let document = document(vec![node(&[]), node(&[2]), node(&[])], vec![vec![0]]);
    assert_eq!(
        resolve_world_transforms(&document),
        vec![WorldTransform::Local, WorldTransform::Identity, WorldTransform::Identity]
    );
}

#[test]
fn document_without_scenes_resolves_to_identities() {
    let document = document(vec![node(&[1]), node(&[])], vec![]);
    assert_eq!(
        resolve_world_transforms(&document),
        vec![WorldTransform::Identity, WorldTransform::Identity]
    );
}

#[test]
fn child_composes_parent_world_with_own_local() {
    let document = document(vec![node(&[1]), node(&[])], vec![vec![0]]);
    let transforms = resolve_world_transforms(&document);
    assert_eq!(transforms, vec![WorldTransform::Local, WorldTransform::Compose { parent: 0 }]);
    // T1 x T2 with matrices that do not commute.
    let t1 = [[1, 2], [3, 4]];
    let t2 = [[0, 1], [1, 1]];
    assert_eq!(evaluate(&transforms, &[t1, t2], 1), [[2, 3], [4, 7]]);
    assert_eq!(evaluate(&transforms, &[t1, t2], 0), t1);
}

#[test]
fn grandchild_composes_along_the_whole_chain() {
    // 2 -> 0 -> 1
    let document = document(vec![node(&[1]), node(&[]), node(&[0])], vec![vec![2]]);
    let transforms = resolve_world_transforms(&document);
    assert_eq!(
        transforms,
        vec![
            WorldTransform::Compose { parent: 2 },
            WorldTransform::Compose { parent: 0 },
            WorldTransform::Local,
        ]
    );
    let locals = [[[1, 1], [0, 1]], [[2, 0], [0, 3]], [[0, 1], [1, 0]]];
    // (T2 x T0) x T1
    assert_eq!(evaluate(&transforms, &locals, 1), [[0, 3], [2, 3]]);
}

#[test]
fn scenes_sharing_a_root_resolve_it_once() {
    let document = document(
        vec![node(&[1]), node(&[]), node(&[])],
        vec![vec![0], vec![0, 2], vec![2, 2]],
    );
    assert_eq!(
        resolve_world_transforms(&document),
        vec![
            WorldTransform::Local,
            WorldTransform::Compose { parent: 0 },
            WorldTransform::Local,
        ]
    );
}

#[test]
fn empty_document_resolves_to_nothing() {
    let document = document(vec![], vec![]);
    assert!(resolve_world_transforms(&document).is_empty());
}

#[test]
fn node_listed_as_root_before_its_parent_keeps_its_local_transform() {
    // Scene 0 enters at node 1, scene 1 at its parent 0.
    let document = document(vec![node(&[1]), node(&[2]), node(&[])], vec![vec![1], vec![0]]);
    assert_eq!(
        resolve_world_transforms(&document),
        vec![
            WorldTransform::Local,
            WorldTransform::Local,
            WorldTransform::Compose { parent: 1 },
        ]
    );
}

#[test]
fn node_listed_as_root_after_its_parent_composes_with_it() {
    let document = document(vec![node(&[1]), node(&[2]), node(&[])], vec![vec![0], vec![1]]);
    assert_eq!(
        resolve_world_transforms(&document),
        vec![
            WorldTransform::Local,
            WorldTransform::Compose { parent: 0 },
            WorldTransform::Compose { parent: 1 },
        ]
    );
    let same_scene = self::document(vec![node(&[1]), node(&[])], vec![vec![0, 1]]);
    assert_eq!(
        resolve_world_transforms(&same_scene),
        vec![WorldTransform::Local, WorldTransform::Compose { parent: 0 }]
    );
    let child_first = self::document(vec![node(&[1]), node(&[])], vec![vec![1, 0]]);
    assert_eq!(
        resolve_world_transforms(&child_first),
        vec![WorldTransform::Local, WorldTransform::Local]
    );
}

#[test]
fn scene_entering_below_a_root_leaves_the_root_unreached() {
    let document = document(vec![node(&[1]), node(&[2]), node(&[])], vec![vec![1]]);
    assert_eq!(
        resolve_world_transforms(&document),
        vec![
            WorldTransform::Identity,
            WorldTransform::Local,
            WorldTransform::Compose { parent: 1 },
        ]
    );
}

#[test]
fn chain_lists_the_factors_from_the_root_down() {
    // 2 -> 0 -> 1, and 3 unreached
    let document =
        document(vec![node(&[1]), node(&[]), node(&[0]), node(&[])], vec![vec![2]]);
    let transforms = resolve_world_transforms(&document);
    assert_eq!(resolve_chain(&document, &transforms, 2), vec![2]);
    assert_eq!(resolve_chain(&document, &transforms, 0), vec![2, 0]);
    assert_eq!(resolve_chain(&document, &transforms, 1), vec![2, 0, 1]);
    assert_eq!(resolve_chain(&document, &transforms, 3), Vec::<usize>::new());
}

#[test]
fn chain_starts_where_the_scenes_first_enter() {
    let document = document(vec![node(&[1]), node(&[2]), node(&[])], vec![vec![1], vec![0]]);
    let transforms = resolve_world_transforms(&document);
    assert_eq!(resolve_chain(&document, &transforms, 0), vec![0]);
    assert_eq!(resolve_chain(&document, &transforms, 1), vec![1]);
    assert_eq!(resolve_chain(&document, &transforms, 2), vec![1, 2]);
}

#[test]
fn chain_of_a_two_node_chain_is_root_then_child() {
    let document = document(vec![node(&[1]), node(&[])], vec![vec![0]]);
    let transforms = resolve_world_transforms(&document);
    assert_eq!(resolve_chain(&document, &transforms, 1), vec![0, 1]);
}
