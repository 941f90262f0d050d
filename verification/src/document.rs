//! The scene document: nodes, meshes, materials and scenes as plain values,
//! together with the rules a document has to meet before it is accepted.
use vstd::prelude::*;
use crate::accessor::Accessor;
use crate::forest::{
    build_parents, compute_depths, depths_describe, lemma_depths_witness_acyclic, parents_describe,
};

verus! {

/// One drawable piece of a mesh.
#[derive(Clone, Copy, Debug, PartialEq, Eq, Structural)]
pub struct Primitive {
    /// Where the vertex positions are stored.
    pub positions: Accessor,
    /// Where the vertex indices are stored, if the primitive is indexed.
    pub indices: Option<Accessor>,
    /// Index of the material, or `None` for the implicit default material.
    pub material: Option<usize>,
}

/// A list of primitives drawn together.
#[derive(Clone, Debug, PartialEq, Eq)]
pub struct Mesh {
    pub primitives: Vec<Primitive>,
}

/// A point in the scene forest. A node's index is its position in the
/// document's node list; its local transform stays with the caller.
#[derive(Clone, Debug, PartialEq, Eq)]
pub struct Node {
    /// Indices of the child nodes, in traversal order.
    pub children: Vec<usize>,
    /// Index of the mesh drawn at this node, if any.
    pub mesh: Option<usize>,
}

/// The parts of a material that decide how its resources are laid out.
#[derive(Clone, Copy, Debug, PartialEq, Eq, Structural)]
pub struct Material {
    /// The material's explicit index, or `None` for an implicit material.
    pub index: Option<usize>,
    /// The base-color texture, if one is named, given as the index of the
    /// image that the texture samples.
    pub base_color_texture: Option<usize>,
}

/// A set of root nodes.
#[derive(Clone, Debug, PartialEq, Eq)]
pub struct Scene {
    pub nodes: Vec<usize>,
}

/// Why a document was not accepted.
#[derive(Clone, Copy, Debug, PartialEq, Eq, Structural)]
pub enum DocumentError {
    /// A node, mesh, material or scene index points outside its list.
    DanglingReference,
    /// Some node has two parents or is its own descendant.
    NotAForest,
}

/// `(parent, slot)` names an entry of some node's child list.
pub open spec fn is_slot(nodes: Seq<Node>, parent: int, slot: int) -> bool {
    0 <= parent < nodes.len() && 0 <= slot < nodes[parent].children@.len()
}

/// The child named by entry `slot` of `parent`'s child list.
pub open spec fn child_at(nodes: Seq<Node>, parent: int, slot: int) -> int {
    nodes[parent].children@[slot] as int
}

/// `child` occurs in `parent`'s child list.
pub open spec fn is_child(nodes: Seq<Node>, parent: int, child: int) -> bool {
    exists|slot: int| is_slot(nodes, parent, slot) && #[trigger] child_at(nodes, parent, slot) == child
}

/// `(scene, slot)` names an entry of some scene's root list.
pub open spec fn is_root_slot(scenes: Seq<Scene>, scene: int, slot: int) -> bool {
    0 <= scene < scenes.len() && 0 <= slot < scenes[scene].nodes@.len()
}

/// The root node named by entry `slot` of `scene`'s root list.
pub open spec fn root_at(scenes: Seq<Scene>, scene: int, slot: int) -> int {
    scenes[scene].nodes@[slot] as int
}

/// `node` is listed as a root of some scene.
pub open spec fn is_scene_root(scenes: Seq<Scene>, node: int) -> bool {
    exists|scene: int, slot: int|
        is_root_slot(scenes, scene, slot) && #[trigger] root_at(scenes, scene, slot) == node
}

/// Every child index names a node.
pub open spec fn children_in_range(nodes: Seq<Node>) -> bool {
    forall|parent: int, slot: int|
        is_slot(nodes, parent, slot) ==> 0 <= #[trigger] child_at(nodes, parent, slot) < nodes.len()
}

/// Every mesh index held by a node names a mesh.
pub open spec fn meshes_in_range(nodes: Seq<Node>, mesh_count: int) -> bool {
    forall|node: int|
        0 <= node < nodes.len() ==> (#[trigger] nodes[node].mesh matches Some(mesh) ==> mesh
            < mesh_count)
}

/// Every material index held by a primitive names a material.
pub open spec fn materials_in_range(meshes: Seq<Mesh>, material_count: int) -> bool {
    forall|mesh: int, slot: int|
        0 <= mesh < meshes.len() && 0 <= slot < meshes[mesh].primitives@.len() ==> (
        #[trigger] meshes[mesh].primitives@[slot].material matches Some(material) ==> material
            < material_count)
}

/// Every root index held by a scene names a node.
pub open spec fn roots_in_range(scenes: Seq<Scene>, node_count: int) -> bool {
    forall|scene: int, slot: int|
        is_root_slot(scenes, scene, slot) ==> 0 <= #[trigger] root_at(scenes, scene, slot)
            < node_count
}

/// Every index in the document names an item of the list it refers to.
pub open spec fn references_in_range(
    nodes: Seq<Node>,
    meshes: Seq<Mesh>,
    materials: Seq<Material>,
    scenes: Seq<Scene>,
    default_scene: Option<usize>,
) -> bool {
    &&& children_in_range(nodes)
    &&& meshes_in_range(nodes, meshes.len() as int)
    &&& materials_in_range(meshes, materials.len() as int)
    &&& roots_in_range(scenes, nodes.len() as int)
    &&& default_scene matches Some(scene) ==> scene < scenes.len()
}

/// No node is named by two entries of child lists: every node has at most
/// one parent and is listed there once.
pub open spec fn unique_parents(nodes: Seq<Node>) -> bool {
    forall|p: int, j: int, q: int, k: int|
        is_slot(nodes, p, j) && is_slot(nodes, q, k) && #[trigger] child_at(nodes, p, j)
            == #[trigger] child_at(nodes, q, k) ==> p == q && j == k
}

/// `depths` assigns every node a depth that grows by one from parent to child.
pub open spec fn is_depth_assignment(nodes: Seq<Node>, depths: Seq<nat>) -> bool {
    &&& depths.len() == nodes.len()
    &&& forall|parent: int, slot: int|
        is_slot(nodes, parent, slot) ==> 0 <= #[trigger] child_at(nodes, parent, slot)
            < nodes.len() && depths[child_at(nodes, parent, slot)] > depths[parent]
}

/// No node is its own descendant: the nodes can be layered so that every
/// child lies strictly deeper than its parent.
pub open spec fn acyclic(nodes: Seq<Node>) -> bool {
    exists|depths: Seq<nat>| is_depth_assignment(nodes, depths)
}

/// The nodes form a forest: every node has at most one parent and no node
/// is its own descendant. Scenes may enter the forest at any node.
pub open spec fn is_forest(nodes: Seq<Node>) -> bool {
    &&& unique_parents(nodes)
    &&& acyclic(nodes)
}

/// Whether every entry of `indices` is below `bound`.
fn all_below(indices: &Vec<usize>, bound: usize) -> (ok: bool)
    ensures
        ok <==> forall|k: int| 0 <= k < indices@.len() ==> #[trigger] indices@[k] < bound,
{
    let mut k: usize = 0;
    while k < indices.len()
        invariant
            k <= indices@.len(),
            forall|j: int| 0 <= j < k ==> #[trigger] indices@[j] < bound,
        decreases indices@.len() - k,
    {
        if indices[k] >= bound {
            return false;
        }
        k += 1;
    }
    true
}

/// Whether every child and mesh index held by a node is in range.
fn check_nodes(nodes: &Vec<Node>, mesh_count: usize) -> (ok: bool)
    ensures
        ok <==> children_in_range(nodes@) && meshes_in_range(nodes@, mesh_count as int),
{
    let mut i: usize = 0;
    while i < nodes.len()
        invariant
            i <= nodes@.len(),
            forall|parent: int, slot: int|
                is_slot(nodes@, parent, slot) && parent < i ==> 0 <= #[trigger] child_at(
                    nodes@,
                    parent,
                    slot,
                ) < nodes@.len(),
            forall|node: int|
                0 <= node < i ==> (#[trigger] nodes@[node].mesh matches Some(mesh) ==> mesh
                    < mesh_count),
        decreases nodes@.len() - i,
    {
        if !all_below(&nodes[i].children, nodes.len()) {
            proof {
                let slot = choose|k: int|
                    0 <= k < nodes@[i as int].children@.len() && !(
                    #[trigger] nodes@[i as int].children@[k] < nodes@.len());
                assert(!(child_at(nodes@, i as int, slot) < nodes@.len()));
            }
            return false;
        }
        match nodes[i].mesh {
            Some(mesh) => {
                if mesh >= mesh_count {
                    return false;
                }
            },
            None => {},
        }
        i += 1;
    }
    true
}

/// Whether every material index held by a primitive is in range.
fn check_meshes(meshes: &Vec<Mesh>, material_count: usize) -> (ok: bool)
    ensures
        ok <==> materials_in_range(meshes@, material_count as int),
{
    let mut i: usize = 0;
    while i < meshes.len()
        invariant
            i <= meshes@.len(),
            forall|mesh: int, slot: int|
                0 <= mesh < i && 0 <= slot < meshes@[mesh].primitives@.len() ==> (
                #[trigger] meshes@[mesh].primitives@[slot].material matches Some(material)
                    ==> material < material_count),
        decreases meshes@.len() - i,
    {
        let primitives = &meshes[i].primitives;
        let mut j: usize = 0;
        while j < primitives.len()
            invariant
                i < meshes@.len(),
                primitives@ == meshes@[i as int].primitives@,
                j <= primitives@.len(),
                forall|slot: int|
                    0 <= slot < j ==> (#[trigger] primitives@[slot].material matches Some(
                        material,
                    ) ==> material < material_count),
            decreases primitives@.len() - j,
        {
            match primitives[j].material {
                Some(material) => {
                    if material >= material_count {
                        return false;
                    }
                },
                None => {},
            }
            j += 1;
        }
        i += 1;
    }
    true
}

/// Whether every root index held by a scene is in range.
fn check_scenes(scenes: &Vec<Scene>, node_count: usize) -> (ok: bool)
    ensures
        ok <==> roots_in_range(scenes@, node_count as int),
{
    let mut i: usize = 0;
    while i < scenes.len()
        invariant
            i <= scenes@.len(),
            forall|scene: int, slot: int|
                is_root_slot(scenes@, scene, slot) && scene < i ==> 0 <= #[trigger] root_at(
                    scenes@,
                    scene,
                    slot,
                ) < node_count,
        decreases scenes@.len() - i,
    {
        if !all_below(&scenes[i].nodes, node_count) {
            proof {
                let slot = choose|k: int|
                    0 <= k < scenes@[i as int].nodes@.len() && !(
                    #[trigger] scenes@[i as int].nodes@[k] < node_count);
                assert(!(root_at(scenes@, i as int, slot) < node_count));
            }
            return false;
        }
        i += 1;
    }
    true
}

/// A scene document whose references all resolve and whose nodes form a
/// forest. Only documents that pass [`SceneDocument::new`] exist.
#[derive(Debug)]
pub struct SceneDocument {
    nodes: Vec<Node>,
    meshes: Vec<Mesh>,
    materials: Vec<Material>,
    scenes: Vec<Scene>,
    default_scene: Option<usize>,
    parents: Vec<Option<usize>>,
    depths: Vec<usize>,
}

impl SceneDocument {
    /// The nodes, indexed by node index.
    pub closed spec fn nodes(self) -> Seq<Node> {
        self.nodes@
    }

    /// The meshes, indexed by mesh index.
    pub closed spec fn meshes(self) -> Seq<Mesh> {
        self.meshes@
    }

    /// The materials, in document order.
    pub closed spec fn materials(self) -> Seq<Material> {
        self.materials@
    }

    /// The scenes, indexed by scene index.
    pub closed spec fn scenes(self) -> Seq<Scene> {
        self.scenes@
    }

    /// The scene shown when none is chosen.
    pub closed spec fn default_scene(self) -> Option<usize> {
        self.default_scene
    }

    /// For every node, the node that lists it as a child.
    pub closed spec fn parents(self) -> Seq<Option<usize>> {
        self.parents@
    }

    /// For every node, its distance from the root of its tree.
    pub closed spec fn depths(self) -> Seq<usize> {
        self.depths@
    }

    /// What holds of every document: its references resolve, every node has
    /// at most one parent, and depth grows by one from each parent to its
    /// children.
    #[verifier::type_invariant]
    pub open spec fn wf(self) -> bool {
        &&& references_in_range(
            self.nodes(),
            self.meshes(),
            self.materials(),
            self.scenes(),
            self.default_scene(),
        )
        &&& unique_parents(self.nodes())
        &&& parents_describe(self.nodes(), self.parents())
        &&& depths_describe(self.nodes(), self.depths())
    }

    /// A well-formed document is a forest.
    pub proof fn lemma_is_forest(self)
        requires
            self.wf(),
        ensures
            is_forest(self.nodes()),
    {
        lemma_depths_witness_acyclic(self.nodes(), self.depths());
    }

    /// Builds a document from its parts, accepting it exactly when every
    /// reference resolves and the nodes form a forest.
    pub fn new(
        nodes: Vec<Node>,
        meshes: Vec<Mesh>,
        materials: Vec<Material>,
        scenes: Vec<Scene>,
        default_scene: Option<usize>,
    ) -> (result: Result<SceneDocument, DocumentError>)
        ensures
            match result {
                Ok(document) => {
                    &&& document.wf()
                    &&& document.nodes() == nodes@
                    &&& document.meshes() == meshes@
                    &&& document.materials() == materials@
                    &&& document.scenes() == scenes@
                    &&& document.default_scene() == default_scene
                    &&& references_in_range(nodes@, meshes@, materials@, scenes@, default_scene)
                    &&& is_forest(nodes@)
                },
                Err(DocumentError::DanglingReference) => !references_in_range(
                    nodes@,
                    meshes@,
                    materials@,
                    scenes@,
                    default_scene,
                ),
                Err(DocumentError::NotAForest) => references_in_range(
                    nodes@,
                    meshes@,
                    materials@,
                    scenes@,
                    default_scene,
                ) && !is_forest(nodes@),
            },
    {
        if !check_nodes(&nodes, meshes.len()) {
            return Err(DocumentError::DanglingReference);
        }
        if !check_meshes(&meshes, materials.len()) {
            return Err(DocumentError::DanglingReference);
        }
        if !check_scenes(&scenes, nodes.len()) {
            return Err(DocumentError::DanglingReference);
        }
        match default_scene {
            Some(scene) => {
                if scene >= scenes.len() {
                    return Err(DocumentError::DanglingReference);
                }
            },
            None => {},
        }
        let parents = match build_parents(&nodes) {
            Some(parents) => parents,
            None => {
                return Err(DocumentError::NotAForest);
            },
        };
        let depths = match compute_depths(&nodes, &parents) {
            Some(depths) => depths,
            None => {
                return Err(DocumentError::NotAForest);
            },
        };
        proof {
            lemma_depths_witness_acyclic(nodes@, depths@);
        }
        Ok(SceneDocument { nodes, meshes, materials, scenes, default_scene, parents, depths })
    }

    /// The nodes, indexed by node index.
    pub fn node_list(&self) -> (nodes: &Vec<Node>)
        ensures
            nodes@ == self.nodes(),
    {
        &self.nodes
    }

    /// The meshes, indexed by mesh index.
    pub fn mesh_list(&self) -> (meshes: &Vec<Mesh>)
        ensures
            meshes@ == self.meshes(),
    {
        &self.meshes
    }

    /// The materials, in document order.
    pub fn material_list(&self) -> (materials: &Vec<Material>)
        ensures
            materials@ == self.materials(),
    {
        &self.materials
    }

    /// The scenes, indexed by scene index.
    pub fn scene_list(&self) -> (scenes: &Vec<Scene>)
        ensures
            scenes@ == self.scenes(),
    {
        &self.scenes
    }

    /// The scene shown when none is chosen.
    pub fn main_scene(&self) -> (scene: Option<usize>)
        ensures
            scene == self.default_scene(),
    {
        self.default_scene
    }

    /// The parent of `node`, or `None` for the root of a tree.
    pub fn parent(&self, node: usize) -> (parent: Option<usize>)
        requires
            node < self.nodes().len(),
        ensures
            parent == self.parents()[node as int],
    {
        proof {
            use_type_invariant(self);
        }
        self.parents[node]
    }
}

} // verus!
