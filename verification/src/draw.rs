//! Draw commands, and the command sequence that drawing a scene produces.
use vstd::prelude::*;
use crate::accessor::{Accessor, BufferSlice, DataType};
use crate::document::{Primitive, SceneDocument, child_at};

verus! {

/// What the caller supplies to draw one scene into one framebuffer.
#[derive(Clone, Copy, Debug, PartialEq, Eq, Structural)]
pub struct InitializationDrawContext {
    /// The framebuffer to draw into; its clear values stay with the caller.
    pub framebuffer: usize,
    /// The graphics pipeline every draw is issued with.
    pub pipeline: usize,
    /// The descriptor set with the frame-global uniforms.
    pub main_descriptor_set: usize,
}

/// What every draw inside an open render pass needs.
#[derive(Clone, Copy, Debug, PartialEq, Eq, Structural)]
pub struct DrawContext {
    /// The graphics pipeline every draw is issued with.
    pub pipeline: usize,
    /// The descriptor set with the frame-global uniforms.
    pub main_descriptor_set: usize,
}

/// The three descriptor sets bound together for one draw.
#[derive(Clone, Copy, Debug, PartialEq, Eq, Structural)]
pub struct DescriptorSets {
    /// The frame-global set supplied by the caller.
    pub frame: usize,
    /// Index of the node's descriptor set.
    pub node: usize,
    /// Index of the material's descriptor set.
    pub material: usize,
}

/// The element type of an index buffer.
#[derive(Clone, Copy, Debug, PartialEq, Eq, Structural)]
pub enum IndexType {
    U16,
    U32,
}

/// One command of a render-pass command sequence.
#[derive(Clone, Copy, Debug, PartialEq, Eq, Structural)]
pub enum DrawCommand {
    /// Opens the render pass on a framebuffer.
    BeginRenderPass { framebuffer: usize },
    /// Draws the first `vertex_count` position records of `vertices`.
    Draw { pipeline: usize, vertices: BufferSlice, vertex_count: usize, sets: DescriptorSets },
    /// Draws the first `index_count` indices of `indices`, which select
    /// position records of `vertices`.
    DrawIndexed {
        pipeline: usize,
        vertices: BufferSlice,
        indices: BufferSlice,
        index_type: IndexType,
        index_count: usize,
        sets: DescriptorSets,
    },
    /// Closes the render pass.
    EndRenderPass,
}

impl InitializationDrawContext {
    /// The part of the context that draws inside the render pass use.
    pub open spec fn draw_context(self) -> DrawContext {
        DrawContext { pipeline: self.pipeline, main_descriptor_set: self.main_descriptor_set }
    }
}

/// Number of bytes of one vertex position as the vertex stage reads it:
/// three 32-bit floats.
pub const POSITION_SIZE: usize = 12;

impl IndexType {
    /// Number of bytes of one index of this type.
    pub open spec fn byte_size(self) -> nat {
        match self {
            IndexType::U16 => 2,
            IndexType::U32 => 4,
        }
    }

    /// Number of bytes of one index of this type.
    pub fn size(self) -> (bytes: usize)
        ensures
            bytes == self.byte_size(),
    {
        match self {
            IndexType::U16 => 2,
            IndexType::U32 => 4,
        }
    }
}

/// Number of whole records of `record_size` bytes that the accessor's data
/// holds when it is read as an array of such records, whatever element
/// shape the accessor declares.
pub open spec fn record_count(accessor: Accessor, record_size: int) -> int {
    accessor.byte_len() / record_size
}

/// Whether an accessor can serve as an index buffer: its elements are 16-
/// or 32-bit unsigned integers.
pub open spec fn is_index_accessor(accessor: Accessor) -> bool {
    accessor.data_type == DataType::U16 || accessor.data_type == DataType::U32
}

/// The index type an index accessor is read with.
pub open spec fn index_type_of(accessor: Accessor) -> IndexType {
    if accessor.data_type == DataType::U16 {
        IndexType::U16
    } else {
        IndexType::U32
    }
}

/// The descriptor sets bound when a primitive of `node` is drawn.
pub open spec fn primitive_sets(context: DrawContext, node: int, primitive: Primitive)
    -> DescriptorSets {
    DescriptorSets {
        frame: context.main_descriptor_set,
        node: node as usize,
        material: primitive.material.unwrap(),
    }
}

/// The one draw command a primitive produces: an indexed draw when it has
/// an index accessor, otherwise a plain draw.
///
/// The position data is read as an array of position records and the index
/// data as an array of 16- or 32-bit indices. A plain draw covers every
/// whole position record, an indexed draw every whole index, so no draw
/// reads past the byte range of its accessor.
pub open spec fn primitive_draw(context: DrawContext, primitive: Primitive, sets: DescriptorSets)
    -> DrawCommand {
    match primitive.indices {
        Some(indices) => DrawCommand::DrawIndexed {
            pipeline: context.pipeline,
            vertices: primitive.positions.slice_spec(),
            indices: indices.slice_spec(),
            index_type: index_type_of(indices),
            index_count: record_count(indices, index_type_of(indices).byte_size() as int) as usize,
            sets,
        },
        None => DrawCommand::Draw {
            pipeline: context.pipeline,
            vertices: primitive.positions.slice_spec(),
            vertex_count: record_count(primitive.positions, POSITION_SIZE as int) as usize,
            sets,
        },
    }
}

/// The draws of the first `count` primitives of the mesh at `node`, in mesh
/// order; none when the node has no mesh.
pub open spec fn mesh_commands(document: SceneDocument, context: DrawContext, node: int, count: int)
    -> Seq<DrawCommand> {
    match document.nodes()[node].mesh {
        Some(mesh) => Seq::new(
            count as nat,
            |slot: int|
                primitive_draw(
                    context,
                    document.meshes()[mesh as int].primitives@[slot],
                    primitive_sets(
                        context,
                        node,
                        document.meshes()[mesh as int].primitives@[slot],
                    ),
                ),
        ),
        None => Seq::empty(),
    }
}

/// Number of primitives drawn at `node`.
pub open spec fn primitive_count(document: SceneDocument, node: int) -> int {
    match document.nodes()[node].mesh {
        Some(mesh) => document.meshes()[mesh as int].primitives@.len() as int,
        None => 0,
    }
}

/// The draws of the tree below `node`: the node's own primitives first,
/// then the trees below its children in child-list order.
pub open spec fn node_commands(document: SceneDocument, context: DrawContext, node: int) -> Seq<
    DrawCommand,
>
    decreases
            document.nodes().len() - document.depths()[node],
            document.nodes()[node].children@.len() + 1,
    when document.wf() && 0 <= node < document.nodes().len()
{
    mesh_commands(document, context, node, primitive_count(document, node)) + children_commands(
        document,
        context,
        node,
        document.nodes()[node].children@.len() as int,
    )
}

/// The draws of the trees below the first `count` children of `node`.
pub open spec fn children_commands(
    document: SceneDocument,
    context: DrawContext,
    node: int,
    count: int,
) -> Seq<DrawCommand>
    decreases document.nodes().len() - document.depths()[node], count,
    when document.wf() && 0 <= node < document.nodes().len() && 0 <= count
        <= document.nodes()[node].children@.len()
{
    if count == 0 {
        Seq::empty()
    } else {
        children_commands(document, context, node, count - 1) + node_commands(
            document,
            context,
            child_at(document.nodes(), node, count - 1),
        )
    }
}

/// The draws of the trees below the first `count` roots of scene `scene`.
pub open spec fn roots_commands(
    document: SceneDocument,
    context: DrawContext,
    scene: int,
    count: int,
) -> Seq<DrawCommand>
    decreases count,
{
    if count <= 0 {
        Seq::empty()
    } else {
        roots_commands(document, context, scene, count - 1) + node_commands(
            document,
            context,
            document.scenes()[scene].nodes@[count - 1] as int,
        )
    }
}

/// The complete command sequence for one scene: the render pass is opened,
/// the trees below the scene's roots are drawn in root-list order, and the
/// render pass is closed.
pub open spec fn scene_commands(
    document: SceneDocument,
    context: InitializationDrawContext,
    scene: int,
) -> Seq<DrawCommand> {
    seq![DrawCommand::BeginRenderPass { framebuffer: context.framebuffer }] + roots_commands(
        document,
        context.draw_context(),
        scene,
        document.scenes()[scene].nodes@.len() as int,
    ) + seq![DrawCommand::EndRenderPass]
}

} // verus!
