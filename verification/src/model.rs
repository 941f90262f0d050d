//! The scene model: the document together with the GPU resources planned
//! for it and the uploads those resources still wait for.
use vstd::prelude::*;
use crate::accessor::{Accessor, BufferSlice};
use crate::document::{Material, Mesh, Primitive, SceneDocument};
use crate::draw::{
    DescriptorSets, DrawCommand, DrawContext, IndexType, InitializationDrawContext, POSITION_SIZE,
    children_commands, index_type_of, is_index_accessor, mesh_commands, node_commands,
    primitive_count, primitive_draw, record_count, roots_commands, scene_commands,
};
use crate::error::{ImportError, ModelDrawError, ModelInitializationError};
use crate::resources::{
    BufferAllocation, BufferUsage, ImageAllocation, ImageData, MaterialDescriptorSet,
    NodeDescriptorSet,
};
use crate::task::{InitializationTask, Upload, UploadCommand, upload_views};
use crate::transform::{WorldTransform, resolve_world_transforms, world_transforms};

verus! {

/// The descriptor set slot of per-node data.
pub const NODE_SET: usize = 1;

/// The descriptor set slot of per-material data.
pub const MATERIAL_SET: usize = 2;

/// `(mesh, slot)` names a primitive.
pub open spec fn is_primitive(meshes: Seq<Mesh>, mesh: int, slot: int) -> bool {
    0 <= mesh < meshes.len() && 0 <= slot < meshes[mesh].primitives@.len()
}

/// The primitive named by `(mesh, slot)`.
pub open spec fn primitive_at(meshes: Seq<Mesh>, mesh: int, slot: int) -> Primitive {
    meshes[mesh].primitives@[slot]
}

/// Every material carries its own position as explicit index.
pub open spec fn materials_indexed(materials: Seq<Material>) -> bool {
    forall|i: int| 0 <= i < materials.len() ==> (#[trigger] materials[i]).index == Some(i as usize)
}

/// Every primitive names its material.
pub open spec fn primitives_name_material(meshes: Seq<Mesh>) -> bool {
    forall|mesh: int, slot: int|
        is_primitive(meshes, mesh, slot) ==> (#[trigger] primitive_at(
            meshes,
            mesh,
            slot,
        )).material is Some
}

/// Material indices are explicit and dense, and no primitive relies on the
/// implicit default material.
pub open spec fn materials_explicit(materials: Seq<Material>, meshes: Seq<Mesh>) -> bool {
    materials_indexed(materials) && primitives_name_material(meshes)
}

/// Index of the image a material samples as base color: the image of the
/// texture it names, or image 0 when it names none.
pub open spec fn base_color_image(material: Material) -> usize {
    match material.base_color_texture {
        Some(texture) => texture,
        None => 0,
    }
}

/// Every material's base-color image exists.
pub open spec fn textures_present(materials: Seq<Material>, image_count: int) -> bool {
    forall|i: int|
        0 <= i < materials.len() ==> base_color_image(#[trigger] materials[i]) < image_count
}

/// The accessor names an existing buffer and lies inside it.
pub open spec fn accessor_in_bounds(accessor: Accessor, buffers: Seq<BufferAllocation>) -> bool {
    accessor.buffer < buffers.len() && accessor.fits(buffers[accessor.buffer as int].size as int)
}

/// Both accessors of the primitive are in bounds.
pub open spec fn primitive_in_bounds(primitive: Primitive, buffers: Seq<BufferAllocation>) -> bool {
    &&& accessor_in_bounds(primitive.positions, buffers)
    &&& primitive.indices matches Some(indices) ==> accessor_in_bounds(indices, buffers)
}

/// The accessors of every primitive are in bounds.
pub open spec fn accessors_in_bounds(meshes: Seq<Mesh>, buffers: Seq<BufferAllocation>) -> bool {
    forall|mesh: int, slot: int|
        is_primitive(meshes, mesh, slot) ==> primitive_in_bounds(
            #[trigger] primitive_at(meshes, mesh, slot),
            buffers,
        )
}

/// The primitive's indices, if any, are 16- or 32-bit unsigned integers.
pub open spec fn index_type_supported(primitive: Primitive) -> bool {
    primitive.indices matches Some(indices) ==> is_index_accessor(indices)
}

/// The indices of every primitive have a supported type.
pub open spec fn index_types_supported(meshes: Seq<Mesh>) -> bool {
    forall|mesh: int, slot: int|
        is_primitive(meshes, mesh, slot) ==> index_type_supported(
            #[trigger] primitive_at(meshes, mesh, slot),
        )
}

/// The device buffer planned for each source buffer: as large as the
/// source, with the usage every imported buffer gets.
pub open spec fn imported_buffers(buffers: Seq<Vec<u8>>) -> Seq<BufferAllocation> {
    Seq::new(
        buffers.len(),
        |i: int| BufferAllocation { size: buffers[i]@.len() as usize, usage: BufferUsage::imported() },
    )
}

/// The device image planned for each source image.
pub open spec fn imported_images(images: Seq<ImageData>) -> Seq<ImageAllocation> {
    Seq::new(images.len(), |i: int| images[i].allocation_spec())
}

/// The descriptor set planned for each node.
pub open spec fn imported_node_sets(pipeline: usize, node_count: nat) -> Seq<NodeDescriptorSet> {
    Seq::new(
        node_count,
        |i: int|
            NodeDescriptorSet {
                pipeline,
                set: NODE_SET,
                uniform_usage: BufferUsage::uniform_upload(),
                node: i as usize,
            },
    )
}

/// The descriptor set planned for each material.
pub open spec fn imported_material_sets(pipeline: usize, materials: Seq<Material>) -> Seq<
    MaterialDescriptorSet,
> {
    Seq::new(
        materials.len(),
        |i: int|
            MaterialDescriptorSet {
                pipeline,
                set: MATERIAL_SET,
                uniform_usage: BufferUsage::uniform_upload(),
                material: i as usize,
                base_color_image: base_color_image(materials[i]),
            },
    )
}

/// The upload of every source buffer, in buffer order.
pub open spec fn buffer_tasks(buffers: Seq<Vec<u8>>) -> Seq<InitializationTask> {
    Seq::new(
        buffers.len(),
        |i: int| InitializationTask::Buffer { index: i as usize, data: buffers[i] },
    )
}

/// The upload of every source image, in image order.
pub open spec fn image_tasks(images: Seq<ImageData>) -> Seq<InitializationTask> {
    Seq::new(images.len(), |i: int| InitializationTask::Image { index: i as usize, data: images[i] })
}

/// The upload of every node's world matrix, in node order.
pub open spec fn node_tasks(transforms: Seq<WorldTransform>) -> Seq<InitializationTask> {
    Seq::new(
        transforms.len(),
        |i: int| InitializationTask::NodeDescriptorSet { index: i as usize, data: transforms[i] },
    )
}

/// The upload of every material's factors, in material order.
pub open spec fn material_tasks(material_count: nat) -> Seq<InitializationTask> {
    Seq::new(
        material_count,
        |i: int| InitializationTask::MaterialDescriptorSet { index: i as usize },
    )
}

/// The queue of uploads an import leaves behind: buffers first, then
/// images, then nodes, then materials.
pub open spec fn import_tasks(
    document: SceneDocument,
    buffers: Seq<Vec<u8>>,
    images: Seq<ImageData>,
) -> Seq<InitializationTask> {
    buffer_tasks(buffers) + image_tasks(images) + node_tasks(world_transforms(document))
        + material_tasks(document.materials().len())
}

/// Why importing these parts fails, or `None` when it succeeds. Of several
/// faults the first in this order is reported: implicit materials, missing
/// textures, accessors out of bounds, unsupported index types.
pub open spec fn import_failure(
    document: SceneDocument,
    buffers: Seq<Vec<u8>>,
    images: Seq<ImageData>,
) -> Option<ImportError> {
    if !materials_explicit(document.materials(), document.meshes()) {
        Some(ImportError::ImplicitMaterial)
    } else if !textures_present(document.materials(), images.len() as int) {
        Some(ImportError::MissingTexture)
    } else if !accessors_in_bounds(document.meshes(), imported_buffers(buffers)) {
        Some(ImportError::AccessorOutOfBounds)
    } else if !index_types_supported(document.meshes()) {
        Some(ImportError::UnsupportedIndexType)
    } else {
        None
    }
}

/// Whether every material carries its own position as explicit index.
fn check_materials_indexed(materials: &Vec<Material>) -> (ok: bool)
    ensures
        ok <==> materials_indexed(materials@),
{
    let mut i: usize = 0;
    while i < materials.len()
        invariant
            i <= materials@.len(),
            forall|j: int| 0 <= j < i ==> (#[trigger] materials@[j]).index == Some(j as usize),
        decreases materials@.len() - i,
    {
        match materials[i].index {
            Some(index) => {
                if index != i {
                    return false;
                }
            },
            None => {
                return false;
            },
        }
        i += 1;
    }
    true
}

/// Whether every material's base-color image exists.
fn check_textures(materials: &Vec<Material>, image_count: usize) -> (ok: bool)
    ensures
        ok <==> textures_present(materials@, image_count as int),
{
    let mut i: usize = 0;
    while i < materials.len()
        invariant
            i <= materials@.len(),
            forall|j: int| 0 <= j < i ==> base_color_image(#[trigger] materials@[j]) < image_count,
        decreases materials@.len() - i,
    {
        let image = match materials[i].base_color_texture {
            Some(texture) => texture,
            None => 0,
        };
        if image >= image_count {
            return false;
        }
        i += 1;
    }
    true
}

/// Whether the accessor names an existing buffer and lies inside it.
fn check_accessor(accessor: &Accessor, buffers: &Vec<BufferAllocation>) -> (ok: bool)
    ensures
        ok <==> accessor_in_bounds(*accessor, buffers@),
{
    if accessor.buffer >= buffers.len() {
        return false;
    }
    accessor.slice(buffers[accessor.buffer].size).is_some()
}

/// What a scan over all primitives found.
struct PrimitiveScan {
    named: bool,
    in_bounds: bool,
    supported: bool,
}

/// What holds of one primitive.
fn scan_primitive(primitive: &Primitive, buffers: &Vec<BufferAllocation>) -> (scan: PrimitiveScan)
    ensures
        scan.named <==> primitive.material is Some,
        scan.in_bounds <==> primitive_in_bounds(*primitive, buffers@),
        scan.supported <==> index_type_supported(*primitive),
{
    let named = primitive.material.is_some();
    let positions_fit = check_accessor(&primitive.positions, buffers);
    match primitive.indices {
        Some(indices) => {
            let supported = match indices.data_type {
                crate::accessor::DataType::U16 => true,
                crate::accessor::DataType::U32 => true,
                _ => false,
            };
            PrimitiveScan {
                named,
                in_bounds: positions_fit && check_accessor(&indices, buffers),
                supported,
            }
        },
        None => PrimitiveScan { named, in_bounds: positions_fit, supported: true },
    }
}

/// What holds of all primitives of all meshes.
fn scan_primitives(meshes: &Vec<Mesh>, buffers: &Vec<BufferAllocation>) -> (scan: PrimitiveScan)
    ensures
        scan.named <==> primitives_name_material(meshes@),
        scan.in_bounds <==> accessors_in_bounds(meshes@, buffers@),
        scan.supported <==> index_types_supported(meshes@),
{
    let mut scan = PrimitiveScan { named: true, in_bounds: true, supported: true };
    let mut m: usize = 0;
    while m < meshes.len()
        invariant
            m <= meshes@.len(),
            scan.named <==> forall|mesh: int, slot: int|
                is_primitive(meshes@, mesh, slot) && mesh < m ==> (#[trigger] primitive_at(
                    meshes@,
                    mesh,
                    slot,
                )).material is Some,
            scan.in_bounds <==> forall|mesh: int, slot: int|
                is_primitive(meshes@, mesh, slot) && mesh < m ==> primitive_in_bounds(
                    #[trigger] primitive_at(meshes@, mesh, slot),
                    buffers@,
                ),
            scan.supported <==> forall|mesh: int, slot: int|
                is_primitive(meshes@, mesh, slot) && mesh < m ==> index_type_supported(
                    #[trigger] primitive_at(meshes@, mesh, slot),
                ),
        decreases meshes@.len() - m,
    {
        let primitives = &meshes[m].primitives;
        let mut j: usize = 0;
        while j < primitives.len()
            invariant
                m < meshes@.len(),
                primitives@ == meshes@[m as int].primitives@,
                j <= primitives@.len(),
                scan.named <==> forall|mesh: int, slot: int|
                    is_primitive(meshes@, mesh, slot) && (mesh < m || (mesh == m && slot < j)) ==> (
                    #[trigger] primitive_at(meshes@, mesh, slot)).material is Some,
                scan.in_bounds <==> forall|mesh: int, slot: int|
                    is_primitive(meshes@, mesh, slot) && (mesh < m || (mesh == m && slot < j))
                        ==> primitive_in_bounds(
                        #[trigger] primitive_at(meshes@, mesh, slot),
                        buffers@,
                    ),
                scan.supported <==> forall|mesh: int, slot: int|
                    is_primitive(meshes@, mesh, slot) && (mesh < m || (mesh == m && slot < j))
                        ==> index_type_supported(#[trigger] primitive_at(meshes@, mesh, slot)),
            decreases primitives@.len() - j,
        {
            let one = scan_primitive(&primitives[j], buffers);
            proof {
                assert(primitives@[j as int] == primitive_at(meshes@, m as int, j as int));
            }
            scan =
            PrimitiveScan {
                named: scan.named && one.named,
                in_bounds: scan.in_bounds && one.in_bounds,
                supported: scan.supported && one.supported,
            };
            j += 1;
        }
        m += 1;
    }
    scan
}

/// The device buffer planned for each source buffer.
fn plan_buffers(buffers: &Vec<Vec<u8>>) -> (planned: Vec<BufferAllocation>)
    ensures
        planned@ == imported_buffers(buffers@),
{
    let mut planned: Vec<BufferAllocation> = Vec::new();
    let mut i: usize = 0;
    while i < buffers.len()
        invariant
            i <= buffers@.len(),
            planned@.len() == i,
            forall|j: int| 0 <= j < i ==> #[trigger] planned@[j] == imported_buffers(buffers@)[j],
        decreases buffers@.len() - i,
    {
        planned.push(
            BufferAllocation { size: buffers[i].len(), usage: BufferUsage::for_imported_buffer() },
        );
        i += 1;
    }
    planned
}

/// The device image planned for each source image.
fn plan_images(images: &Vec<ImageData>) -> (planned: Vec<ImageAllocation>)
    ensures
        planned@ == imported_images(images@),
{
    let mut planned: Vec<ImageAllocation> = Vec::new();
    let mut i: usize = 0;
    while i < images.len()
        invariant
            i <= images@.len(),
            planned@.len() == i,
            forall|j: int| 0 <= j < i ==> #[trigger] planned@[j] == imported_images(images@)[j],
        decreases images@.len() - i,
    {
        planned.push(images[i].allocation());
        i += 1;
    }
    planned
}

/// The descriptor set planned for each node.
fn plan_node_sets(pipeline: usize, node_count: usize) -> (planned: Vec<NodeDescriptorSet>)
    ensures
        planned@ == imported_node_sets(pipeline, node_count as nat),
{
    let mut planned: Vec<NodeDescriptorSet> = Vec::new();
    let mut i: usize = 0;
    while i < node_count
        invariant
            i <= node_count,
            planned@.len() == i,
            forall|j: int|
                0 <= j < i ==> #[trigger] planned@[j] == imported_node_sets(
                    pipeline,
                    node_count as nat,
                )[j],
        decreases node_count - i,
    {
        planned.push(
            NodeDescriptorSet {
                pipeline,
                set: NODE_SET,
                uniform_usage: BufferUsage::uniform_buffer_transfer_destination(),
                node: i,
            },
        );
        i += 1;
    }
    planned
}

/// The descriptor set planned for each material.
fn plan_material_sets(pipeline: usize, materials: &Vec<Material>) -> (planned: Vec<
    MaterialDescriptorSet,
>)
    ensures
        planned@ == imported_material_sets(pipeline, materials@),
{
    let mut planned: Vec<MaterialDescriptorSet> = Vec::new();
    let mut i: usize = 0;
    while i < materials.len()
        invariant
            i <= materials@.len(),
            planned@.len() == i,
            forall|j: int|
                0 <= j < i ==> #[trigger] planned@[j] == imported_material_sets(
                    pipeline,
                    materials@,
                )[j],
        decreases materials@.len() - i,
    {
        let base_color_image = match materials[i].base_color_texture {
            Some(texture) => texture,
            None => 0,
        };
        planned.push(
            MaterialDescriptorSet {
                pipeline,
                set: MATERIAL_SET,
                uniform_usage: BufferUsage::uniform_buffer_transfer_destination(),
                material: i,
                base_color_image,
            },
        );
        i += 1;
    }
    planned
}

/// Queues the upload of every part of the asset: buffers, images, node
/// matrices and material factors, in that order.
fn queue_tasks(
    buffers: Vec<Vec<u8>>,
    images: Vec<ImageData>,
    transforms: Vec<WorldTransform>,
    material_count: usize,
) -> (tasks: Vec<InitializationTask>)
    ensures
        tasks@ == buffer_tasks(buffers@) + image_tasks(images@) + node_tasks(transforms@)
            + material_tasks(material_count as nat),
{
    let ghost all_buffers = buffers@;
    let ghost all_images = images@;
    let mut tasks: Vec<InitializationTask> = Vec::new();
    for data in it: buffers
        invariant
            it.seq() == all_buffers,
            tasks@.len() == it.index(),
            forall|j: int| 0 <= j < tasks@.len() ==> #[trigger] tasks@[j] == buffer_tasks(all_buffers)[j],
    {
        let index = tasks.len();
        tasks.push(InitializationTask::Buffer { index, data });
    }
    let ghost after_buffers = tasks@;
    let offset = tasks.len();
    for data in it: images
        invariant
            it.seq() == all_images,
            offset == after_buffers.len(),
            tasks@.len() == offset + it.index(),
            forall|j: int| 0 <= j < offset ==> #[trigger] tasks@[j] == after_buffers[j],
            forall|j: int|
                offset <= j < tasks@.len() ==> #[trigger] tasks@[j] == image_tasks(all_images)[j
                    - offset],
    {
        let index = tasks.len() - offset;
        tasks.push(InitializationTask::Image { index, data });
    }
    let ghost after_images = tasks@;
    let offset = tasks.len();
    let mut i: usize = 0;
    while i < transforms.len()
        invariant
            i <= transforms@.len(),
            offset == after_images.len(),
            tasks@.len() == offset + i,
            forall|j: int| 0 <= j < offset ==> #[trigger] tasks@[j] == after_images[j],
            forall|j: int|
                offset <= j < tasks@.len() ==> #[trigger] tasks@[j] == node_tasks(transforms@)[j
                    - offset],
        decreases transforms@.len() - i,
    {
        tasks.push(InitializationTask::NodeDescriptorSet { index: i, data: transforms[i] });
        i += 1;
    }
    let ghost after_nodes = tasks@;
    let offset = tasks.len();
    let mut i: usize = 0;
    while i < material_count
        invariant
            i <= material_count,
            offset == after_nodes.len(),
            tasks@.len() == offset + i,
            forall|j: int| 0 <= j < offset ==> #[trigger] tasks@[j] == after_nodes[j],
            forall|j: int|
                offset <= j < tasks@.len() ==> #[trigger] tasks@[j] == material_tasks(
                    material_count as nat,
                )[j - offset],
        decreases material_count - i,
    {
        tasks.push(InitializationTask::MaterialDescriptorSet { index: i });
        i += 1;
    }
    tasks
}

/// An imported asset: its document, the device resources planned for it,
/// and the uploads that still have to be recorded.
#[derive(Debug)]
pub struct Model {
    document: SceneDocument,
    device_buffers: Vec<BufferAllocation>,
    device_images: Vec<ImageAllocation>,
    node_descriptor_sets: Vec<NodeDescriptorSet>,
    material_descriptor_sets: Vec<MaterialDescriptorSet>,
    initialization_tasks: Option<Vec<InitializationTask>>,
}

impl Model {
    /// The document the model was imported from.
    pub closed spec fn document(self) -> SceneDocument {
        self.document
    }

    /// One device buffer per source buffer, indexed like the source.
    pub closed spec fn device_buffers(self) -> Seq<BufferAllocation> {
        self.device_buffers@
    }

    /// One device image per source image, indexed like the source.
    pub closed spec fn device_images(self) -> Seq<ImageAllocation> {
        self.device_images@
    }

    /// One descriptor set per node, indexed by node index.
    pub closed spec fn node_descriptor_sets(self) -> Seq<NodeDescriptorSet> {
        self.node_descriptor_sets@
    }

    /// One descriptor set per material, indexed by material index.
    pub closed spec fn material_descriptor_sets(self) -> Seq<MaterialDescriptorSet> {
        self.material_descriptor_sets@
    }

    /// The uploads that still have to be recorded, or `None` once they have
    /// been handed out.
    pub closed spec fn initialization_tasks(self) -> Option<Seq<InitializationTask>> {
        match self.initialization_tasks {
            Some(tasks) => Some(tasks@),
            None => None,
        }
    }

    /// The model after its uploads have been handed out: the same document
    /// and resources, and no pending uploads.
    pub closed spec fn drained(self) -> Model {
        Model { initialization_tasks: None, ..self }
    }

    /// What `initialize` returns for this model when it is handed
    /// `commands`: the commands extended by one copy per pending upload, in
    /// queue order, or the refusal to initialize twice.
    pub open spec fn initialize_outcome(self, commands: Seq<Upload>) -> Result<
        Seq<Upload>,
        ModelInitializationError,
    > {
        match self.initialization_tasks() {
            Some(tasks) => Ok(commands + InitializationTask::uploads(tasks)),
            None => Err(ModelInitializationError::ModelAlreadyInitialized),
        }
    }

    /// What holds of every model: the document is well formed, there is one
    /// descriptor set per node and per material, every material is explicit,
    /// and every primitive reads supported data from inside its buffers.
    #[verifier::type_invariant]
    pub open spec fn wf(self) -> bool {
        &&& self.document().wf()
        &&& self.node_descriptor_sets().len() == self.document().nodes().len()
        &&& self.material_descriptor_sets().len() == self.document().materials().len()
        &&& materials_explicit(self.document().materials(), self.document().meshes())
        &&& textures_present(self.document().materials(), self.device_images().len() as int)
        &&& accessors_in_bounds(self.document().meshes(), self.device_buffers())
        &&& index_types_supported(self.document().meshes())
    }

    /// Plans the device resources of an asset and queues their uploads.
    ///
    /// Every source buffer gets a device buffer of its size, every source
    /// image a device image, every node and every material a descriptor set
    /// bound to a uniform buffer of its own. Nothing is planned when the
    /// asset is rejected.
    pub fn import(
        pipeline: usize,
        document: SceneDocument,
        buffers: Vec<Vec<u8>>,
        images: Vec<ImageData>,
    ) -> (result: Result<Model, ImportError>)
        ensures
            match result {
                Ok(model) => {
                    &&& import_failure(document, buffers@, images@) is None
                    &&& model.wf()
                    &&& model.document() == document
                    &&& model.device_buffers() == imported_buffers(buffers@)
                    &&& model.device_images() == imported_images(images@)
                    &&& model.node_descriptor_sets() == imported_node_sets(
                        pipeline,
                        document.nodes().len(),
                    )
                    &&& model.material_descriptor_sets() == imported_material_sets(
                        pipeline,
                        document.materials(),
                    )
                    &&& model.initialization_tasks() == Some(
                        import_tasks(document, buffers@, images@),
                    )
                },
                Err(error) => import_failure(document, buffers@, images@) == Some(error),
            },
    {
        proof {
            use_type_invariant(&document);
        }
        let device_buffers = plan_buffers(&buffers);
        let materials_indexed = check_materials_indexed(document.material_list());
        let scan = scan_primitives(document.mesh_list(), &device_buffers);
        if !materials_indexed || !scan.named {
            return Err(ImportError::ImplicitMaterial);
        }
        if !check_textures(document.material_list(), images.len()) {
            return Err(ImportError::MissingTexture);
        }
        if !scan.in_bounds {
            return Err(ImportError::AccessorOutOfBounds);
        }
        if !scan.supported {
            return Err(ImportError::UnsupportedIndexType);
        }
        let device_images = plan_images(&images);
        let transforms = resolve_world_transforms(&document);
        let node_descriptor_sets = plan_node_sets(pipeline, document.node_list().len());
        let material_descriptor_sets = plan_material_sets(pipeline, document.material_list());
        let tasks = queue_tasks(buffers, images, transforms, document.material_list().len());
        Ok(
            Model {
                document,
                device_buffers,
                device_images,
                node_descriptor_sets,
                material_descriptor_sets,
                initialization_tasks: Some(tasks),
            },
        )
    }

    /// Records the model's pending uploads, once.
    ///
    /// The first call appends one copy per queued task to `commands`, in
    /// queue order, and leaves the queue drained. Every later call is
    /// refused and changes nothing.
    pub fn initialize(&mut self, commands: Vec<UploadCommand>) -> (result: Result<
        Vec<UploadCommand>,
        ModelInitializationError,
    >)
        ensures
            *final(self) == old(self).drained(),
            final(self).initialization_tasks() is None,
            final(self).document() == old(self).document(),
            final(self).device_buffers() == old(self).device_buffers(),
            final(self).device_images() == old(self).device_images(),
            final(self).node_descriptor_sets() == old(self).node_descriptor_sets(),
            final(self).material_descriptor_sets() == old(self).material_descriptor_sets(),
            match result {
                Ok(extended) => old(self).initialize_outcome(upload_views(commands@)) == Ok::<
                    Seq<Upload>,
                    ModelInitializationError,
                >(upload_views(extended@)),
                Err(error) => old(self).initialize_outcome(upload_views(commands@)) == Err::<
                    Seq<Upload>,
                    ModelInitializationError,
                >(error),
            },
    {
        proof {
            use_type_invariant(&*self);
        }
        let mut pending: Option<Vec<InitializationTask>> = None;
        core::mem::swap(&mut self.initialization_tasks, &mut pending);
        match pending {
            Some(tasks) => {
                let ghost queued = tasks@;
                let mut commands = commands;
                let ghost given = commands@;
                for task in it: tasks
                    invariant
                        it.seq() == queued,
                        upload_views(commands@) == upload_views(given)
                            + InitializationTask::uploads(queued.take(it.index())),
                {
                    commands = task.initialize(commands);
                }
                proof {
                    assert(queued.take(queued.len() as int) =~= queued);
                }
                Ok(commands)
            },
            None => Err(ModelInitializationError::ModelAlreadyInitialized),
        }
    }
}

/// `primitive` is one of the primitives of `meshes`.
pub open spec fn contains_primitive(meshes: Seq<Mesh>, primitive: Primitive) -> bool {
    exists|mesh: int, slot: int|
        is_primitive(meshes, mesh, slot) && #[trigger] primitive_at(meshes, mesh, slot) == primitive
}

impl Model {
    /// A model initializes at most once: whatever its state, after one call
    /// of `initialize` every further call is refused and leaves the model as
    /// it is, so no upload is recorded twice.
    pub proof fn lemma_initialize_is_one_shot(self, commands: Seq<Upload>)
        ensures
            self.drained().initialize_outcome(commands) == Err::<
                Seq<Upload>,
                ModelInitializationError,
            >(ModelInitializationError::ModelAlreadyInitialized),
            self.drained().drained() == self.drained(),
            self.drained().initialization_tasks() is None,
            self.drained().document() == self.document(),
            self.drained().device_buffers() == self.device_buffers(),
            self.drained().device_images() == self.device_images(),
            self.drained().node_descriptor_sets() == self.node_descriptor_sets(),
            self.drained().material_descriptor_sets() == self.material_descriptor_sets(),
    {
    }

    /// The document the model was imported from.
    pub fn asset(&self) -> (document: &SceneDocument)
        ensures
            *document == self.document(),
    {
        &self.document
    }

    /// The device buffers to allocate, indexed like the source buffers.
    pub fn planned_buffers(&self) -> (buffers: &Vec<BufferAllocation>)
        ensures
            buffers@ == self.device_buffers(),
    {
        &self.device_buffers
    }

    /// The device images to allocate, indexed like the source images.
    pub fn planned_images(&self) -> (images: &Vec<ImageAllocation>)
        ensures
            images@ == self.device_images(),
    {
        &self.device_images
    }

    /// The descriptor sets to build, one per node.
    pub fn planned_node_sets(&self) -> (sets: &Vec<NodeDescriptorSet>)
        ensures
            sets@ == self.node_descriptor_sets(),
    {
        &self.node_descriptor_sets
    }

    /// The descriptor sets to build, one per material.
    pub fn planned_material_sets(&self) -> (sets: &Vec<MaterialDescriptorSet>)
        ensures
            sets@ == self.material_descriptor_sets(),
    {
        &self.material_descriptor_sets
    }

    /// Whether the pending uploads have been handed out.
    pub fn is_initialized(&self) -> (initialized: bool)
        ensures
            initialized <==> self.initialization_tasks() is None,
    {
        self.initialization_tasks.is_none()
    }

    /// Appends the one draw of `primitive` to `commands`: an indexed draw
    /// when the primitive has indices, a plain draw otherwise, with `sets`
    /// bound.
    pub fn draw_primitive(
        &self,
        primitive: &Primitive,
        commands: Vec<DrawCommand>,
        context: &DrawContext,
        sets: DescriptorSets,
    ) -> (extended: Vec<DrawCommand>)
        requires
            contains_primitive(self.document().meshes(), *primitive),
        ensures
            extended@ == commands@.push(primitive_draw(*context, *primitive, sets)),
            primitive_in_bounds(*primitive, self.device_buffers()),
            index_type_supported(*primitive),
    {
        proof {
            use_type_invariant(self);
        }
        let mut commands = commands;
        let positions = &primitive.positions;
        let vertices = positions.slice(self.device_buffers[positions.buffer].size).unwrap();
        let command = match primitive.indices {
            Some(accessor) => {
                let indices = accessor.slice(self.device_buffers[accessor.buffer].size).unwrap();
                let index_type = match accessor.data_type {
                    crate::accessor::DataType::U16 => IndexType::U16,
                    _ => IndexType::U32,
                };
                DrawCommand::DrawIndexed {
                    pipeline: context.pipeline,
                    vertices,
                    indices,
                    index_type,
                    index_count: (indices.end - indices.start) / index_type.size(),
                    sets,
                }
            },
            None => DrawCommand::Draw {
                pipeline: context.pipeline,
                vertices,
                vertex_count: (vertices.end - vertices.start) / POSITION_SIZE,
                sets,
            },
        };
        commands.push(command);
        commands
    }

    /// Appends the draws of the tree below `node` to `commands`: the node's
    /// own primitives in mesh order, then its children in child-list order.
    /// Each draw binds the frame-global set, the node's set and the
    /// material's set.
    pub fn draw_node(&self, node: usize, commands: Vec<DrawCommand>, context: &DrawContext) -> (extended:
        Vec<DrawCommand>)
        requires
            node < self.document().nodes().len(),
        ensures
            extended@ == commands@ + node_commands(self.document(), *context, node as int),
        decreases self.document().nodes().len() - self.document().depths()[node as int],
    {
        proof {
            use_type_invariant(self);
        }
        let ghost given = commands@;
        let mut commands = commands;
        let this = &self.document.node_list()[node];
        match this.mesh {
            Some(mesh) => {
                let primitives = &self.document.mesh_list()[mesh].primitives;
                let mut j: usize = 0;
                while j < primitives.len()
                    invariant
                        self.wf(),
                        node < self.document().nodes().len(),
                        self.document().nodes()[node as int].mesh == Some(mesh),
                        mesh < self.document().meshes().len(),
                        primitives@ == self.document().meshes()[mesh as int].primitives@,
                        j <= primitives@.len(),
                        commands@ == given + mesh_commands(
                            self.document(),
                            *context,
                            node as int,
                            j as int,
                        ),
                    decreases primitives@.len() - j,
                {
                    let primitive = &primitives[j];
                    proof {
                        assert(primitive_at(self.document().meshes(), mesh as int, j as int)
                            == *primitive);
                    }
                    let sets = DescriptorSets {
                        frame: context.main_descriptor_set,
                        node,
                        material: primitive.material.unwrap(),
                    };
                    commands = self.draw_primitive(primitive, commands, context, sets);
                    j += 1;
                }
            },
            None => {},
        }
        let ghost own = mesh_commands(
            self.document(),
            *context,
            node as int,
            primitive_count(self.document(), node as int),
        );
        let children = &this.children;
        let mut k: usize = 0;
        while k < children.len()
            invariant
                self.wf(),
                node < self.document().nodes().len(),
                children@ == self.document().nodes()[node as int].children@,
                k <= children@.len(),
                commands@ == given + own + children_commands(
                    self.document(),
                    *context,
                    node as int,
                    k as int,
                ),
            decreases children@.len() - k,
        {
            let child = children[k];
            proof {
                assert(child == crate::document::child_at(
                    self.document().nodes(),
                    node as int,
                    k as int,
                ));
            }
            commands = self.draw_node(child, commands, context);
            k += 1;
        }
        commands
    }

    /// Builds the command sequence that draws scene `scene_index`: the
    /// render pass is opened on the context's framebuffer, the trees below
    /// the scene's roots are drawn in order, the render pass is closed. An
    /// index that names no scene is refused before anything is recorded.
    pub fn draw_scene(&self, context: InitializationDrawContext, scene_index: usize) -> (result:
        Result<Vec<DrawCommand>, ModelDrawError>)
        ensures
            match result {
                Ok(commands) => scene_index < self.document().scenes().len() && commands@
                    == scene_commands(self.document(), context, scene_index as int),
                Err(error) => scene_index >= self.document().scenes().len() && error
                    == (ModelDrawError::InvalidSceneIndex { index: scene_index }),
            },
    {
        proof {
            use_type_invariant(self);
        }
        let scenes = self.document.scene_list();
        if scene_index >= scenes.len() {
            return Err(ModelDrawError::InvalidSceneIndex { index: scene_index });
        }
        let draw_context = DrawContext {
            pipeline: context.pipeline,
            main_descriptor_set: context.main_descriptor_set,
        };
        let mut commands: Vec<DrawCommand> = Vec::new();
        commands.push(DrawCommand::BeginRenderPass { framebuffer: context.framebuffer });
        let ghost opened = commands@;
        let roots = &scenes[scene_index].nodes;
        let mut j: usize = 0;
        while j < roots.len()
            invariant
                self.wf(),
                scene_index < self.document().scenes().len(),
                roots@ == self.document().scenes()[scene_index as int].nodes@,
                j <= roots@.len(),
                commands@ == opened + roots_commands(
                    self.document(),
                    draw_context,
                    scene_index as int,
                    j as int,
                ),
            decreases roots@.len() - j,
        {
            let root = roots[j];
            proof {
                assert(root == crate::document::root_at(
                    self.document().scenes(),
                    scene_index as int,
                    j as int,
                ));
            }
            commands = self.draw_node(root, commands, &draw_context);
            j += 1;
        }
        commands.push(DrawCommand::EndRenderPass);
        Ok(commands)
    }

    /// Builds the command sequence that draws the document's default scene,
    /// or reports that the document names none.
    pub fn draw_main_scene(&self, context: InitializationDrawContext) -> (result: Result<
        Vec<DrawCommand>,
        ModelDrawError,
    >)
        ensures
            match result {
                Ok(commands) => self.document().default_scene() matches Some(scene) && commands@
                    == scene_commands(self.document(), context, scene as int),
                Err(error) => self.document().default_scene() is None && error
                    == ModelDrawError::NoDefaultScene,
            },
    {
        proof {
            use_type_invariant(self);
        }
        match self.document.main_scene() {
            Some(scene) => self.draw_scene(context, scene),
            None => Err(ModelDrawError::NoDefaultScene),
        }
    }
}

/// The slice names an existing buffer and lies inside it.
pub open spec fn slice_in_bounds(slice: BufferSlice, buffers: Seq<BufferAllocation>) -> bool {
    slice.buffer < buffers.len() && slice.start <= slice.end <= buffers[slice.buffer as int].size
}

/// An asset in which some material lacks an explicit index is rejected for
/// that reason, whatever else is wrong with it, so nothing is planned for it.
pub proof fn lemma_implicit_material_is_rejected(
    document: SceneDocument,
    buffers: Seq<Vec<u8>>,
    images: Seq<ImageData>,
    material: int,
)
    requires
        0 <= material < document.materials().len(),
        document.materials()[material].index is None,
    ensures
        import_failure(document, buffers, images) == Some(ImportError::ImplicitMaterial),
{
}

/// An asset with a primitive whose accessor reaches past the end of its
/// buffer, or names a buffer that does not exist, is rejected.
pub proof fn lemma_out_of_bounds_is_rejected(
    document: SceneDocument,
    buffers: Seq<Vec<u8>>,
    images: Seq<ImageData>,
    mesh: int,
    slot: int,
)
    requires
        is_primitive(document.meshes(), mesh, slot),
        !primitive_in_bounds(primitive_at(document.meshes(), mesh, slot), imported_buffers(buffers)),
    ensures
        import_failure(document, buffers, images) is Some,
{
}

impl Model {
    /// No model holds a primitive whose accessors reach outside their
    /// buffers: the slices of every draw are exactly the byte ranges its
    /// accessors describe, those ranges lie inside the model's buffers, and
    /// the position records and indices the draw reads end inside them.
    pub proof fn lemma_draws_stay_in_bounds(self, primitive: Primitive)
        requires
            self.wf(),
            contains_primitive(self.document().meshes(), primitive),
        ensures
            primitive_in_bounds(primitive, self.device_buffers()),
            slice_in_bounds(primitive.positions.slice_spec(), self.device_buffers()),
            primitive.positions.slice_spec().start == primitive.positions.byte_start(),
            primitive.positions.slice_spec().end == primitive.positions.byte_end(),
            primitive.positions.byte_start() + record_count(
                primitive.positions,
                POSITION_SIZE as int,
            ) * POSITION_SIZE <= self.device_buffers()[primitive.positions.buffer as int].size,
            primitive.indices matches Some(indices) ==> {
                &&& slice_in_bounds(indices.slice_spec(), self.device_buffers())
                &&& indices.slice_spec().start == indices.byte_start()
                &&& indices.slice_spec().end == indices.byte_end()
                &&& is_index_accessor(indices)
                &&& indices.byte_start() + record_count(
                    indices,
                    index_type_of(indices).byte_size() as int,
                ) * index_type_of(indices).byte_size()
                    <= self.device_buffers()[indices.buffer as int].size
            },
    {
        lemma_draw_reads_whole_records(primitive.positions, POSITION_SIZE as int);
        if let Some(indices) = primitive.indices {
            lemma_draw_reads_whole_records(indices, index_type_of(indices).byte_size() as int);
        }
        let (mesh, slot) = choose|mesh: int, slot: int|
            is_primitive(self.document().meshes(), mesh, slot) && #[trigger] primitive_at(
                self.document().meshes(),
                mesh,
                slot,
            ) == primitive;
        lemma_fitting_accessor_slice(
            primitive.positions,
            self.device_buffers()[primitive.positions.buffer as int].size,
        );
        if let Some(indices) = primitive.indices {
            lemma_fitting_accessor_slice(
                indices,
                self.device_buffers()[indices.buffer as int].size,
            );
        }
    }
}

/// The slice of an accessor that fits its buffer starts and ends where the
/// accessor's data does.
proof fn lemma_fitting_accessor_slice(accessor: Accessor, size: usize)
    requires
        accessor.fits(size as int),
    ensures
        accessor.slice_spec().start == accessor.byte_start(),
        accessor.slice_spec().end == accessor.byte_end(),
        accessor.slice_spec().start <= accessor.slice_spec().end <= size,
        accessor.slice_spec().end - accessor.slice_spec().start == accessor.byte_len(),
{
}

/// The records a draw reads lie inside the byte range of its accessor: a
/// plain draw reads `vertex_count` position records from the start of the
/// position data, an indexed draw `index_count` indices from the start of
/// the index data, and neither reaches past the end of that data.
pub proof fn lemma_draw_reads_whole_records(accessor: Accessor, record_size: int)
    requires
        record_size > 0,
    ensures
        0 <= record_count(accessor, record_size),
        record_count(accessor, record_size) * record_size <= accessor.byte_len(),
        accessor.byte_len() < (record_count(accessor, record_size) + 1) * record_size,
        accessor.element_size() == record_size ==> record_count(accessor, record_size)
            == accessor.count,
{
    let len = accessor.byte_len();
    assert(0 <= len / record_size && (len / record_size) * record_size <= len && len < (len
        / record_size + 1) * record_size) by (nonlinear_arith)
        requires
            len >= 0,
            record_size > 0,
    ;
    if accessor.element_size() == record_size {
        assert((record_size * accessor.count) / record_size == accessor.count) by (nonlinear_arith)
            requires
                record_size > 0,
        ;
    }
}

} // verus!
