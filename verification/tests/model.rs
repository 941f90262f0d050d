use scene_model::accessor::{Accessor, DataType, Dimensions};
use scene_model::document::{Material, Mesh, Node, Primitive, Scene, SceneDocument};
use scene_model::error::{ImportError, ModelInitializationError};
use scene_model::model::{Model, MATERIAL_SET, NODE_SET};
use scene_model::resources::{
    BufferAllocation, BufferUsage, ImageData, MaterialDescriptorSet, NodeDescriptorSet,
    PixelFormat, TexelFormat,
};
use scene_model::task::{InitializationTask, UploadCommand};
use scene_model::transform::WorldTransform;

fn positions(count: usize) -> Accessor {
    Accessor {
        buffer: 0,
        view_offset: 0,
        offset: 0,
        count,
        data_type: DataType::F32,
        dimensions: Dimensions::Vec3,
    }
}

fn indices(data_type: DataType, count: usize) -> Accessor {
    Accessor {
        buffer: 0,
        view_offset: 48,
        offset: 0,
        count,
        data_type,
        dimensions: Dimensions::Scalar,
    }
}

fn primitive(indices: Option<Accessor>, material: Option<usize>) -> Primitive {
    Primitive { positions: positions(4), indices, material }
}

fn material(index: Option<usize>, base_color_texture: Option<usize>) -> Material {
    Material { index, base_color_texture }
}

fn document(primitives: Vec<Primitive>, materials: Vec<Material>) -> SceneDocument {
    SceneDocument::new(
        vec![
            Node { children: vec![1], mesh: Some(0) },
            Node { children: vec![], mesh: None },
            Node { children: vec![], mesh: None },
        ],
        vec![Mesh { primitives }],
        materials,
        vec![Scene { nodes: vec![0] }],
        Some(0),
    )
    .unwrap()
}

fn image(width: u32, height: u32) -> ImageData {
    ImageData { format: PixelFormat::R8G8B8A8, width, height, pixels: vec![7; 4] }
}

fn quad() -> SceneDocument {
    document(
        vec![primitive(Some(indices(DataType::U16, 6)), Some(0))],
        vec![material(Some(0), None), material(Some(1), Some(1))],
    )
}

fn import_quad() -> Model {
    Model::import(9, quad(), vec![vec![1; 60], vec![2; 3]], vec![image(4, 4), image(8, 2)]).unwrap()
}

#[test]
fn import_plans_one_buffer_per_source_buffer() {
    let model = import_quad();
    assert_eq!(
        model.planned_buffers(),
        &vec![
            BufferAllocation { size: 60, usage: BufferUsage::for_imported_buffer() },
            BufferAllocation { size: 3, usage: BufferUsage::for_imported_buffer() },
        ]
    );
}

#[test]
fn import_plans_one_image_per_source_image() {
    let model = import_quad();
    let images = model.planned_images();
    assert_eq!(images.len(), 2);
    assert_eq!(images[0], image(4, 4).allocation());
    assert_eq!(images[1], image(8, 2).allocation());
    assert_eq!(images[0].format, TexelFormat::R8G8B8A8Srgb);
    assert_eq!((images[0].width, images[0].height, images[0].mip_levels), (4, 4, 3));
    assert_eq!((images[1].width, images[1].height, images[1].mip_levels), (8, 2, 4));
}

#[test]
fn import_plans_one_descriptor_set_per_node_and_material() {
    let model = import_quad();
    let uniform = BufferUsage::uniform_buffer_transfer_destination();
    assert_eq!((NODE_SET, MATERIAL_SET), (1, 2));
    assert_eq!(
        model.planned_node_sets(),
        &vec![
            NodeDescriptorSet { pipeline: 9, set: 1, uniform_usage: uniform, node: 0 },
            NodeDescriptorSet { pipeline: 9, set: 1, uniform_usage: uniform, node: 1 },
            NodeDescriptorSet { pipeline: 9, set: 1, uniform_usage: uniform, node: 2 },
        ]
    );
    assert_eq!(
        model.planned_material_sets(),
        &vec![
            MaterialDescriptorSet {
                pipeline: 9,
                set: 2,
                uniform_usage: uniform,
                material: 0,
                base_color_image: 0,
            },
            MaterialDescriptorSet {
                pipeline: 9,
                set: 2,
                uniform_usage: uniform,
                material: 1,
                base_color_image: 1,
            },
        ]
    );
}

#[test]
fn import_keeps_the_document() {
    let model = import_quad();
    assert_eq!(model.asset().node_list(), quad().node_list());
    assert_eq!(model.asset().mesh_list(), quad().mesh_list());
    assert_eq!(model.asset().material_list(), quad().material_list());
    assert_eq!(model.asset().main_scene(), Some(0));
}

#[test]
fn initialize_records_every_upload_in_queue_order() {
    let mut model = import_quad();
    assert!(!model.is_initialized());
    let all = BufferUsage::all();
    let commands = model.initialize(Vec::new()).unwrap();
    assert_eq!(
        commands,
        vec![
            UploadCommand::CopyBuffer { staging_usage: all, data: vec![1; 60], buffer: 0 },
            UploadCommand::CopyBuffer { staging_usage: all, data: vec![2; 3], buffer: 1 },
            UploadCommand::CopyBufferToImage {
                staging_usage: BufferUsage::transfer_source(),
                texels: vec![7; 4],
                image: 0,
            },
            UploadCommand::CopyBufferToImage {
                staging_usage: BufferUsage::transfer_source(),
                texels: vec![7; 4],
                image: 1,
            },
            UploadCommand::CopyNodeUniform {
                staging_usage: all,
                transform: WorldTransform::Local,
                node: 0,
            },
            UploadCommand::CopyNodeUniform {
                staging_usage: all,
                transform: WorldTransform::Compose { parent: 0 },
                node: 1,
            },
            UploadCommand::CopyNodeUniform {
                staging_usage: all,
                transform: WorldTransform::Identity,
                node: 2,
            },
            UploadCommand::CopyMaterialUniform { staging_usage: all, material: 0 },
            UploadCommand::CopyMaterialUniform { staging_usage: all, material: 1 },
        ]
    );
    assert!(model.is_initialized());
}

#[test]
fn initialize_appends_to_the_commands_it_is_given() {
    let mut model =
        Model::import(0, document(vec![], vec![]), vec![vec![5]], vec![]).unwrap();
    let earlier = UploadCommand::CopyMaterialUniform { staging_usage: BufferUsage::none(), material: 77 };
    let commands = model.initialize(vec![earlier.clone()]).unwrap();
    assert_eq!(commands.len(), 5);
    assert_eq!(commands[0], earlier);
    assert_eq!(
        commands[1],
        UploadCommand::CopyBuffer { staging_usage: BufferUsage::all(), data: vec![5], buffer: 0 }
    );
}

#[test]
fn initialize_twice_is_refused_and_records_nothing() {
    let mut model = import_quad();
    assert!(model.initialize(Vec::new()).is_ok());
    assert_eq!(
        model.initialize(Vec::new()),
        Err(ModelInitializationError::ModelAlreadyInitialized)
    );
    assert_eq!(
        model.initialize(vec![UploadCommand::CopyMaterialUniform {
            staging_usage: BufferUsage::all(),
            material: 0,
        }]),
        Err(ModelInitializationError::ModelAlreadyInitialized)
    );
    assert!(model.is_initialized());
    assert_eq!(model.planned_buffers().len(), 2);
    assert_eq!(model.planned_node_sets().len(), 3);
}

#[test]
fn task_stages_its_payload_and_appends_one_copy() {
    let all = BufferUsage::all();
    let task = InitializationTask::Buffer { index: 3, data: vec![1, 2] };
    assert_eq!(task.index(), 3);
    assert_eq!(
        task.initialize(Vec::new()),
        vec![UploadCommand::CopyBuffer { staging_usage: all, data: vec![1, 2], buffer: 3 }]
    );
    let task = InitializationTask::Image { index: 1, data: image(1, 1) };
    assert_eq!(task.index(), 1);
    assert_eq!(
        task.initialize(Vec::new()),
        vec![UploadCommand::CopyBufferToImage {
            staging_usage: BufferUsage::transfer_source(),
            texels: vec![7; 4],
            image: 1,
        }]
    );
    let task = InitializationTask::NodeDescriptorSet { index: 4, data: WorldTransform::Local };
    assert_eq!(task.index(), 4);
    assert_eq!(
        task.initialize(Vec::new()),
        vec![UploadCommand::CopyNodeUniform {
            staging_usage: all,
            transform: WorldTransform::Local,
            node: 4,
        }]
    );
    let task = InitializationTask::MaterialDescriptorSet { index: 6 };
    assert_eq!(task.index(), 6);
    let earlier = UploadCommand::CopyMaterialUniform { staging_usage: all, material: 5 };
    assert_eq!(
        task.initialize(vec![earlier.clone()]),
        vec![earlier, UploadCommand::CopyMaterialUniform { staging_usage: all, material: 6 }]
    );
}

fn import_error(document: SceneDocument, buffer_len: usize, images: usize) -> ImportError {
    let images = (0..images).map(|_| image(1, 1)).collect();
    Model::import(0, document, vec![vec![0; buffer_len]], images).unwrap_err()
}

#[test]
fn material_without_explicit_index_fails_import() {
    let document = document(vec![], vec![material(Some(0), None), material(None, None)]);
    assert_eq!(import_error(document, 60, 1), ImportError::ImplicitMaterial);
}

#[test]
fn material_with_foreign_index_fails_import() {
    let document = document(vec![], vec![material(Some(1), None), material(Some(0), None)]);
    assert_eq!(import_error(document, 60, 1), ImportError::ImplicitMaterial);
}

#[test]
fn primitive_with_default_material_fails_import() {
    let document = document(vec![primitive(None, None)], vec![material(Some(0), None)]);
    assert_eq!(import_error(document, 60, 1), ImportError::ImplicitMaterial);
}

#[test]
fn material_without_texture_needs_image_zero() {
    let document = document(vec![], vec![material(Some(0), None)]);
    assert_eq!(import_error(document, 60, 0), ImportError::MissingTexture);
}

#[test]
fn material_with_missing_texture_fails_import() {
    let document = document(vec![], vec![material(Some(0), Some(2))]);
    assert_eq!(import_error(document, 60, 2), ImportError::MissingTexture);
}

#[test]
fn accessor_past_buffer_end_fails_import() {
    let indexed = document_from(vec![primitive(Some(indices(DataType::U16, 6)), Some(0))]);
    assert_eq!(import_error(indexed, 59, 1), ImportError::AccessorOutOfBounds);
    let plain = document_with_positions_only();
    assert_eq!(import_error(plain, 47, 1), ImportError::AccessorOutOfBounds);
}

fn document_with_positions_only() -> SceneDocument {
    document(vec![primitive(None, Some(0))], vec![material(Some(0), None)])
}

#[test]
fn accessor_ending_at_buffer_end_is_accepted() {
    let images = vec![image(1, 1)];
    assert!(Model::import(0, document_with_positions_only(), vec![vec![0; 48]], images).is_ok());
}

#[test]
fn accessor_in_missing_buffer_fails_import() {
    let mut far = positions(4);
    far.buffer = 1;
    let document = document(
        vec![Primitive { positions: far, indices: None, material: Some(0) }],
        vec![material(Some(0), None)],
    );
    assert_eq!(import_error(document, 1000, 1), ImportError::AccessorOutOfBounds);
}

#[test]
fn index_types_other_than_u16_and_u32_fail_import() {
    for data_type in [DataType::I8, DataType::U8, DataType::I16, DataType::F32] {
        let document = document(
            vec![primitive(Some(indices(data_type, 3)), Some(0))],
            vec![material(Some(0), None)],
        );
        assert_eq!(import_error(document, 60, 1), ImportError::UnsupportedIndexType);
    }
    for data_type in [DataType::U16, DataType::U32] {
        let document = document(
            vec![primitive(Some(indices(data_type, 3)), Some(0))],
            vec![material(Some(0), None)],
        );
        assert!(Model::import(0, document, vec![vec![0; 60]], vec![image(1, 1)]).is_ok());
    }
}

#[test]
fn faults_are_reported_in_a_fixed_order() {
    // Implicit material, missing texture, accessor out of bounds and a bad
    // index type all at once.
    let primitives = vec![primitive(Some(indices(DataType::U8, 100)), None)];
    let first = document(primitives, vec![material(Some(0), Some(5))]);
    assert_eq!(import_error(first, 10, 0), ImportError::ImplicitMaterial);
    let primitives = vec![primitive(Some(indices(DataType::U8, 100)), Some(0))];
    let second = document(primitives.clone(), vec![material(Some(0), Some(5))]);
    assert_eq!(import_error(second, 10, 0), ImportError::MissingTexture);
    let third = document_from(primitives.clone());
    assert_eq!(import_error(third, 10, 1), ImportError::AccessorOutOfBounds);
    let fourth = document_from(primitives);
    assert_eq!(import_error(fourth, 1000, 1), ImportError::UnsupportedIndexType);
}

fn document_from(primitives: Vec<Primitive>) -> SceneDocument {
    document(primitives, vec![material(Some(0), None)])
}

#[test]
fn three_channel_pixels_are_staged_with_opaque_alpha() {
    let data = ImageData {
        format: PixelFormat::R8G8B8,
        width: 2,
        height: 1,
        pixels: vec![1, 2, 3, 4, 5, 6],
    };
    assert_eq!(data.allocation().format, TexelFormat::R8G8B8A8Srgb);
    let task = InitializationTask::Image { index: 0, data };
    assert_eq!(
        task.initialize(Vec::new()),
        vec![UploadCommand::CopyBufferToImage {
            staging_usage: BufferUsage::transfer_source(),
            texels: vec![1, 2, 3, 255, 4, 5, 6, 255],
            image: 0,
        }]
    );
}

#[test]
fn other_pixel_layouts_are_staged_unchanged() {
    for format in [PixelFormat::R8, PixelFormat::R8G8, PixelFormat::R8G8B8A8] {
        let data = ImageData { format, width: 3, height: 4, pixels: vec![9, 8, 7, 6, 5, 4] };
        assert_eq!(data.into_texels(), vec![9, 8, 7, 6, 5, 4]);
    }
}

#[test]
fn tasks_are_named_by_kind_and_index() {
    let tasks = [
        (InitializationTask::Buffer { index: 0, data: vec![] }, "buffer", 0),
        (InitializationTask::Image { index: 2, data: image(1, 1) }, "image", 2),
        (
            InitializationTask::NodeDescriptorSet { index: 5, data: WorldTransform::Identity },
            "node descriptor set",
            5,
        ),
        (InitializationTask::MaterialDescriptorSet { index: 1 }, "material descriptor set", 1),
    ];
    for (task, label, index) in tasks {
        assert_eq!(task.label(), label);
        assert_eq!(task.index(), index);
        assert_eq!(task.description(), format!("{} #{}", label, index));
    }
}

#[test]
fn task_description_names_kind_and_index_without_payload() {
    let buffer = InitializationTask::Buffer { index: 3, data: vec![9; 100] };
    assert_eq!(buffer.description(), "buffer #3");
    let image = InitializationTask::Image { index: 3, data: image(2, 2) };
    assert_eq!(image.description(), "image #3");
    let node = InitializationTask::NodeDescriptorSet {
        index: 3,
        data: WorldTransform::Compose { parent: 8 },
    };
    assert_eq!(node.description(), "node descriptor set #3");
    let material = InitializationTask::MaterialDescriptorSet { index: 3 };
    assert_eq!(material.description(), "material descriptor set #3");
}

#[test]
fn task_description_writes_the_index_in_decimal() {
    for index in [0, 9, 10, 11, 99, 100, 1205, 1_000_000, usize::MAX] {
        let task = InitializationTask::MaterialDescriptorSet { index };
        assert_eq!(task.description(), format!("material descriptor set #{}", index));
    }
}

#[test]
fn empty_buffer_is_allocated_with_one_byte_and_not_copied() {
    let mut model = Model::import(0, document(vec![], vec![]), vec![vec![], vec![4]], vec![])
        .unwrap();
    let planned = model.planned_buffers().clone();
    assert_eq!((planned[0].size, planned[0].allocation_size()), (0, 1));
    assert_eq!((planned[1].size, planned[1].allocation_size()), (1, 1));
    let uploads = model.initialize(Vec::new()).unwrap();
    let skipped: Vec<bool> = uploads.iter().map(|upload| upload.transfers_nothing()).collect();
    assert_eq!(skipped, vec![true, false, false, false, false]);
    let no_texels = UploadCommand::CopyBufferToImage {
        staging_usage: BufferUsage::transfer_source(),
        texels: vec![],
        image: 0,
    };
    assert!(no_texels.transfers_nothing());
}
