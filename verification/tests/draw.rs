use scene_model::accessor::{Accessor, BufferSlice, DataType, Dimensions};
use scene_model::document::{Material, Mesh, Node, Primitive, Scene, SceneDocument};
use scene_model::draw::{
    DescriptorSets, DrawCommand, DrawContext, IndexType, InitializationDrawContext,
};
use scene_model::error::ModelDrawError;
use scene_model::model::Model;
use scene_model::resources::{ImageData, PixelFormat};

const CONTEXT: InitializationDrawContext =
    InitializationDrawContext { framebuffer: 2, pipeline: 5, main_descriptor_set: 11 };

fn positions(offset: usize, count: usize) -> Accessor {
    Accessor {
        buffer: 0,
        view_offset: 0,
        offset,
        count,
        data_type: DataType::F32,
        dimensions: Dimensions::Vec3,
    }
}

fn indices(data_type: DataType, view_offset: usize, count: usize) -> Accessor {
    Accessor { buffer: 1, view_offset, offset: 4, count, data_type, dimensions: Dimensions::Scalar }
}

fn mesh(primitives: Vec<Primitive>) -> Mesh {
    Mesh { primitives }
}

fn node(children: &[usize], mesh: Option<usize>) -> Node {
    Node { children: children.to_vec(), mesh }
}

fn import(
    nodes: Vec<Node>,
    meshes: Vec<Mesh>,
    scenes: Vec<Vec<usize>>,
    default_scene: Option<usize>,
) -> Model {
    let materials = vec![
        Material { index: Some(0), base_color_texture: None },
        Material { index: Some(1), base_color_texture: None },
    ];
    let scenes = scenes.into_iter().map(|nodes| Scene { nodes }).collect();
    let document = SceneDocument::new(nodes, meshes, materials, scenes, default_scene).unwrap();
    let image = ImageData { format: PixelFormat::R8, width: 1, height: 1, pixels: vec![0] };
    Model::import(CONTEXT.pipeline, document, vec![vec![0; 480], vec![0; 100]], vec![image])
        .unwrap()
}

fn indexed_quad() -> Primitive {
    Primitive {
        positions: positions(0, 4),
        indices: Some(indices(DataType::U16, 0, 6)),
        material: Some(1),
    }
}

fn plain_quad() -> Primitive {
    Primitive { positions: positions(48, 4), indices: None, material: Some(0) }
}

fn draw_indexed_quad(node: usize) -> DrawCommand {
    DrawCommand::DrawIndexed {
        pipeline: 5,
        vertices: BufferSlice { buffer: 0, start: 0, end: 48 },
        indices: BufferSlice { buffer: 1, start: 4, end: 16 },
        index_type: IndexType::U16,
        index_count: 6,
        sets: DescriptorSets { frame: 11, node, material: 1 },
    }
}

fn draw_plain_quad(node: usize) -> DrawCommand {
    DrawCommand::Draw {
        pipeline: 5,
        vertices: BufferSlice { buffer: 0, start: 48, end: 96 },
        vertex_count: 4,
        sets: DescriptorSets { frame: 11, node, material: 0 },
    }
}

fn begin() -> DrawCommand {
    DrawCommand::BeginRenderPass { framebuffer: 2 }
}

#[test]
fn indexed_primitive_is_drawn_once_with_all_its_indices() {
    let model = import(vec![node(&[], Some(0))], vec![mesh(vec![indexed_quad()])], vec![vec![0]], None);
    assert_eq!(
        model.draw_scene(CONTEXT, 0),
        Ok(vec![begin(), draw_indexed_quad(0), DrawCommand::EndRenderPass])
    );
}

#[test]
fn primitive_without_indices_is_drawn_once_with_all_its_vertices() {
    let model = import(vec![node(&[], Some(0))], vec![mesh(vec![plain_quad()])], vec![vec![0]], None);
    assert_eq!(
        model.draw_scene(CONTEXT, 0),
        Ok(vec![begin(), draw_plain_quad(0), DrawCommand::EndRenderPass])
    );
}

#[test]
fn u32_indices_are_read_as_u32() {
    let primitive = Primitive {
        positions: positions(0, 3),
        indices: Some(indices(DataType::U32, 8, 5)),
        material: Some(0),
    };
    let model = import(vec![node(&[], Some(0))], vec![mesh(vec![primitive])], vec![vec![0]], None);
    assert_eq!(
        model.draw_scene(CONTEXT, 0),
        Ok(vec![
            begin(),
            DrawCommand::DrawIndexed {
                pipeline: 5,
                vertices: BufferSlice { buffer: 0, start: 0, end: 36 },
                indices: BufferSlice { buffer: 1, start: 12, end: 32 },
                index_type: IndexType::U32,
                index_count: 5,
                sets: DescriptorSets { frame: 11, node: 0, material: 0 },
            },
            DrawCommand::EndRenderPass,
        ])
    );
}

#[test]
fn scene_index_equal_to_scene_count_is_invalid() {
    let model = import(vec![node(&[], None)], vec![], vec![vec![0], vec![]], None);
    assert_eq!(
        model.draw_scene(CONTEXT, 2),
        Err(ModelDrawError::InvalidSceneIndex { index: 2 })
    );
    assert_eq!(
        model.draw_scene(CONTEXT, usize::MAX),
        Err(ModelDrawError::InvalidSceneIndex { index: usize::MAX })
    );
    assert!(model.draw_scene(CONTEXT, 1).is_ok());
}

#[test]
fn document_without_scenes_has_no_valid_scene_index() {
    let model = import(vec![], vec![], vec![], None);
    assert_eq!(
        model.draw_scene(CONTEXT, 0),
        Err(ModelDrawError::InvalidSceneIndex { index: 0 })
    );
}

#[test]
fn main_scene_is_missing_without_default_scene() {
    let model = import(vec![node(&[], None)], vec![], vec![vec![0]], None);
    assert_eq!(model.draw_main_scene(CONTEXT), Err(ModelDrawError::NoDefaultScene));
}

#[test]
fn main_scene_is_the_default_scene() {
    let model = import(
        vec![node(&[], Some(0)), node(&[], Some(1))],
        vec![mesh(vec![indexed_quad()]), mesh(vec![plain_quad()])],
        vec![vec![0], vec![1]],
        Some(1),
    );
    assert_eq!(model.draw_main_scene(CONTEXT), model.draw_scene(CONTEXT, 1));
    assert_eq!(
        model.draw_main_scene(CONTEXT),
        Ok(vec![begin(), draw_plain_quad(1), DrawCommand::EndRenderPass])
    );
}

#[test]
fn empty_scene_only_opens_and_closes_the_render_pass() {
    let model = import(vec![node(&[], Some(0))], vec![mesh(vec![plain_quad()])], vec![vec![]], None);
    assert_eq!(model.draw_scene(CONTEXT, 0), Ok(vec![begin(), DrawCommand::EndRenderPass]));
}

#[test]
fn traversal_is_depth_first_in_document_order() {
    // scene: roots 4, 0;  0 -> 2 -> 1;  0 -> 3
    let model = import(
        vec![
            node(&[2, 3], Some(0)),
            node(&[], Some(1)),
            node(&[1], None),
            node(&[], Some(0)),
            node(&[], Some(1)),
        ],
        vec![mesh(vec![indexed_quad(), plain_quad()]), mesh(vec![plain_quad()])],
        vec![vec![4, 0]],
        None,
    );
    assert_eq!(
        model.draw_scene(CONTEXT, 0),
        Ok(vec![
            begin(),
            draw_plain_quad(4),
            draw_indexed_quad(0),
            draw_plain_quad(0),
            draw_plain_quad(1),
            draw_indexed_quad(3),
            draw_plain_quad(3),
            DrawCommand::EndRenderPass,
        ])
    );
}

#[test]
fn root_listed_twice_is_drawn_twice() {
    let model =
        import(vec![node(&[], Some(0))], vec![mesh(vec![plain_quad()])], vec![vec![0, 0]], None);
    assert_eq!(
        model.draw_scene(CONTEXT, 0),
        Ok(vec![begin(), draw_plain_quad(0), draw_plain_quad(0), DrawCommand::EndRenderPass])
    );
}

#[test]
fn draw_node_appends_the_subtree_to_given_commands() {
    let model = import(
        vec![node(&[1], Some(0)), node(&[], Some(0)), node(&[], Some(0))],
        vec![mesh(vec![plain_quad()])],
        vec![vec![0]],
        None,
    );
    let context = DrawContext { pipeline: 5, main_descriptor_set: 11 };
    assert_eq!(
        model.draw_node(0, vec![DrawCommand::EndRenderPass], &context),
        vec![DrawCommand::EndRenderPass, draw_plain_quad(0), draw_plain_quad(1)]
    );
    assert_eq!(model.draw_node(2, Vec::new(), &context), vec![draw_plain_quad(2)]);
    assert_eq!(model.draw_node(1, Vec::new(), &context), vec![draw_plain_quad(1)]);
}

#[test]
fn draw_primitive_binds_the_sets_it_is_given() {
    let model = import(
        vec![node(&[], Some(0))],
        vec![mesh(vec![plain_quad(), indexed_quad()])],
        vec![vec![0]],
        None,
    );
    let context = DrawContext { pipeline: 8, main_descriptor_set: 1 };
    let sets = DescriptorSets { frame: 1, node: 0, material: 0 };
    let primitives = &model.asset().mesh_list()[0].primitives;
    assert_eq!(
        model.draw_primitive(&primitives[0], Vec::new(), &context, sets),
        vec![DrawCommand::Draw {
            pipeline: 8,
            vertices: BufferSlice { buffer: 0, start: 48, end: 96 },
            vertex_count: 4,
            sets,
        }]
    );
    assert_eq!(
        model.draw_primitive(&primitives[1], vec![begin()], &context, sets),
        vec![
            begin(),
            DrawCommand::DrawIndexed {
                pipeline: 8,
                vertices: BufferSlice { buffer: 0, start: 0, end: 48 },
                indices: BufferSlice { buffer: 1, start: 4, end: 16 },
                index_type: IndexType::U16,
                index_count: 6,
                sets,
            },
        ]
    );
}

#[test]
fn counts_are_whole_records_of_the_data_whatever_shape_is_declared() {
    // 6 two-float elements are 48 bytes: 4 position records.
    let positions = Accessor {
        buffer: 0,
        view_offset: 0,
        offset: 48,
        count: 6,
        data_type: DataType::F32,
        dimensions: Dimensions::Vec2,
    };
    // 3 pairs of 16-bit integers are 12 bytes: 6 indices.
    let indices = Accessor {
        buffer: 1,
        view_offset: 0,
        offset: 4,
        count: 3,
        data_type: DataType::U16,
        dimensions: Dimensions::Vec2,
    };
    let plain = Primitive { positions, indices: None, material: Some(0) };
    let indexed = Primitive { positions, indices: Some(indices), material: Some(0) };
    let model = import(
        vec![node(&[], Some(0))],
        vec![mesh(vec![plain, indexed])],
        vec![vec![0]],
        None,
    );
    assert_eq!(
        model.draw_scene(CONTEXT, 0),
        Ok(vec![
            begin(),
            draw_plain_quad(0),
            DrawCommand::DrawIndexed {
                pipeline: 5,
                vertices: BufferSlice { buffer: 0, start: 48, end: 96 },
                indices: BufferSlice { buffer: 1, start: 4, end: 16 },
                index_type: IndexType::U16,
                index_count: 6,
                sets: DescriptorSets { frame: 11, node: 0, material: 0 },
            },
            DrawCommand::EndRenderPass,
        ])
    );
}

#[test]
fn data_short_of_a_record_is_not_drawn_past_its_end() {
    // 10 single bytes hold no whole 12-byte position; 25 bytes hold two.
    let short = Accessor {
        buffer: 0,
        view_offset: 0,
        offset: 0,
        count: 10,
        data_type: DataType::U8,
        dimensions: Dimensions::Scalar,
    };
    let odd = Accessor { count: 25, ..short };
    let model = import(
        vec![node(&[], Some(0))],
        vec![mesh(vec![
            Primitive { positions: short, indices: None, material: Some(0) },
            Primitive { positions: odd, indices: None, material: Some(0) },
        ])],
        vec![vec![0]],
        None,
    );
    let sets = DescriptorSets { frame: 11, node: 0, material: 0 };
    assert_eq!(
        model.draw_scene(CONTEXT, 0),
        Ok(vec![
            begin(),
            DrawCommand::Draw {
                pipeline: 5,
                vertices: BufferSlice { buffer: 0, start: 0, end: 10 },
                vertex_count: 0,
                sets,
            },
            DrawCommand::Draw {
                pipeline: 5,
                vertices: BufferSlice { buffer: 0, start: 0, end: 25 },
                vertex_count: 2,
                sets,
            },
            DrawCommand::EndRenderPass,
        ])
    );
}

#[test]
fn index_types_have_their_sizes() {
    assert_eq!(IndexType::U16.size(), 2);
    assert_eq!(IndexType::U32.size(), 4);
    assert_eq!(scene_model::draw::POSITION_SIZE, 12);
}
