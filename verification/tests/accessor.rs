use scene_model::accessor::{Accessor, BufferSlice, DataType, Dimensions};

fn accessor(data_type: DataType, dimensions: Dimensions, count: usize) -> Accessor {
    Accessor { buffer: 0, view_offset: 0, offset: 0, count, data_type, dimensions }
}

#[test]
fn element_size_of_every_component_type() {
    let sizes = [
        (DataType::I8, 1),
        (DataType::U8, 1),
        (DataType::I16, 2),
        (DataType::U16, 2),
        (DataType::U32, 4),
        (DataType::F32, 4),
    ];
    for (data_type, bytes) in sizes {
        assert_eq!(accessor(data_type, Dimensions::Scalar, 1).size(), bytes);
    }
}

#[test]
fn element_size_of_every_shape() {
    let shapes = [
        (Dimensions::Scalar, 1),
        (Dimensions::Vec2, 2),
        (Dimensions::Vec3, 3),
        (Dimensions::Vec4, 4),
        (Dimensions::Mat2, 4),
        (Dimensions::Mat3, 9),
        (Dimensions::Mat4, 16),
    ];
    for (dimensions, components) in shapes {
        assert_eq!(accessor(DataType::U8, dimensions, 1).size(), components);
        assert_eq!(accessor(DataType::F32, dimensions, 1).size(), 4 * components);
    }
}

#[test]
fn position_accessor_covers_twelve_bytes_per_vertex() {
    let positions = Accessor {
        buffer: 3,
        view_offset: 100,
        offset: 20,
        count: 4,
        data_type: DataType::F32,
        dimensions: Dimensions::Vec3,
    };
    assert_eq!(positions.size(), 12);
    assert_eq!(positions.slice(168), Some(BufferSlice { buffer: 3, start: 120, end: 168 }));
    assert_eq!(positions.slice(1000), Some(BufferSlice { buffer: 3, start: 120, end: 168 }));
}

#[test]
fn accessor_past_the_end_is_rejected_not_truncated() {
    let positions = Accessor {
        buffer: 0,
        view_offset: 100,
        offset: 20,
        count: 4,
        data_type: DataType::F32,
        dimensions: Dimensions::Vec3,
    };
    assert_eq!(positions.slice(167), None);
    assert_eq!(positions.slice(120), None);
    assert_eq!(positions.slice(0), None);
}

#[test]
fn empty_accessor_fits_at_the_very_end() {
    let mut empty = accessor(DataType::U16, Dimensions::Scalar, 0);
    empty.offset = 10;
    assert_eq!(empty.slice(10), Some(BufferSlice { buffer: 0, start: 10, end: 10 }));
    assert_eq!(empty.slice(9), None);
}

#[test]
fn accessor_whose_range_overflows_is_rejected() {
    let mut huge = accessor(DataType::U32, Dimensions::Mat4, usize::MAX);
    assert_eq!(huge.slice(usize::MAX), None);
    huge.count = 1;
    huge.offset = usize::MAX;
    huge.view_offset = 1;
    assert_eq!(huge.slice(usize::MAX), None);
    huge.view_offset = 0;
    assert_eq!(huge.slice(usize::MAX), None);
}
