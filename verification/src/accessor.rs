//! Typed views into buffers: element types, element sizes and byte ranges.
use vstd::prelude::*;

verus! {

/// The component type of an accessor's elements.
#[derive(Clone, Copy, Debug, PartialEq, Eq, Structural)]
pub enum DataType {
    I8,
    U8,
    I16,
    U16,
    U32,
    F32,
}

/// The shape of an accessor's elements.
#[derive(Clone, Copy, Debug, PartialEq, Eq, Structural)]
pub enum Dimensions {
    Scalar,
    Vec2,
    Vec3,
    Vec4,
    Mat2,
    Mat3,
    Mat4,
}

impl DataType {
    /// Number of bytes one component of this type occupies.
    pub open spec fn byte_size(self) -> nat {
        match self {
            DataType::I8 | DataType::U8 => 1,
            DataType::I16 | DataType::U16 => 2,
            DataType::U32 | DataType::F32 => 4,
        }
    }

    /// Number of bytes one component of this type occupies.
    ///
    /// Calls `gltf::accessor::DataType::size` (the `size` method of
    /// `ComponentType` in `gltf-json`) on the matching variant. The contract
    /// restates the table that method implements and is taken on trust.
    #[verifier::external_body]
    pub(crate) fn size(self) -> (bytes: usize)
        ensures
            bytes == self.byte_size(),
    {
        let outside = match self {
            DataType::I8 => gltf::accessor::DataType::I8,
            DataType::U8 => gltf::accessor::DataType::U8,
            DataType::I16 => gltf::accessor::DataType::I16,
            DataType::U16 => gltf::accessor::DataType::U16,
            DataType::U32 => gltf::accessor::DataType::U32,
            DataType::F32 => gltf::accessor::DataType::F32,
        };
        outside.size()
    }
}

impl Dimensions {
    /// Number of scalar components in one element of this shape.
    pub open spec fn component_count(self) -> nat {
        match self {
            Dimensions::Scalar => 1,
            Dimensions::Vec2 => 2,
            Dimensions::Vec3 => 3,
            Dimensions::Vec4 | Dimensions::Mat2 => 4,
            Dimensions::Mat3 => 9,
            Dimensions::Mat4 => 16,
        }
    }

    /// Number of scalar components in one element of this shape.
    ///
    /// Calls `gltf::accessor::Dimensions::multiplicity` (the `multiplicity`
    /// method of `Type` in `gltf-json`) on the matching variant. The contract
    /// restates the table that method implements and is taken on trust.
    #[verifier::external_body]
    pub(crate) fn multiplicity(self) -> (components: usize)
        ensures
            components == self.component_count(),
    {
        let outside = match self {
            Dimensions::Scalar => gltf::accessor::Dimensions::Scalar,
            Dimensions::Vec2 => gltf::accessor::Dimensions::Vec2,
            Dimensions::Vec3 => gltf::accessor::Dimensions::Vec3,
            Dimensions::Vec4 => gltf::accessor::Dimensions::Vec4,
            Dimensions::Mat2 => gltf::accessor::Dimensions::Mat2,
            Dimensions::Mat3 => gltf::accessor::Dimensions::Mat3,
            Dimensions::Mat4 => gltf::accessor::Dimensions::Mat4,
        };
        outside.multiplicity()
    }
}

/// A typed view into one buffer, with the buffer view it reads through
/// already resolved to plain numbers.
#[derive(Clone, Copy, Debug, PartialEq, Eq, Structural)]
pub struct Accessor {
    /// Index of the buffer the elements live in.
    pub buffer: usize,
    /// Byte offset of the buffer view within the buffer.
    pub view_offset: usize,
    /// Byte offset of the first element within the buffer view.
    pub offset: usize,
    /// Number of elements.
    pub count: usize,
    /// Component type of each element.
    pub data_type: DataType,
    /// Shape of each element.
    pub dimensions: Dimensions,
}

/// A contiguous range of bytes inside one device buffer.
#[derive(Clone, Copy, Debug, PartialEq, Eq, Structural)]
pub struct BufferSlice {
    /// Index of the device buffer.
    pub buffer: usize,
    /// First byte of the range.
    pub start: usize,
    /// One past the last byte of the range.
    pub end: usize,
}

impl Accessor {
    /// Number of bytes one element occupies.
    pub open spec fn element_size(self) -> nat {
        self.data_type.byte_size() * self.dimensions.component_count()
    }

    /// First byte of the accessor's data within its buffer.
    pub open spec fn byte_start(self) -> int {
        self.offset + self.view_offset
    }

    /// Number of bytes the accessor's data occupies.
    pub open spec fn byte_len(self) -> int {
        self.element_size() * self.count
    }

    /// One past the last byte of the accessor's data within its buffer.
    pub open spec fn byte_end(self) -> int {
        self.byte_start() + self.byte_len()
    }

    /// Whether the accessor's data lies inside a buffer of `buffer_len` bytes.
    pub open spec fn fits(self, buffer_len: int) -> bool {
        self.byte_end() <= buffer_len
    }

    /// The byte range the accessor covers, as a slice of its buffer.
    pub open spec fn slice_spec(self) -> BufferSlice
        recommends
            self.byte_end() <= usize::MAX,
    {
        BufferSlice {
            buffer: self.buffer,
            start: self.byte_start() as usize,
            end: self.byte_end() as usize,
        }
    }

    /// Number of bytes one element occupies.
    pub fn size(&self) -> (bytes: usize)
        ensures
            bytes == self.element_size(),
            1 <= bytes <= 64,
    {
        let component: usize = self.data_type.size();
        let components: usize = self.dimensions.multiplicity();
        component * components
    }

    /// Resolves the accessor against a buffer of `buffer_len` bytes.
    ///
    /// Returns the covered byte range when it lies fully inside the buffer and
    /// `None` otherwise; a range is never shortened to make it fit.
    pub fn slice(&self, buffer_len: usize) -> (range: Option<BufferSlice>)
        ensures
            range == if self.fits(buffer_len as int) {
                Some(self.slice_spec())
            } else {
                None
            },
    {
        let size: usize = self.size();
        let bytes: usize = match size.checked_mul(self.count) {
            Some(bytes) => bytes,
            None => {
                return None;
            },
        };
        let start: usize = match self.offset.checked_add(self.view_offset) {
            Some(start) => start,
            None => {
                return None;
            },
        };
        let end: usize = match start.checked_add(bytes) {
            Some(end) => end,
            None => {
                return None;
            },
        };
        if end <= buffer_len {
            Some(BufferSlice { buffer: self.buffer, start, end })
        } else {
            None
        }
    }
}

} // verus!
