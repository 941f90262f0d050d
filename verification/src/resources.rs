//! Descriptions of the GPU resources a model needs: buffer and image
//! allocations, usage flags, texel formats and descriptor sets.
use vstd::prelude::*;

verus! {

/// What a buffer may be used for.
#[derive(Clone, Copy, Debug, PartialEq, Eq, Structural)]
pub struct BufferUsage {
    pub transfer_source: bool,
    pub transfer_destination: bool,
    pub uniform_texel_buffer: bool,
    pub storage_texel_buffer: bool,
    pub uniform_buffer: bool,
    pub storage_buffer: bool,
    pub index_buffer: bool,
    pub vertex_buffer: bool,
    pub indirect_buffer: bool,
}

impl BufferUsage {
    /// No use at all.
    pub open spec fn nothing() -> BufferUsage {
        BufferUsage {
            transfer_source: false,
            transfer_destination: false,
            uniform_texel_buffer: false,
            storage_texel_buffer: false,
            uniform_buffer: false,
            storage_buffer: false,
            index_buffer: false,
            vertex_buffer: false,
            indirect_buffer: false,
        }
    }

    /// Every use.
    pub open spec fn everything() -> BufferUsage {
        BufferUsage {
            transfer_source: true,
            transfer_destination: true,
            uniform_texel_buffer: true,
            storage_texel_buffer: true,
            uniform_buffer: true,
            storage_buffer: true,
            index_buffer: true,
            vertex_buffer: true,
            indirect_buffer: true,
        }
    }

    /// Source of a copy, and nothing else.
    pub open spec fn staging() -> BufferUsage {
        BufferUsage { transfer_source: true, ..Self::nothing() }
    }

    /// Uniform buffer that is filled by a copy.
    pub open spec fn uniform_upload() -> BufferUsage {
        BufferUsage { uniform_buffer: true, transfer_destination: true, ..Self::nothing() }
    }

    /// The usage every imported buffer is given: filled by a copy and then
    /// readable as vertex, index, uniform, storage or indirect data. It is
    /// deliberately not narrowed to what the document's accessors use.
    pub open spec fn imported() -> BufferUsage {
        BufferUsage {
            transfer_destination: true,
            uniform_buffer: true,
            storage_buffer: true,
            index_buffer: true,
            vertex_buffer: true,
            indirect_buffer: true,
            ..Self::nothing()
        }
    }

    /// No use at all.
    pub fn none() -> (usage: BufferUsage)
        ensures
            usage == Self::nothing(),
    {
        BufferUsage {
            transfer_source: false,
            transfer_destination: false,
            uniform_texel_buffer: false,
            storage_texel_buffer: false,
            uniform_buffer: false,
            storage_buffer: false,
            index_buffer: false,
            vertex_buffer: false,
            indirect_buffer: false,
        }
    }

    /// Every use.
    pub fn all() -> (usage: BufferUsage)
        ensures
            usage == Self::everything(),
    {
        BufferUsage {
            transfer_source: true,
            transfer_destination: true,
            uniform_texel_buffer: true,
            storage_texel_buffer: true,
            uniform_buffer: true,
            storage_buffer: true,
            index_buffer: true,
            vertex_buffer: true,
            indirect_buffer: true,
        }
    }

    /// Source of a copy, and nothing else.
    pub fn transfer_source() -> (usage: BufferUsage)
        ensures
            usage == Self::staging(),
    {
        let mut usage = Self::none();
        usage.transfer_source = true;
        usage
    }

    /// Uniform buffer that is filled by a copy.
    pub fn uniform_buffer_transfer_destination() -> (usage: BufferUsage)
        ensures
            usage == Self::uniform_upload(),
    {
        let mut usage = Self::none();
        usage.uniform_buffer = true;
        usage.transfer_destination = true;
        usage
    }

    /// The usage every imported buffer is given.
    pub fn for_imported_buffer() -> (usage: BufferUsage)
        ensures
            usage == Self::imported(),
    {
        let mut usage = Self::none();
        usage.transfer_destination = true;
        usage.uniform_buffer = true;
        usage.storage_buffer = true;
        usage.index_buffer = true;
        usage.vertex_buffer = true;
        usage.indirect_buffer = true;
        usage
    }
}

/// What an image may be used for.
#[derive(Clone, Copy, Debug, PartialEq, Eq, Structural)]
pub struct ImageUsage {
    pub transfer_source: bool,
    pub transfer_destination: bool,
    pub sampled: bool,
    pub storage: bool,
    pub color_attachment: bool,
    pub depth_stencil_attachment: bool,
    pub transient_attachment: bool,
    pub input_attachment: bool,
}

impl ImageUsage {
    /// The usage every imported image is given: filled by a copy and then
    /// sampled by shaders.
    pub open spec fn imported() -> ImageUsage {
        ImageUsage {
            transfer_source: false,
            transfer_destination: true,
            sampled: true,
            storage: false,
            color_attachment: false,
            depth_stencil_attachment: false,
            transient_attachment: false,
            input_attachment: false,
        }
    }

    /// The usage every imported image is given.
    pub fn for_imported_image() -> (usage: ImageUsage)
        ensures
            usage == Self::imported(),
    {
        ImageUsage {
            transfer_source: false,
            transfer_destination: true,
            sampled: true,
            storage: false,
            color_attachment: false,
            depth_stencil_attachment: false,
            transient_attachment: false,
            input_attachment: false,
        }
    }
}

/// The channel layout of decoded source pixels.
#[derive(Clone, Copy, Debug, PartialEq, Eq, Structural)]
pub enum PixelFormat {
    R8,
    R8G8,
    R8G8B8,
    R8G8B8A8,
}

/// The texel formats images are allocated with.
#[derive(Clone, Copy, Debug, PartialEq, Eq, Structural)]
pub enum TexelFormat {
    R8Uint,
    R8G8Uint,
    R8G8B8A8Srgb,
}

impl PixelFormat {
    /// The texel format an image with these source pixels is allocated
    /// with. Three- and four-channel pixels share the four-channel format.
    pub open spec fn texel_format_spec(self) -> TexelFormat {
        match self {
            PixelFormat::R8 => TexelFormat::R8Uint,
            PixelFormat::R8G8 => TexelFormat::R8G8Uint,
            PixelFormat::R8G8B8 => TexelFormat::R8G8B8A8Srgb,
            PixelFormat::R8G8B8A8 => TexelFormat::R8G8B8A8Srgb,
        }
    }

    /// The texel format an image with these source pixels is allocated with.
    pub fn texel_format(self) -> (format: TexelFormat)
        ensures
            format == self.texel_format_spec(),
    {
        match self {
            PixelFormat::R8 => TexelFormat::R8Uint,
            PixelFormat::R8G8 => TexelFormat::R8G8Uint,
            PixelFormat::R8G8B8 => TexelFormat::R8G8B8A8Srgb,
            PixelFormat::R8G8B8A8 => TexelFormat::R8G8B8A8Srgb,
        }
    }
}

/// Length of the chain of mip levels of an image whose largest side is
/// `extent`: one level, plus one for every halving until a single texel is
/// left.
pub open spec fn mip_chain_length(extent: nat) -> nat
    decreases extent,
{
    if extent <= 1 {
        1
    } else {
        1 + mip_chain_length(extent / 2)
    }
}

/// The larger of an image's two sides.
pub open spec fn largest_side(width: u32, height: u32) -> nat {
    if width >= height {
        width as nat
    } else {
        height as nat
    }
}

/// Number of mip levels of a full chain for a 2-D image.
///
/// Calls `vulkano::image::max_mip_levels` with depth 1. Its documentation
/// gives the result as `floor(log2(max(width, height, depth))) + 1`; the
/// contract states that value and is taken on trust.
#[verifier::external_body]
pub(crate) fn full_mip_levels(width: u32, height: u32) -> (levels: u32)
    ensures
        levels == mip_chain_length(largest_side(width, height)),
{
    vulkano::image::max_mip_levels([width, height, 1])
}

/// A device buffer to allocate.
#[derive(Clone, Copy, Debug, PartialEq, Eq, Structural)]
pub struct BufferAllocation {
    /// Size in bytes.
    pub size: usize,
    pub usage: BufferUsage,
}

impl BufferAllocation {
    /// Number of bytes to ask the device for: the planned size, or one byte
    /// for a buffer planned with no bytes, since a device buffer cannot be
    /// empty. Nothing reads that byte.
    pub open spec fn allocation_size_spec(self) -> usize {
        if self.size == 0 {
            1
        } else {
            self.size
        }
    }

    /// Number of bytes to ask the device for.
    pub fn allocation_size(&self) -> (bytes: usize)
        ensures
            bytes == self.allocation_size_spec(),
    {
        if self.size == 0 {
            1
        } else {
            self.size
        }
    }
}

/// A 2-D device image to allocate.
#[derive(Clone, Copy, Debug, PartialEq, Eq, Structural)]
pub struct ImageAllocation {
    pub width: u32,
    pub height: u32,
    pub format: TexelFormat,
    /// Number of mip levels: the full chain for the image's size.
    pub mip_levels: u32,
    pub usage: ImageUsage,
}

/// The descriptor set of one node: a uniform buffer holding the node's
/// world matrix, bound at `set` of `pipeline`.
#[derive(Clone, Copy, Debug, PartialEq, Eq, Structural)]
pub struct NodeDescriptorSet {
    pub pipeline: usize,
    pub set: usize,
    pub uniform_usage: BufferUsage,
    pub node: usize,
}

/// The descriptor set of one material: a uniform buffer holding the
/// material's factors and the sampled base-color image, bound at `set` of
/// `pipeline`.
#[derive(Clone, Copy, Debug, PartialEq, Eq, Structural)]
pub struct MaterialDescriptorSet {
    pub pipeline: usize,
    pub set: usize,
    pub uniform_usage: BufferUsage,
    pub material: usize,
    /// Index of the device image sampled as base color.
    pub base_color_image: usize,
}

/// Decoded source pixels of one image.
#[derive(Clone, Debug, PartialEq, Eq)]
pub struct ImageData {
    pub format: PixelFormat,
    pub width: u32,
    pub height: u32,
    pub pixels: Vec<u8>,
}

/// Three-channel pixels widened to four channels: every pixel keeps its
/// red, green and blue bytes and gains an opaque alpha byte. Bytes that do
/// not make up a whole pixel are dropped.
pub open spec fn expand_rgb(pixels: Seq<u8>) -> Seq<u8> {
    Seq::new(
        (pixels.len() / 3 * 4) as nat,
        |i: int|
            if i % 4 == 3 {
                255u8
            } else {
                pixels[i / 4 * 3 + i % 4]
            },
    )
}

/// Widens three-channel pixels to four channels with opaque alpha.
pub fn rgb_to_rgba(pixels: &Vec<u8>) -> (texels: Vec<u8>)
    ensures
        texels@ == expand_rgb(pixels@),
{
    let mut texels: Vec<u8> = Vec::new();
    let mut i: usize = 0;
    while pixels.len() - i >= 3
        invariant
            i <= pixels@.len(),
            i % 3 == 0,
            texels@.len() == i / 3 * 4,
            forall|k: int|
                0 <= k < texels@.len() ==> #[trigger] texels@[k] == expand_rgb(pixels@)[k],
        decreases pixels@.len() - i,
    {
        texels.push(pixels[i]);
        texels.push(pixels[i + 1]);
        texels.push(pixels[i + 2]);
        texels.push(255);
        i += 3;
    }
    texels
}

impl ImageData {
    /// The bytes uploaded for these pixels, in the texel format of the
    /// image's allocation: three-channel pixels are widened to four
    /// channels, every other layout is uploaded as it is.
    pub open spec fn texels_spec(self) -> Seq<u8> {
        match self.format {
            PixelFormat::R8G8B8 => expand_rgb(self.pixels@),
            _ => self.pixels@,
        }
    }

    /// The bytes uploaded for these pixels, in the texel format of the
    /// image's allocation.
    pub fn into_texels(self) -> (texels: Vec<u8>)
        ensures
            texels@ == self.texels_spec(),
    {
        match self.format {
            PixelFormat::R8G8B8 => rgb_to_rgba(&self.pixels),
            _ => self.pixels,
        }
    }

    /// The image to allocate for these pixels.
    pub open spec fn allocation_spec(self) -> ImageAllocation {
        ImageAllocation {
            width: self.width,
            height: self.height,
            format: self.format.texel_format_spec(),
            mip_levels: mip_chain_length(largest_side(self.width, self.height)) as u32,
            usage: ImageUsage::imported(),
        }
    }

    /// The image to allocate for these pixels: same size, the texel format
    /// that matches the pixel layout, a full mip chain, filled by a copy
    /// and then sampled.
    pub fn allocation(&self) -> (allocation: ImageAllocation)
        ensures
            allocation == self.allocation_spec(),
    {
        ImageAllocation {
            width: self.width,
            height: self.height,
            format: self.format.texel_format(),
            mip_levels: full_mip_levels(self.width, self.height),
            usage: ImageUsage::for_imported_image(),
        }
    }
}

} // verus!
