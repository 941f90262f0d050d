//! The one-time uploads a freshly imported model is waiting for.
use vstd::prelude::*;
use vstd::string::StringExecFns;
use crate::resources::{BufferUsage, ImageData};
use crate::transform::WorldTransform;

verus! {

/// A pending upload into one of the model's device resources.
#[derive(Clone, Debug, PartialEq, Eq)]
#[allow(inconsistent_fields)]
pub enum InitializationTask {
    /// Fill device buffer `index` with `data`.
    Buffer { index: usize, data: Vec<u8> },
    /// Fill device image `index` with the pixels of `data`.
    Image { index: usize, data: ImageData },
    /// Fill the uniform buffer of node `index` with the world matrix that
    /// `data` describes.
    NodeDescriptorSet { index: usize, data: WorldTransform },
    /// Fill the uniform buffer of material `index` with the material's
    /// factors.
    MaterialDescriptorSet { index: usize },
}

/// One copy recorded into a transfer command sequence: a staging buffer
/// with the given usage and contents, copied into its destination.
#[derive(Clone, Debug, PartialEq, Eq)]
pub enum UploadCommand {
    /// Buffer-to-buffer copy of `data` into device buffer `buffer`.
    CopyBuffer { staging_usage: BufferUsage, data: Vec<u8>, buffer: usize },
    /// Buffer-to-image copy of `texels` into device image `image`.
    CopyBufferToImage { staging_usage: BufferUsage, texels: Vec<u8>, image: usize },
    /// Buffer-to-buffer copy of a world matrix into the uniform buffer of
    /// node `node`.
    CopyNodeUniform { staging_usage: BufferUsage, transform: WorldTransform, node: usize },
    /// Buffer-to-buffer copy of material factors into the uniform buffer of
    /// material `material`.
    CopyMaterialUniform { staging_usage: BufferUsage, material: usize },
}

/// What an [`UploadCommand`] says, with byte contents as sequences.
pub enum Upload {
    CopyBuffer { staging_usage: BufferUsage, data: Seq<u8>, buffer: usize },
    CopyBufferToImage { staging_usage: BufferUsage, texels: Seq<u8>, image: usize },
    CopyNodeUniform { staging_usage: BufferUsage, transform: WorldTransform, node: usize },
    CopyMaterialUniform { staging_usage: BufferUsage, material: usize },
}

impl View for UploadCommand {
    type V = Upload;

    open spec fn view(&self) -> Upload {
        match *self {
            UploadCommand::CopyBuffer { staging_usage, data, buffer } => Upload::CopyBuffer {
                staging_usage,
                data: data@,
                buffer,
            },
            UploadCommand::CopyBufferToImage {
                staging_usage,
                texels,
                image,
            } => Upload::CopyBufferToImage { staging_usage, texels: texels@, image },
            UploadCommand::CopyNodeUniform {
                staging_usage,
                transform,
                node,
            } => Upload::CopyNodeUniform { staging_usage, transform, node },
            UploadCommand::CopyMaterialUniform {
                staging_usage,
                material,
            } => Upload::CopyMaterialUniform { staging_usage, material },
        }
    }
}

impl Upload {
    /// Whether the copy moves no bytes: a buffer or image copy whose
    /// contents are empty. Such a copy is not recorded, since a staging
    /// buffer cannot be empty.
    pub open spec fn transfers_nothing(self) -> bool {
        match self {
            Upload::CopyBuffer { data, .. } => data.len() == 0,
            Upload::CopyBufferToImage { texels, .. } => texels.len() == 0,
            Upload::CopyNodeUniform { .. } => false,
            Upload::CopyMaterialUniform { .. } => false,
        }
    }
}

impl UploadCommand {
    /// Whether the copy moves no bytes and is therefore not recorded.
    pub fn transfers_nothing(&self) -> (nothing: bool)
        ensures
            nothing == self@.transfers_nothing(),
    {
        match self {
            UploadCommand::CopyBuffer { data, .. } => data.len() == 0,
            UploadCommand::CopyBufferToImage { texels, .. } => texels.len() == 0,
            UploadCommand::CopyNodeUniform { .. } => false,
            UploadCommand::CopyMaterialUniform { .. } => false,
        }
    }
}

/// What a sequence of upload commands says, command by command.
pub open spec fn upload_views(commands: Seq<UploadCommand>) -> Seq<Upload> {
    Seq::new(commands.len(), |i: int| commands[i]@)
}

/// The character that writes a single decimal digit.
pub open spec fn digit_char(digit: nat) -> char {
    if digit == 0 {
        '0'
    } else if digit == 1 {
        '1'
    } else if digit == 2 {
        '2'
    } else if digit == 3 {
        '3'
    } else if digit == 4 {
        '4'
    } else if digit == 5 {
        '5'
    } else if digit == 6 {
        '6'
    } else if digit == 7 {
        '7'
    } else if digit == 8 {
        '8'
    } else {
        '9'
    }
}

/// A number written in decimal, without sign or leading zeros.
pub open spec fn decimal(number: nat) -> Seq<char>
    decreases number,
{
    if number < 10 {
        seq![digit_char(number)]
    } else {
        decimal(number / 10).push(digit_char(number % 10))
    }
}

/// The text that writes a single decimal digit.
fn digit_text(digit: usize) -> (text: &'static str)
    requires
        digit < 10,
    ensures
        text@ == seq![digit_char(digit as nat)],
{
    proof {
        reveal_strlit("0");
        reveal_strlit("1");
        reveal_strlit("2");
        reveal_strlit("3");
        reveal_strlit("4");
        reveal_strlit("5");
        reveal_strlit("6");
        reveal_strlit("7");
        reveal_strlit("8");
        reveal_strlit("9");
    }
    let text = if digit == 0 {
        "0"
    } else if digit == 1 {
        "1"
    } else if digit == 2 {
        "2"
    } else if digit == 3 {
        "3"
    } else if digit == 4 {
        "4"
    } else if digit == 5 {
        "5"
    } else if digit == 6 {
        "6"
    } else if digit == 7 {
        "7"
    } else if digit == 8 {
        "8"
    } else {
        "9"
    };
    text
}

/// Appends `number`, written in decimal, to `text`.
fn append_decimal(text: &mut String, number: usize)
    ensures
        final(text)@ == old(text)@ + decimal(number as nat),
    decreases number,
{
    if number >= 10 {
        append_decimal(text, number / 10);
    }
    text.append(digit_text(number % 10));
}

impl InitializationTask {
    /// Index of the resource the task fills.
    pub open spec fn target(self) -> usize {
        match self {
            InitializationTask::Buffer { index, .. } => index,
            InitializationTask::Image { index, .. } => index,
            InitializationTask::NodeDescriptorSet { index, .. } => index,
            InitializationTask::MaterialDescriptorSet { index } => index,
        }
    }

    /// The copy that carries out the task. Buffers and uniforms are staged
    /// in a buffer usable for anything, pixels in a buffer that is only a
    /// copy source; pixels are staged in the texel format of their image.
    pub open spec fn upload(self) -> Upload {
        match self {
            InitializationTask::Buffer { index, data } => Upload::CopyBuffer {
                staging_usage: BufferUsage::everything(),
                data: data@,
                buffer: index,
            },
            InitializationTask::Image { index, data } => Upload::CopyBufferToImage {
                staging_usage: BufferUsage::staging(),
                texels: data.texels_spec(),
                image: index,
            },
            InitializationTask::NodeDescriptorSet { index, data } => Upload::CopyNodeUniform {
                staging_usage: BufferUsage::everything(),
                transform: data,
                node: index,
            },
            InitializationTask::MaterialDescriptorSet { index } => Upload::CopyMaterialUniform {
                staging_usage: BufferUsage::everything(),
                material: index,
            },
        }
    }

    /// The copies that carry out `tasks`, in the same order.
    pub open spec fn uploads(tasks: Seq<InitializationTask>) -> Seq<Upload> {
        Seq::new(tasks.len(), |i: int| tasks[i].upload())
    }

    /// The kind of resource the task fills, in words.
    pub open spec fn label_spec(self) -> Seq<char> {
        match self {
            InitializationTask::Buffer { .. } => "buffer"@,
            InitializationTask::Image { .. } => "image"@,
            InitializationTask::NodeDescriptorSet { .. } => "node descriptor set"@,
            InitializationTask::MaterialDescriptorSet { .. } => "material descriptor set"@,
        }
    }

    /// The kind of resource the task fills, in words; together with
    /// [`InitializationTask::index`] it names the task in messages.
    pub fn label(&self) -> (label: &'static str)
        ensures
            label@ == self.label_spec(),
    {
        match self {
            InitializationTask::Buffer { .. } => "buffer",
            InitializationTask::Image { .. } => "image",
            InitializationTask::NodeDescriptorSet { .. } => "node descriptor set",
            InitializationTask::MaterialDescriptorSet { .. } => "material descriptor set",
        }
    }

    /// The task named in words: its kind, then ` #` and its index in
    /// decimal, as in `buffer #3`. The payload is not part of the name.
    pub open spec fn description_spec(self) -> Seq<char> {
        self.label_spec() + " #"@ + decimal(self.target() as nat)
    }

    /// The task named in words: its kind, then ` #` and its index in
    /// decimal, as in `buffer #3`. The payload is not part of the name.
    pub fn description(&self) -> (text: String)
        ensures
            text@ == self.description_spec(),
    {
        let mut text = String::from_str(self.label());
        text.append(" #");
        append_decimal(&mut text, self.index());
        text
    }

    /// Index of the resource the task fills.
    pub fn index(&self) -> (index: usize)
        ensures
            index == self.target(),
    {
        match self {
            InitializationTask::Buffer { index, .. } => *index,
            InitializationTask::Image { index, .. } => *index,
            InitializationTask::NodeDescriptorSet { index, .. } => *index,
            InitializationTask::MaterialDescriptorSet { index } => *index,
        }
    }

    /// Stages the task's payload and appends the single copy that uploads
    /// it to `commands`.
    pub fn initialize(self, commands: Vec<UploadCommand>) -> (extended: Vec<UploadCommand>)
        ensures
            upload_views(extended@) == upload_views(commands@).push(self.upload()),
    {
        let mut commands = commands;
        let command = match self {
            InitializationTask::Buffer { index, data } => UploadCommand::CopyBuffer {
                staging_usage: BufferUsage::all(),
                data,
                buffer: index,
            },
            InitializationTask::Image { index, data } => UploadCommand::CopyBufferToImage {
                staging_usage: BufferUsage::transfer_source(),
                texels: data.into_texels(),
                image: index,
            },
            InitializationTask::NodeDescriptorSet { index, data } => UploadCommand::CopyNodeUniform {
                staging_usage: BufferUsage::all(),
                transform: data,
                node: index,
            },
            InitializationTask::MaterialDescriptorSet { index } => {
                UploadCommand::CopyMaterialUniform {
                    staging_usage: BufferUsage::all(),
                    material: index,
                }
            },
        };
        commands.push(command);
        commands
    }
}

} // verus!
