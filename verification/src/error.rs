//! The errors of import, initialization and drawing.
use vstd::prelude::*;

verus! {

/// Why an import was abandoned.
#[derive(Clone, Copy, Debug, PartialEq, Eq, Structural)]
pub enum ImportError {
    /// A material has no explicit index of its own position, or a primitive
    /// relies on the implicit default material.
    ImplicitMaterial,
    /// A material's base-color texture names an image that does not exist.
    MissingTexture,
    /// An accessor names a missing buffer or reaches past its buffer's end.
    AccessorOutOfBounds,
    /// An index accessor holds something other than 16- or 32-bit unsigned
    /// integers.
    UnsupportedIndexType,
}

/// Why initialization was refused.
#[derive(Clone, Copy, Debug, PartialEq, Eq, Structural)]
pub enum ModelInitializationError {
    /// The upload tasks of this model have been handed out before.
    ModelAlreadyInitialized,
}

/// Why no draw commands were produced.
#[derive(Clone, Copy, Debug, PartialEq, Eq, Structural)]
pub enum ModelDrawError {
    /// The document has no scene with this index.
    InvalidSceneIndex { index: usize },
    /// The document names no default scene.
    NoDefaultScene,
}

} // verus!
