//! Pipeline construction.

pub mod compute;
pub mod layout_cache;
pub mod shader;

use vstd::prelude::*;

verus! {

/// Why a device-facing operation could not be completed.
#[derive(Clone, Copy, Debug, PartialEq, Eq, Structural)]
pub enum DriverError {
    /// The device rejected the creation of an object.
    Unsupported,
}

/// The device's name for a descriptor set layout.
#[derive(Clone, Copy, Debug, PartialEq, Eq, Structural)]
pub struct DescriptorSetLayout(pub u64);

/// The device's name for a shader module.
#[derive(Clone, Copy, Debug, PartialEq, Eq, Structural)]
pub struct ShaderModule(pub u64);

/// The device's name for a pipeline layout.
#[derive(Clone, Copy, Debug, PartialEq, Eq, Structural)]
pub struct PipelineLayout(pub u64);

/// The device's name for a pipeline.
#[derive(Clone, Copy, Debug, PartialEq, Eq, Structural)]
pub struct Pipeline(pub u64);

} // verus!
