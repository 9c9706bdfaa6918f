//! Value types that describe images and the views taken of them.

use crate::gpu::flags::Aspects;
use vstd::prelude::*;

verus! {

/// A texel format, named by its number in the graphics API.
///
/// Zero is the undefined format and names no texels.
#[derive(Clone, Copy, Debug, PartialEq, Eq, Structural)]
pub struct Format {
    pub code: u32,
}

impl Format {
    pub const RGBA8_UNORM: u32 = 37;

    pub const D16_UNORM: u32 = 124;

    pub const X8_D24_UNORM: u32 = 125;

    pub const D32_SFLOAT: u32 = 126;

    pub const S8_UINT: u32 = 127;

    pub const D16_UNORM_S8_UINT: u32 = 128;

    pub const D24_UNORM_S8_UINT: u32 = 129;

    pub const D32_SFLOAT_S8_UINT: u32 = 130;

    /// Whether texels of this format hold a depth value: the three depth-only
    /// formats and the three that combine depth with stencil. The format of
    /// stencil alone, whose number lies between them, does not.
    pub open spec fn has_depth(self) -> bool {
        Format::D16_UNORM <= self.code <= Format::D32_SFLOAT_S8_UINT && self.code
            != Format::S8_UINT
    }

    /// Four normalized unsigned bytes: red, green, blue, alpha.
    pub fn rgba8_unorm() -> (r: Format)
        ensures
            r == (Format { code: Format::RGBA8_UNORM }),
    {
        Format { code: Format::RGBA8_UNORM }
    }

    /// Decides `has_depth`.
    pub fn is_depth(&self) -> (r: bool)
        ensures
            r == self.has_depth(),
    {
        Format::D16_UNORM <= self.code && self.code <= Format::D32_SFLOAT_S8_UINT && self.code
            != Format::S8_UINT
    }

    /// The aspect that a barrier on an image of this format covers: depth for
    /// a format with depth, color for every other.
    pub open spec fn barrier_aspects(self) -> Aspects {
        if self.has_depth() {
            Aspects { bits: Aspects::DEPTH }
        } else {
            Aspects { bits: Aspects::COLOR }
        }
    }
}

/// How the texels of an image are arranged in memory.
#[derive(Clone, Copy, Debug, PartialEq, Eq, Structural)]
pub enum Tiling {
    /// Whatever arrangement suits the device.
    Optimal,
    /// Row after row, as the host reads and writes them.
    Linear,
}

/// The arrangement an image is in, which decides what may be done with it.
#[derive(Clone, Copy, Debug, PartialEq, Eq, Structural)]
pub enum Layout {
    General,
    ColorAttachmentOptimal,
    DepthStencilAttachmentOptimal,
    DepthStencilReadOnlyOptimal,
    ShaderReadOnlyOptimal,
    TransferSrcOptimal,
    TransferDstOptimal,
    /// No arrangement: the contents are not kept by a transition out of it.
    Undefined,
    /// Like `Undefined`, but the contents written by the host are kept.
    Preinitialized,
    Present,
}

/// The dimensionality of an image view.
#[derive(Clone, Copy, Debug, PartialEq, Eq, Structural)]
pub enum ViewKind {
    D1,
    D1Array,
    D2,
    D2Array,
    D3,
    Cube,
    CubeArray,
}

/// Where one channel of a view takes its value from.
#[derive(Clone, Copy, Debug, PartialEq, Eq, Structural)]
pub enum Component {
    Zero,
    One,
    R,
    G,
    B,
    A,
}

/// The sources of the four channels of a view, in the order red, green, blue,
/// alpha.
#[derive(Clone, Copy, Debug, PartialEq, Eq, Structural)]
pub struct Swizzle(pub Component, pub Component, pub Component, pub Component);

impl Swizzle {
    /// The swizzle that leaves every channel where it is.
    pub open spec fn identity() -> Swizzle {
        Swizzle(Component::R, Component::G, Component::B, Component::A)
    }
}

impl Default for Swizzle {
    fn default() -> (r: Swizzle)
        ensures
            r == Swizzle::identity(),
    {
        Swizzle(Component::R, Component::G, Component::B, Component::A)
    }
}

/// A part of an image: some aspects of the mip levels `level_start ..
/// level_end` of the array layers `layer_start .. layer_end`.
#[derive(Clone, Copy, Debug, PartialEq, Eq, Structural)]
pub struct SubresourceRange {
    pub aspects: Aspects,
    pub level_start: u8,
    pub level_end: u8,
    pub layer_start: u16,
    pub layer_end: u16,
}

impl SubresourceRange {
    /// The first `levels` mip levels of the first `layers` layers, seen
    /// through `aspects`.
    pub open spec fn spanning(aspects: Aspects, levels: u8, layers: u16) -> SubresourceRange {
        SubresourceRange {
            aspects,
            level_start: 0,
            level_end: levels,
            layer_start: 0,
            layer_end: layers,
        }
    }

    /// The first mip level of the first layer, seen through `aspects`.
    pub open spec fn first(aspects: Aspects) -> SubresourceRange {
        SubresourceRange::spanning(aspects, 1, 1)
    }

    /// Computes `spanning`.
    pub fn span(aspects: Aspects, levels: u8, layers: u16) -> (r: SubresourceRange)
        ensures
            r == SubresourceRange::spanning(aspects, levels, layers),
    {
        SubresourceRange {
            aspects,
            level_start: 0,
            level_end: levels,
            layer_start: 0,
            layer_end: layers,
        }
    }

    /// Computes `first`.
    pub fn single(aspects: Aspects) -> (r: SubresourceRange)
        ensures
            r == SubresourceRange::first(aspects),
    {
        SubresourceRange::span(aspects, 1, 1)
    }
}

} // verus!
