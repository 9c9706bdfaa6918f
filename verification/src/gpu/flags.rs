//! Bit masks that describe how an image or a buffer is accessed and used.
//!
//! The numbers are those of the graphics API, so a device layer converts by
//! copying the bits.

use vstd::prelude::*;

verus! {

/// The ways in which memory of an image is read or written.
#[derive(Clone, Copy, Debug, PartialEq, Eq, Structural)]
pub struct Access {
    pub bits: u32,
}

impl Access {
    pub const HOST_WRITE: u32 = 0x4000;

    /// No access at all.
    pub fn empty() -> (r: Access)
        ensures
            r == (Access { bits: 0 }),
    {
        Access { bits: 0 }
    }

    /// Writes by the host.
    pub fn host_write() -> (r: Access)
        ensures
            r == (Access { bits: Access::HOST_WRITE }),
    {
        Access { bits: Access::HOST_WRITE }
    }
}

/// The stages of the pipeline that a barrier waits for or holds back.
#[derive(Clone, Copy, Debug, PartialEq, Eq, Structural)]
pub struct PipelineStage {
    pub bits: u32,
}

impl PipelineStage {
    pub const TOP_OF_PIPE: u32 = 0x1;

    /// The stage before any command has begun.
    pub fn top_of_pipe() -> (r: PipelineStage)
        ensures
            r == (PipelineStage { bits: PipelineStage::TOP_OF_PIPE }),
    {
        PipelineStage { bits: PipelineStage::TOP_OF_PIPE }
    }
}

/// The aspects of an image that a view or a barrier covers.
#[derive(Clone, Copy, Debug, PartialEq, Eq, Structural)]
pub struct Aspects {
    pub bits: u8,
}

impl Aspects {
    pub const COLOR: u8 = 0x1;

    pub const DEPTH: u8 = 0x2;

    pub fn color() -> (r: Aspects)
        ensures
            r == (Aspects { bits: Aspects::COLOR }),
    {
        Aspects { bits: Aspects::COLOR }
    }

    pub fn depth() -> (r: Aspects)
        ensures
            r == (Aspects { bits: Aspects::DEPTH }),
    {
        Aspects { bits: Aspects::DEPTH }
    }
}

/// What a pooled buffer or image may be used for.
#[derive(Clone, Copy, Debug, PartialEq, Eq, Structural)]
pub struct Usage {
    pub bits: u32,
}

impl Usage {
    /// Buffer usage: a source of indices.
    pub const INDEX: u32 = 0x40;

    /// Buffer usage: a source of vertices.
    pub const VERTEX: u32 = 0x80;

    /// Whether every use in `other` is also allowed by `self`.
    pub open spec fn covers(self, other: Usage) -> bool {
        self.bits & other.bits == other.bits
    }

    /// Decides `covers`.
    pub fn contains(&self, other: &Usage) -> (r: bool)
        ensures
            r == self.covers(*other),
    {
        self.bits & other.bits == other.bits
    }

    /// Every usage covers itself.
    pub proof fn lemma_covers_reflexive(self)
        ensures
            self.covers(self),
    {
        let b = self.bits;
        assert(b & b == b) by (bit_vector);
    }

    /// A usage that covers a second one covers whatever the second covers.
    pub proof fn lemma_covers_transitive(self, mid: Usage, low: Usage)
        requires
            self.covers(mid),
            mid.covers(low),
        ensures
            self.covers(low),
    {
        let a = self.bits;
        let b = mid.bits;
        let c = low.bits;
        assert(a & b == b && b & c == c ==> a & c == c) by (bit_vector);
    }
}

} // verus!
