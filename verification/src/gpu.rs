//! Textures, their synchronization state, and pooled resources.

pub mod flags;
pub mod format;
pub mod pool;
pub mod texture;

use crate::gpu::pool::{Instance, Pool};
use vstd::prelude::*;

verus! {

/// The sample count used for multisampled render targets.
pub const MULTISAMPLE_COUNT: u8 = 4;

/// How what is drawn is combined with what is there already.
#[derive(Clone, Copy, Debug, PartialEq, Eq, Hash, Structural)]
pub enum BlendMode {
    Add,
    Alpha,
    ColorBurn,
    ColorDodge,
    Color,
    Darken,
    DarkenColor,
    Difference,
    Divide,
    Exclusion,
    HardLight,
    HardMix,
    LinearBurn,
    Multiply,
    Normal,
    Overlay,
    Screen,
    Subtract,
    VividLight,
}

impl Default for BlendMode {
    fn default() -> (r: BlendMode)
        ensures
            r == BlendMode::Normal,
    {
        BlendMode::Normal
    }
}

/// The root of all rendering: the driver, the pool that resources are leased
/// from, and the operations of resolved renders that have yet to be handed to
/// a later render.
///
/// `D` is the handle of the device, `O` an operation, `R` a pooled resource.
pub struct Gpu<D, O, R> {
    driver: D,
    ops: Vec<O>,
    pool: Pool<R>,
}

/// What a `Gpu` is, to its contracts.
pub ghost struct GpuModel<D, O, R> {
    pub driver: D,
    /// The operations that the next render takes along, oldest first.
    pub ops: Seq<O>,
    /// The idle resources of the pool.
    pub pool: Seq<Instance<R>>,
}

impl<D, O, R> View for Gpu<D, O, R> {
    type V = GpuModel<D, O, R>;

    closed spec fn view(&self) -> GpuModel<D, O, R> {
        GpuModel { driver: self.driver, ops: self.ops@, pool: self.pool@ }
    }
}

impl<D, O, R> Gpu<D, O, R> {
    /// A `Gpu` on `driver`, with an empty pool and nothing pending.
    pub fn new(driver: D) -> (r: Self)
        ensures
            r@ == (GpuModel::<D, O, R> { driver, ops: Seq::empty(), pool: Seq::empty() }),
    {
        Gpu { driver, ops: Vec::new(), pool: Pool::new() }
    }

    pub fn driver(&self) -> (r: &D)
        ensures
            *r == self@.driver,
    {
        &self.driver
    }

    pub fn pool(&self) -> (r: &Pool<R>)
        ensures
            r@ == self@.pool,
    {
        &self.pool
    }

    /// The pool, to lease from and to give back to.
    pub fn pool_mut(&mut self) -> (r: &mut Pool<R>)
        ensures
            r@ == old(self)@.pool,
            final(self)@ == (GpuModel::<D, O, R> { pool: final(r)@, ..old(self)@ }),
    {
        &mut self.pool
    }

    /// Begins a render: hands over the operations left by renders that were
    /// resolved earlier, oldest first, and keeps none of them.
    pub fn render(&mut self) -> (r: Vec<O>)
        ensures
            r@ == old(self)@.ops,
            final(self)@ == (GpuModel::<D, O, R> { ops: Seq::empty(), ..old(self)@ }),
    {
        let mut ops = Vec::new();
        ops.append(&mut self.ops);
        ops
    }

    /// Resolves a render: keeps its operations, after those kept already, for
    /// the next render to take along.
    pub fn resolve(&mut self, ops: Vec<O>)
        ensures
            final(self)@ == (GpuModel { ops: old(self)@.ops + ops@, ..old(self)@ }),
    {
        let mut ops = ops;
        self.ops.append(&mut ops);
    }
}

} // verus!
