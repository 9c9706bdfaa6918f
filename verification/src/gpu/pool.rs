//! A pool that lends out buffers and images and takes them back for reuse.
//!
//! The pool never creates or destroys a resource. Where nothing idle fits a
//! request it says what to allocate, and the caller reports how that went.

use crate::gpu::flags::Usage;
use crate::gpu::format::Format;
use crate::math::Extent;
use vstd::prelude::*;

verus! {

/// What is asked of a resource, and what a resource offers.
#[derive(Clone, Copy, Debug, PartialEq, Eq, Structural)]
pub enum Shape {
    /// A buffer of `len` bytes.
    Buffer { len: u64, usage: Usage },
    /// An image of size `dims` with texels of `format`.
    Image { dims: Extent, format: Format, usage: Usage },
}

impl Shape {
    /// Whether a resource of this shape can serve a request for `want`: it is
    /// of the same kind, at least as large, and allows every use asked for.
    /// An image also has to have the format asked for.
    pub open spec fn covers(self, want: Shape) -> bool {
        match (self, want) {
            (Shape::Buffer { len, usage }, Shape::Buffer { len: want_len, usage: want_usage }) => {
                len >= want_len && usage.covers(want_usage)
            },
            (
                Shape::Image { dims, format, usage },
                Shape::Image { dims: want_dims, format: want_format, usage: want_usage },
            ) => { dims.covers(want_dims) && format == want_format && usage.covers(want_usage) },
            _ => false,
        }
    }

    /// Decides `covers`.
    pub fn fits(&self, want: &Shape) -> (r: bool)
        ensures
            r == self.covers(*want),
    {
        match (self, want) {
            (Shape::Buffer { len, usage }, Shape::Buffer { len: want_len, usage: want_usage }) => {
                *len >= *want_len && usage.contains(want_usage)
            },
            (
                Shape::Image { dims, format, usage },
                Shape::Image { dims: want_dims, format: want_format, usage: want_usage },
            ) => { dims.fits(want_dims) && *format == *want_format && usage.contains(want_usage) },
            _ => false,
        }
    }

    /// A resource serves a request for its own shape.
    pub proof fn lemma_covers_itself(self)
        ensures
            self.covers(self),
    {
        match self {
            Shape::Buffer { usage, .. } => {
                usage.lemma_covers_reflexive();
            },
            Shape::Image { usage, .. } => {
                usage.lemma_covers_reflexive();
            },
        }
    }
}

/// A resource together with the shape that it was allocated for.
#[derive(Debug)]
pub struct Instance<R> {
    pub shape: Shape,
    pub resource: R,
}

/// Why a request to the pool could not be served.
#[derive(Clone, Copy, Debug, PartialEq, Eq, Structural)]
pub enum PoolError {
    /// Nothing idle fitted and the device could not allocate anew.
    AllocationFailed,
}

/// The exclusive use of one resource, until it is given back to the pool.
#[derive(Debug)]
pub struct Lease<R> {
    instance: Instance<R>,
}

impl<R> View for Lease<R> {
    type V = Instance<R>;

    closed spec fn view(&self) -> Instance<R> {
        self.instance
    }
}

impl<R> Lease<R> {
    /// The shape of the resource, which serves the request that it was leased
    /// for and may offer more.
    pub fn shape(&self) -> (r: Shape)
        ensures
            r == self@.shape,
    {
        self.instance.shape
    }

    pub fn resource(&self) -> (r: &R)
        ensures
            *r == self@.resource,
    {
        &self.instance.resource
    }

    /// The resource, to work on. Its shape stays what it is.
    pub fn resource_mut(&mut self) -> (r: &mut R)
        ensures
            *r == old(self)@.resource,
            final(self)@ == (Instance { shape: old(self)@.shape, resource: *final(r) }),
    {
        &mut self.instance.resource
    }

    /// Ends the lease without giving the resource back to a pool.
    pub fn into_instance(self) -> (r: Instance<R>)
        ensures
            r == self@,
    {
        self.instance
    }
}

/// A request that nothing idle could serve: a resource of `shape` has to be
/// allocated.
#[derive(Debug)]
pub struct Allocation {
    shape: Shape,
}

impl View for Allocation {
    type V = Shape;

    closed spec fn view(&self) -> Shape {
        self.shape
    }
}

impl Allocation {
    /// What to allocate.
    pub fn shape(&self) -> (r: Shape)
        ensures
            r == self@,
    {
        self.shape
    }

    /// Takes the outcome of the allocation: the new resource, or nothing if
    /// the device could not provide one. A new resource is leased out at once,
    /// in the shape that was asked for.
    pub fn complete<R>(self, outcome: Option<R>) -> (r: Result<Lease<R>, PoolError>)
        ensures
            match outcome {
                Some(resource) => r matches Ok(lease) && lease@ == (Instance {
                    shape: self@,
                    resource,
                }),
                None => r == Err::<Lease<R>, PoolError>(PoolError::AllocationFailed),
            },
    {
        match outcome {
            Some(resource) => Ok(Lease { instance: Instance { shape: self.shape, resource } }),
            None => Err(PoolError::AllocationFailed),
        }
    }
}

/// How the pool answers a request.
pub enum Acquire<R> {
    /// An idle resource fits and is leased out.
    Leased(Lease<R>),
    /// Nothing idle fits.
    Allocate(Allocation),
}

/// Whether some resource in `idle` can serve a request for `want`.
pub open spec fn some_fit<R>(idle: Seq<Instance<R>>, want: Shape) -> bool {
    exists|i: int| 0 <= i < idle.len() && (#[trigger] idle[i]).shape.covers(want)
}

/// The place in `idle` of the resource that serves a request for `want`: of
/// those that fit, the one given back last. Negative if none fits.
pub open spec fn last_fit<R>(idle: Seq<Instance<R>>, want: Shape) -> int
    decreases idle.len(),
{
    if idle.len() == 0 {
        -1
    } else if idle.last().shape.covers(want) {
        idle.len() - 1
    } else {
        last_fit(idle.drop_last(), want)
    }
}

/// The idle resources, in the order in which they were given back.
pub struct Pool<R> {
    idle: Vec<Instance<R>>,
}

impl<R> View for Pool<R> {
    type V = Seq<Instance<R>>;

    closed spec fn view(&self) -> Seq<Instance<R>> {
        self.idle@
    }
}

impl<R> Pool<R> {
    /// A pool with nothing in it.
    pub fn new() -> (r: Self)
        ensures
            r@ == Seq::<Instance<R>>::empty(),
    {
        Pool { idle: Vec::new() }
    }

    /// How many resources are idle.
    pub fn idle_count(&self) -> (r: usize)
        ensures
            r == self@.len(),
    {
        self.idle.len()
    }

    /// Leases out an idle resource that fits `shape`, or says that one has to
    /// be allocated.
    ///
    /// Of the idle resources that fit, the one given back last is taken. It
    /// leaves the pool, so nobody else can be given it until it is released.
    /// Only where no idle resource fits is an allocation asked for, and the
    /// pool is then left as it was.
    pub fn acquire(&mut self, shape: Shape) -> (r: Acquire<R>)
        ensures
            r is Leased <==> some_fit(old(self)@, shape),
            r matches Acquire::Leased(lease) ==> {
                let at = last_fit(old(self)@, shape);
                &&& 0 <= at < old(self)@.len()
                &&& lease@ == old(self)@[at]
                &&& lease@.shape.covers(shape)
                &&& final(self)@ == old(self)@.remove(at)
            },
            r matches Acquire::Allocate(allocation) ==> {
                &&& allocation@ == shape
                &&& final(self)@ == old(self)@
            },
    {
        let mut at: usize = self.idle.len();
        assert(self.idle@.take(at as int) == self.idle@);
        while at > 0
            invariant
                at <= self.idle.len(),
                *self == *old(self),
                last_fit(self.idle@, shape) == last_fit(self.idle@.take(at as int), shape),
                forall|i: int| at <= i < self.idle.len() ==> !(#[trigger] self.idle@[i]).shape.covers(
                    shape,
                ),
            decreases at,
        {
            let ghost prefix = self.idle@.take(at as int);
            assert(prefix.last() == self.idle@[at - 1]);
            assert(prefix.drop_last() == self.idle@.take(at - 1));
            if self.idle[at - 1].shape.fits(&shape) {
                proof {
                    lemma_last_fit(self.idle@, shape);
                }
                let instance = self.idle.remove(at - 1);
                return Acquire::Leased(Lease { instance });
            }
            at -= 1;
        }
        assert(self.idle@.take(0).len() == 0);
        Acquire::Allocate(Allocation { shape })
    }

    /// Takes back a leased resource. It is kept, idle, for the next request
    /// that it fits.
    pub fn release(&mut self, lease: Lease<R>)
        ensures
            final(self)@ == old(self)@.push(lease@),
    {
        self.idle.push(lease.instance);
    }

    /// Empties the pool for destruction and hands over what was idle.
    pub fn drain(&mut self) -> (r: Vec<Instance<R>>)
        ensures
            r@ == old(self)@,
            final(self)@ == Seq::<Instance<R>>::empty(),
    {
        let mut idle = Vec::new();
        idle.append(&mut self.idle);
        idle
    }
}

/// Where `last_fit` points, a resource fits, and none that was given back
/// after it does; where it points nowhere, none fits at all.
pub proof fn lemma_last_fit<R>(idle: Seq<Instance<R>>, want: Shape)
    ensures
        -1 <= last_fit(idle, want) < idle.len(),
        last_fit(idle, want) >= 0 ==> idle[last_fit(idle, want)].shape.covers(want),
        forall|i: int|
            last_fit(idle, want) < i < idle.len() ==> !(#[trigger] idle[i]).shape.covers(want),
        last_fit(idle, want) >= 0 <==> some_fit(idle, want),
    decreases idle.len(),
{
    if idle.len() > 0 {
        if idle.last().shape.covers(want) {
            assert(idle[idle.len() - 1].shape.covers(want));
        } else {
            let rest = idle.drop_last();
            lemma_last_fit(rest, want);
            let at = last_fit(rest, want);
            if at >= 0 {
                assert(idle[at] == rest[at]);
            }
            assert forall|i: int| at < i < idle.len() implies !(#[trigger] idle[i]).shape.covers(
                want,
            ) by {
                if i < rest.len() {
                    assert(idle[i] == rest[i]);
                }
            }
        }
    }
}

/// A resource that is released and asked for again is the one handed out: a
/// request that the released resource fits is served with that very resource,
/// nothing is allocated, and the pool is left as it was before the release.
pub proof fn lemma_release_then_acquire<R>(idle: Seq<Instance<R>>, released: Instance<R>, want: Shape)
    requires
        released.shape.covers(want),
    ensures
        some_fit(idle.push(released), want),
        last_fit(idle.push(released), want) == idle.len(),
        idle.push(released)[last_fit(idle.push(released), want)] == released,
        idle.push(released).remove(last_fit(idle.push(released), want)) == idle,
{
    let after = idle.push(released);
    assert(after.last() == released);
    assert(after[idle.len() as int].shape.covers(want));
    assert(after.remove(idle.len() as int) =~= idle);
}

/// Acquire, release, acquire: whatever the pool holds, the second of two
/// requests for the same shape is served with the resource that served the
/// first and was released in between, and nothing is allocated for it. This
/// holds where the first request found an idle resource, at `last_fit`, and
/// where a resource `fresh` had to be allocated for it.
pub proof fn lemma_acquire_release_acquire<R>(idle: Seq<Instance<R>>, want: Shape, fresh: R)
    ensures
        ({
            let at = last_fit(idle, want);
            let leased = if some_fit(idle, want) {
                idle[at]
            } else {
                Instance { shape: want, resource: fresh }
            };
            let rest = if some_fit(idle, want) {
                idle.remove(at)
            } else {
                idle
            };
            let released = rest.push(leased);
            &&& some_fit(released, want)
            &&& released[last_fit(released, want)] == leased
            &&& released.remove(last_fit(released, want)) == rest
        }),
{
    lemma_last_fit(idle, want);
    want.lemma_covers_itself();
    if some_fit(idle, want) {
        let at = last_fit(idle, want);
        lemma_release_then_acquire(idle.remove(at), idle[at], want);
    } else {
        lemma_release_then_acquire(idle, Instance { shape: want, resource: fresh }, want);
    }
}

/// A request is served from the pool whenever an idle resource fits it, also
/// right after a release: releasing takes nothing away from what fits.
pub proof fn lemma_release_keeps_fits<R>(idle: Seq<Instance<R>>, released: Instance<R>, want: Shape)
    requires
        some_fit(idle, want),
    ensures
        some_fit(idle.push(released), want),
{
    let i = choose|i: int| 0 <= i < idle.len() && (#[trigger] idle[i]).shape.covers(want);
    assert(idle.push(released)[i] == idle[i]);
}

} // verus!
