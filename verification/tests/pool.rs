use screen_13::gpu::flags::Usage;
use screen_13::gpu::format::Format;
use screen_13::gpu::pool::{Acquire, Lease, Pool, PoolError, Shape};
use screen_13::math::Extent;

fn vertex_buffer(len: u64) -> Shape {
    Shape::Buffer { len, usage: Usage { bits: Usage::VERTEX } }
}

fn image(x: u32, y: u32, usage: u32) -> Shape {
    Shape::Image { dims: Extent::new(x, y), format: Format::rgba8_unorm(), usage: Usage { bits: usage } }
}

/// Serves a request the way a device layer does, counting the allocations.
fn lease(pool: &mut Pool<u32>, shape: Shape, allocations: &mut u32) -> Lease<u32> {
    match pool.acquire(shape) {
        Acquire::Leased(lease) => lease,
        Acquire::Allocate(allocation) => {
            *allocations += 1;
            allocation.complete(Some(*allocations)).unwrap()
        }
    }
}

#[test]
fn vertex_buffer_is_reused_after_release() {
    let mut pool = Pool::new();
    let mut allocations = 0;
    let first = lease(&mut pool, vertex_buffer(1024), &mut allocations);
    assert_eq!(allocations, 1);
    assert_eq!(first.shape(), vertex_buffer(1024));
    let instance = *first.resource();
    pool.release(first);
    assert_eq!(pool.idle_count(), 1);
    let second = lease(&mut pool, vertex_buffer(1024), &mut allocations);
    assert_eq!(allocations, 1);
    assert_eq!(*second.resource(), instance);
    assert_eq!(pool.idle_count(), 0);
}

#[test]
fn empty_pool_asks_for_an_allocation_of_the_requested_shape() {
    let mut pool: Pool<u32> = Pool::new();
    match pool.acquire(vertex_buffer(16)) {
        Acquire::Allocate(allocation) => assert_eq!(allocation.shape(), vertex_buffer(16)),
        Acquire::Leased(_) => panic!("nothing is idle"),
    }
    assert_eq!(pool.idle_count(), 0);
}

#[test]
fn new_resource_is_leased_in_the_requested_shape() {
    let mut pool: Pool<&str> = Pool::new();
    let Acquire::Allocate(allocation) = pool.acquire(image(4, 4, 0x14)) else {
        panic!("nothing is idle");
    };
    let lease = allocation.complete(Some("target")).unwrap();
    assert_eq!(lease.shape(), image(4, 4, 0x14));
    assert_eq!(*lease.resource(), "target");
}

#[test]
fn failed_allocation_is_reported() {
    let mut pool: Pool<u32> = Pool::new();
    let Acquire::Allocate(allocation) = pool.acquire(vertex_buffer(1 << 40)) else {
        panic!("nothing is idle");
    };
    match allocation.complete::<u32>(None) {
        Err(error) => assert_eq!(error, PoolError::AllocationFailed),
        Ok(_) => panic!("nothing was allocated"),
    }
    assert_eq!(pool.idle_count(), 0);
}

#[test]
fn compatible_request_is_served_without_allocating() {
    let mut pool = Pool::new();
    let mut allocations = 0;
    let big = lease(
        &mut pool,
        Shape::Buffer { len: 4096, usage: Usage { bits: Usage::VERTEX | Usage::INDEX } },
        &mut allocations,
    );
    pool.release(big);
    let small = lease(&mut pool, vertex_buffer(100), &mut allocations);
    assert_eq!(allocations, 1);
    assert_eq!(
        small.shape(),
        Shape::Buffer { len: 4096, usage: Usage { bits: Usage::VERTEX | Usage::INDEX } }
    );
    assert_eq!(*small.resource(), 1);
}

#[test]
fn too_small_or_wrongly_used_buffer_is_not_handed_out() {
    let mut pool = Pool::new();
    let mut allocations = 0;
    let buffer = lease(&mut pool, vertex_buffer(1024), &mut allocations);
    pool.release(buffer);
    let larger = lease(&mut pool, vertex_buffer(1025), &mut allocations);
    assert_eq!(allocations, 2);
    assert_eq!(*larger.resource(), 2);
    let index = lease(
        &mut pool,
        Shape::Buffer { len: 8, usage: Usage { bits: Usage::INDEX } },
        &mut allocations,
    );
    assert_eq!(allocations, 3);
    assert_eq!(*index.resource(), 3);
    assert_eq!(pool.idle_count(), 1);
}

#[test]
fn buffers_and_images_are_not_interchangeable() {
    let mut pool = Pool::new();
    let mut allocations = 0;
    let buffer = lease(&mut pool, Shape::Buffer { len: 1 << 20, usage: Usage { bits: !0 } }, &mut allocations);
    pool.release(buffer);
    let target = lease(&mut pool, image(1, 1, 0x1), &mut allocations);
    assert_eq!(allocations, 2);
    pool.release(target);
    let again = lease(&mut pool, Shape::Buffer { len: 1, usage: Usage { bits: 0 } }, &mut allocations);
    assert_eq!(allocations, 2);
    assert_eq!(*again.resource(), 1);
}

#[test]
fn image_has_to_have_the_format_and_size_asked_for() {
    let mut pool = Pool::new();
    let mut allocations = 0;
    let target = lease(&mut pool, image(256, 128, 0x14), &mut allocations);
    pool.release(target);
    let other_format = Shape::Image {
        dims: Extent::new(256, 128),
        format: Format { code: 44 },
        usage: Usage { bits: 0x14 },
    };
    assert!(matches!(pool.acquire(other_format), Acquire::Allocate(_)));
    assert!(matches!(pool.acquire(image(257, 128, 0x14)), Acquire::Allocate(_)));
    assert!(matches!(pool.acquire(image(256, 129, 0x14)), Acquire::Allocate(_)));
    assert!(matches!(pool.acquire(image(256, 128, 0x1c)), Acquire::Allocate(_)));
    let smaller = lease(&mut pool, image(200, 100, 0x4), &mut allocations);
    assert_eq!(allocations, 1);
    assert_eq!(smaller.shape(), image(256, 128, 0x14));
}

#[test]
fn the_resource_released_last_is_taken_first() {
    let mut pool = Pool::new();
    let mut allocations = 0;
    let a = lease(&mut pool, vertex_buffer(64), &mut allocations);
    let b = lease(&mut pool, vertex_buffer(64), &mut allocations);
    let c = lease(&mut pool, vertex_buffer(64), &mut allocations);
    assert_eq!((*a.resource(), *b.resource(), *c.resource()), (1, 2, 3));
    pool.release(b);
    pool.release(c);
    pool.release(a);
    let first = lease(&mut pool, vertex_buffer(64), &mut allocations);
    let second = lease(&mut pool, vertex_buffer(64), &mut allocations);
    let third = lease(&mut pool, vertex_buffer(64), &mut allocations);
    assert_eq!((*first.resource(), *second.resource(), *third.resource()), (1, 3, 2));
    assert_eq!(allocations, 3);
}

#[test]
fn a_leased_resource_is_not_leased_again() {
    let mut pool = Pool::new();
    let mut allocations = 0;
    let held = lease(&mut pool, vertex_buffer(64), &mut allocations);
    let other = lease(&mut pool, vertex_buffer(64), &mut allocations);
    assert_ne!(*held.resource(), *other.resource());
    pool.release(other);
    let third = lease(&mut pool, vertex_buffer(64), &mut allocations);
    assert_ne!(*held.resource(), *third.resource());
    assert_eq!(allocations, 2);
}

#[test]
fn release_then_acquire_leaves_the_pool_as_it_was() {
    let mut pool = Pool::new();
    let mut allocations = 0;
    let a = lease(&mut pool, vertex_buffer(10), &mut allocations);
    let b = lease(&mut pool, vertex_buffer(2000), &mut allocations);
    pool.release(a);
    pool.release(b);
    let again = lease(&mut pool, vertex_buffer(10), &mut allocations);
    assert_eq!(*again.resource(), 2);
    pool.release(again);
    let once_more = lease(&mut pool, vertex_buffer(1500), &mut allocations);
    assert_eq!(*once_more.resource(), 2);
    assert_eq!(pool.idle_count(), 1);
    assert_eq!(allocations, 2);
}

#[test]
fn a_fit_further_down_is_found() {
    let mut pool = Pool::new();
    let mut allocations = 0;
    let big = lease(&mut pool, vertex_buffer(5000), &mut allocations);
    let small = lease(&mut pool, vertex_buffer(10), &mut allocations);
    pool.release(big);
    pool.release(small);
    let got = lease(&mut pool, vertex_buffer(4000), &mut allocations);
    assert_eq!(*got.resource(), 1);
    assert_eq!(pool.idle_count(), 1);
    let rest = pool.drain();
    assert_eq!(rest.len(), 1);
    assert_eq!(rest[0].resource, 2);
    assert_eq!(rest[0].shape, vertex_buffer(10));
}

#[test]
fn leased_resource_can_be_worked_on() {
    let mut pool: Pool<Vec<u8>> = Pool::new();
    let Acquire::Allocate(allocation) = pool.acquire(vertex_buffer(3)) else {
        panic!("nothing is idle");
    };
    let mut lease = allocation.complete(Some(vec![0u8; 3])).unwrap();
    lease.resource_mut()[1] = 9;
    assert_eq!(lease.shape(), vertex_buffer(3));
    pool.release(lease);
    let Acquire::Leased(lease) = pool.acquire(vertex_buffer(3)) else {
        panic!("the buffer is idle");
    };
    assert_eq!(*lease.resource(), vec![0, 9, 0]);
    let instance = lease.into_instance();
    assert_eq!(instance.resource, vec![0, 9, 0]);
    assert_eq!(instance.shape, vertex_buffer(3));
}

#[test]
fn drained_pool_is_empty() {
    let mut pool = Pool::new();
    let mut allocations = 0;
    let a = lease(&mut pool, vertex_buffer(1), &mut allocations);
    let b = lease(&mut pool, image(2, 2, 1), &mut allocations);
    pool.release(a);
    pool.release(b);
    let idle = pool.drain();
    assert_eq!(idle.iter().map(|i| i.resource).collect::<Vec<_>>(), vec![1, 2]);
    assert_eq!(pool.idle_count(), 0);
    assert!(matches!(pool.acquire(vertex_buffer(1)), Acquire::Allocate(_)));
}

#[test]
fn usage_contains_its_subsets_only() {
    let both = Usage { bits: 0xc0 };
    assert!(both.contains(&Usage { bits: 0x40 }));
    assert!(both.contains(&Usage { bits: 0x80 }));
    assert!(both.contains(&Usage { bits: 0 }));
    assert!(both.contains(&both));
    assert!(!both.contains(&Usage { bits: 0xc1 }));
    assert!(!Usage { bits: 0 }.contains(&Usage { bits: 1 }));
}

#[test]
fn shape_fits_itself() {
    for shape in [vertex_buffer(0), vertex_buffer(u64::MAX), image(0, 0, 0), image(u32::MAX, 7, !0)] {
        assert!(shape.fits(&shape));
    }
}
