use screen_13::gpu::flags::Usage;
use screen_13::gpu::pool::{Acquire, Shape};
use screen_13::gpu::{BlendMode, Gpu, MULTISAMPLE_COUNT};

#[test]
fn blend_mode_defaults_to_normal() {
    assert_eq!(BlendMode::default(), BlendMode::Normal);
    assert_ne!(BlendMode::default(), BlendMode::Alpha);
}

#[test]
fn multisampling_takes_four_samples() {
    assert_eq!(MULTISAMPLE_COUNT, 4);
}

#[test]
fn first_render_takes_nothing_along() {
    let mut gpu: Gpu<&str, u32, ()> = Gpu::new("device");
    assert_eq!(*gpu.driver(), "device");
    assert!(gpu.render().is_empty());
    assert_eq!(gpu.pool().idle_count(), 0);
}

#[test]
fn resolved_operations_go_into_the_next_render() {
    let mut gpu: Gpu<(), u32, ()> = Gpu::new(());
    gpu.resolve(vec![1, 2]);
    gpu.resolve(vec![]);
    gpu.resolve(vec![3]);
    assert_eq!(gpu.render(), vec![1, 2, 3]);
    assert!(gpu.render().is_empty());
    gpu.resolve(vec![4]);
    assert_eq!(gpu.render(), vec![4]);
}

#[test]
fn the_pool_of_a_gpu_lends_and_takes_back() {
    let mut gpu: Gpu<(), (), char> = Gpu::new(());
    let shape = Shape::Buffer { len: 12, usage: Usage { bits: Usage::INDEX } };
    let Acquire::Allocate(allocation) = gpu.pool_mut().acquire(shape) else {
        panic!("nothing is idle");
    };
    let lease = allocation.complete(Some('b')).unwrap();
    gpu.pool_mut().release(lease);
    assert_eq!(gpu.pool().idle_count(), 1);
    assert!(matches!(gpu.pool_mut().acquire(shape), Acquire::Leased(_)));
}
