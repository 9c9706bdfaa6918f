use screen_13::driver::compute::{
    ComputePipeline, ComputePipelineBuild, ComputePipelineInfo, ComputePipelineInfoBuilder, Event,
    Progress, Request,
};
use screen_13::driver::layout_cache::LayoutCache;
use screen_13::driver::shader::{
    DescriptorBinding, DescriptorBindingMap, DescriptorEntry, DescriptorInfo, DescriptorKind,
    PushConstantRange, SetBinding, Shader,
};
use screen_13::driver::{
    DescriptorSetLayout, DriverError, Pipeline, PipelineLayout, ShaderModule,
};

fn entry(set: u32, binding: u32, kind: DescriptorKind, count: u32) -> DescriptorEntry {
    DescriptorEntry { binding: DescriptorBinding(set, binding), info: DescriptorInfo { kind, count } }
}

fn shader(entries: Vec<DescriptorEntry>) -> Shader {
    Shader {
        spirv: vec![0u8; 16],
        entry_name: String::from("main"),
        specialization_info: None,
        descriptor_bindings: DescriptorBindingMap::from_entries(entries).unwrap(),
        push_constants: None,
    }
}

/// A device that names the objects it creates 1, 2, 3, ... and refuses the
/// requests for which `refuse` says so. Returns how the build ended and what
/// was asked of the device.
fn run(
    build: ComputePipelineBuild,
    refuse: fn(&Request) -> bool,
) -> (LayoutCache, Result<ComputePipeline, DriverError>, Vec<Request>) {
    let mut build = build;
    let mut requests = Vec::new();
    let mut next = 0u64;
    loop {
        let request = build.request();
        requests.push(request);
        let event = match request {
            Request::DestroyShaderModule { .. } | Request::DestroyPipelineLayout { .. } => {
                Event::Destroyed
            }
            _ if refuse(&request) => Event::Failed,
            _ => {
                next += 1;
                Event::Created(next)
            }
        };
        match build.advance(event) {
            Progress::Pending(pending) => build = pending,
            Progress::Finished(cache, result) => return (cache, result, requests),
        }
    }
}

fn never(_: &Request) -> bool {
    false
}

#[test]
fn unsized_binding_gets_the_default_count() {
    let build = ComputePipeline::create(
        LayoutCache::new(),
        ComputePipelineInfo::default(),
        shader(vec![entry(0, 0, DescriptorKind::StorageImage, 0)]),
    );
    assert_eq!(build.request(), Request::CreateDescriptorSetLayout { set: 0 });
    assert_eq!(build.sets().len(), 1);
    assert_eq!(
        build.sets()[0].bindings,
        vec![SetBinding {
            binding: 0,
            info: DescriptorInfo { kind: DescriptorKind::StorageImage, count: 8192 },
        }]
    );
    let (_, result, _) = run(build, never);
    let pipeline = result.unwrap();
    assert_eq!(pipeline.descriptor_bindings.entries()[0].info.count, 8192);
    assert_eq!(pipeline.descriptor_info.sets[0].bindings[0].info.count, 8192);
    assert_eq!(pipeline.info.bindless_descriptor_count, 8192);
}

#[test]
fn unsized_binding_gets_the_configured_count() {
    let info = ComputePipelineInfoBuilder::default().bindless_descriptor_count(64).build();
    let declared = vec![
        entry(0, 0, DescriptorKind::StorageImage, 0),
        entry(0, 1, DescriptorKind::UniformBuffer, 1),
        entry(1, 0, DescriptorKind::SampledImage, 0),
        entry(1, 4, DescriptorKind::Sampler, 3),
    ];
    let (_, result, _) = run(ComputePipeline::create(LayoutCache::new(), info, shader(declared)), never);
    let pipeline = result.unwrap();
    assert_eq!(
        *pipeline.descriptor_bindings.entries(),
        vec![
            entry(0, 0, DescriptorKind::StorageImage, 64),
            entry(0, 1, DescriptorKind::UniformBuffer, 1),
            entry(1, 0, DescriptorKind::SampledImage, 64),
            entry(1, 4, DescriptorKind::Sampler, 3),
        ]
    );
}

#[test]
fn the_shader_keeps_what_it_declared() {
    let build = ComputePipeline::create(
        LayoutCache::new(),
        ComputePipelineInfo::default(),
        shader(vec![entry(0, 0, DescriptorKind::StorageImage, 0)]),
    );
    assert_eq!(build.shader().descriptor_bindings.entries()[0].info.count, 0);
    assert_eq!(build.descriptor_bindings().entries()[0].info.count, 8192);
    assert_eq!(build.shader().entry_name, "main");
    assert_eq!(build.info().bindless_descriptor_count, 8192);
}

#[test]
fn info_defaults() {
    let info = ComputePipelineInfo::default();
    assert_eq!(info.bindless_descriptor_count, 8192);
    assert_eq!(info.name, None);
    let built = ComputePipelineInfoBuilder::default().build();
    assert_eq!(built.bindless_descriptor_count, 8192);
    assert_eq!(built.name, None);
}

#[test]
fn info_builder_sets_what_is_given() {
    let info = ComputePipelineInfoBuilder::default()
        .name(String::from("blur"))
        .bindless_descriptor_count(0)
        .build();
    assert_eq!(info.bindless_descriptor_count, 0);
    assert_eq!(info.name.as_deref(), Some("blur"));
    let named = ComputePipelineInfoBuilder::default().name(String::from("n")).build();
    assert_eq!(named.bindless_descriptor_count, 8192);
    let converted: ComputePipelineInfo =
        ComputePipelineInfoBuilder::default().bindless_descriptor_count(5).into();
    assert_eq!(converted.bindless_descriptor_count, 5);
    assert_eq!(converted.name, None);
}

#[test]
fn a_build_asks_for_each_object_in_turn() {
    let mut with_push_constants = shader(vec![
        entry(0, 0, DescriptorKind::StorageBuffer, 1),
        entry(2, 0, DescriptorKind::StorageBuffer, 2),
    ]);
    with_push_constants.push_constants =
        Some(PushConstantRange { stage_flags: 0x20, offset: 0, size: 16 });
    let build = ComputePipeline::create(
        LayoutCache::new(),
        ComputePipelineInfo::default(),
        with_push_constants,
    );
    let (cache, result, requests) = run(build, never);
    assert_eq!(
        requests,
        vec![
            Request::CreateDescriptorSetLayout { set: 0 },
            Request::CreateDescriptorSetLayout { set: 1 },
            Request::CreateShaderModule,
            Request::CreatePipelineLayout,
            Request::CreatePipeline { module: ShaderModule(3), layout: PipelineLayout(4) },
            Request::DestroyShaderModule { module: ShaderModule(3) },
        ]
    );
    let pipeline = result.unwrap();
    assert_eq!(pipeline.pipeline(), Pipeline(5));
    assert_eq!(pipeline.layout, PipelineLayout(4));
    assert_eq!(
        pipeline.descriptor_info.layouts,
        vec![DescriptorSetLayout(1), DescriptorSetLayout(2)]
    );
    assert_eq!(
        pipeline.descriptor_info.sets.iter().map(|s| s.set).collect::<Vec<_>>(),
        vec![0, 2]
    );
    assert_eq!(
        pipeline.push_constants,
        Some(PushConstantRange { stage_flags: 0x20, offset: 0, size: 16 })
    );
    assert_eq!(cache.len(), 2);
    assert_eq!(pipeline.destroy(), (Pipeline(5), PipelineLayout(4)));
}

#[test]
fn a_shader_without_descriptors_needs_no_set_layout() {
    let build =
        ComputePipeline::create(LayoutCache::new(), ComputePipelineInfo::default(), shader(vec![]));
    assert_eq!(build.request(), Request::CreateShaderModule);
    assert!(build.set_layouts().is_empty());
    let (cache, result, requests) = run(build, never);
    assert_eq!(requests.len(), 4);
    assert!(result.unwrap().descriptor_info.layouts.is_empty());
    assert_eq!(cache.len(), 0);
}

#[test]
fn sets_with_the_same_bindings_share_a_layout() {
    let build = ComputePipeline::create(
        LayoutCache::new(),
        ComputePipelineInfo::default(),
        shader(vec![
            entry(0, 0, DescriptorKind::StorageImage, 0),
            entry(1, 0, DescriptorKind::StorageImage, 8192),
            entry(2, 0, DescriptorKind::StorageImage, 1),
        ]),
    );
    let (cache, result, requests) = run(build, never);
    assert_eq!(
        requests[..3],
        [
            Request::CreateDescriptorSetLayout { set: 0 },
            Request::CreateDescriptorSetLayout { set: 2 },
            Request::CreateShaderModule,
        ]
    );
    assert_eq!(
        result.unwrap().descriptor_info.layouts,
        vec![DescriptorSetLayout(1), DescriptorSetLayout(1), DescriptorSetLayout(2)]
    );
    assert_eq!(cache.len(), 2);
}

#[test]
fn a_second_pipeline_of_the_same_shape_creates_no_layout() {
    let declared = vec![
        entry(0, 0, DescriptorKind::StorageImage, 0),
        entry(0, 1, DescriptorKind::UniformBuffer, 1),
    ];
    let first = ComputePipeline::create(
        LayoutCache::new(),
        ComputePipelineInfo::default(),
        shader(declared.clone()),
    );
    let (cache, first, _) = run(first, never);
    let second =
        ComputePipeline::create(cache, ComputePipelineInfo::default(), shader(declared.clone()));
    assert_eq!(second.request(), Request::CreateShaderModule);
    assert_eq!(*second.set_layouts(), vec![DescriptorSetLayout(1)]);
    let (cache, second, requests) = run(second, never);
    assert_eq!(requests[0], Request::CreateShaderModule);
    assert_eq!(
        second.unwrap().descriptor_info.layouts,
        first.unwrap().descriptor_info.layouts
    );
    assert_eq!(cache.len(), 1);
    let other_count = ComputePipelineInfoBuilder::default().bindless_descriptor_count(16).build();
    let third = ComputePipeline::create(cache, other_count, shader(declared));
    assert_eq!(third.request(), Request::CreateDescriptorSetLayout { set: 0 });
}

#[test]
fn a_refused_set_layout_ends_the_build() {
    let build = ComputePipeline::create(
        LayoutCache::new(),
        ComputePipelineInfo::default(),
        shader(vec![
            entry(0, 0, DescriptorKind::StorageImage, 1),
            entry(1, 0, DescriptorKind::StorageImage, 2),
        ]),
    );
    let (cache, result, requests) =
        run(build, |r| *r == Request::CreateDescriptorSetLayout { set: 1 });
    assert_eq!(result.err(), Some(DriverError::Unsupported));
    assert_eq!(
        requests,
        vec![
            Request::CreateDescriptorSetLayout { set: 0 },
            Request::CreateDescriptorSetLayout { set: 1 },
        ]
    );
    assert_eq!(cache.len(), 1);
}

#[test]
fn a_refused_shader_module_ends_the_build() {
    let build =
        ComputePipeline::create(LayoutCache::new(), ComputePipelineInfo::default(), shader(vec![]));
    let (_, result, requests) = run(build, |r| *r == Request::CreateShaderModule);
    assert_eq!(result.err(), Some(DriverError::Unsupported));
    assert_eq!(requests, vec![Request::CreateShaderModule]);
}

#[test]
fn a_refused_pipeline_layout_releases_the_module() {
    let build =
        ComputePipeline::create(LayoutCache::new(), ComputePipelineInfo::default(), shader(vec![]));
    let (_, result, requests) = run(build, |r| *r == Request::CreatePipelineLayout);
    assert_eq!(result.err(), Some(DriverError::Unsupported));
    assert_eq!(
        requests,
        vec![
            Request::CreateShaderModule,
            Request::CreatePipelineLayout,
            Request::DestroyShaderModule { module: ShaderModule(1) },
        ]
    );
}

#[test]
fn a_refused_pipeline_releases_module_and_layout() {
    let build =
        ComputePipeline::create(LayoutCache::new(), ComputePipelineInfo::default(), shader(vec![]));
    let (_, result, requests) = run(build, |r| matches!(r, Request::CreatePipeline { .. }));
    assert_eq!(result.err(), Some(DriverError::Unsupported));
    assert_eq!(
        requests,
        vec![
            Request::CreateShaderModule,
            Request::CreatePipelineLayout,
            Request::CreatePipeline { module: ShaderModule(1), layout: PipelineLayout(2) },
            Request::DestroyShaderModule { module: ShaderModule(1) },
            Request::DestroyPipelineLayout { layout: PipelineLayout(2) },
        ]
    );
}

#[test]
fn an_answer_that_creates_nothing_counts_as_a_refusal() {
    let build =
        ComputePipeline::create(LayoutCache::new(), ComputePipelineInfo::default(), shader(vec![]));
    match build.advance(Event::Destroyed) {
        Progress::Finished(_, result) => assert_eq!(result.err(), Some(DriverError::Unsupported)),
        Progress::Pending(_) => panic!("no module was created"),
    }
}

#[test]
fn the_module_is_released_whatever_the_answer_to_its_release() {
    let build =
        ComputePipeline::create(LayoutCache::new(), ComputePipelineInfo::default(), shader(vec![]));
    let mut progress = Progress::Pending(build);
    for event in [Event::Created(1), Event::Created(2), Event::Created(3), Event::Failed] {
        progress = match progress {
            Progress::Pending(build) => build.advance(event),
            Progress::Finished(..) => panic!("the build ended early"),
        };
    }
    match progress {
        Progress::Finished(_, result) => assert_eq!(result.unwrap().pipeline(), Pipeline(3)),
        Progress::Pending(_) => panic!("the build did not end"),
    }
}

#[test]
fn entries_have_to_ascend() {
    let kind = DescriptorKind::UniformBuffer;
    assert!(DescriptorBindingMap::from_entries(vec![]).is_some());
    assert!(DescriptorBindingMap::from_entries(vec![entry(3, 9, kind, 1)]).is_some());
    assert!(DescriptorBindingMap::from_entries(vec![
        entry(0, 5, kind, 1),
        entry(1, 0, kind, 1),
        entry(1, 1, kind, 1)
    ])
    .is_some());
    assert!(
        DescriptorBindingMap::from_entries(vec![entry(0, 1, kind, 1), entry(0, 1, kind, 2)])
            .is_none()
    );
    assert!(
        DescriptorBindingMap::from_entries(vec![entry(1, 0, kind, 1), entry(0, 7, kind, 1)])
            .is_none()
    );
    assert!(DescriptorBindingMap::from_entries(vec![
        entry(0, 0, kind, 1),
        entry(0, 2, kind, 1),
        entry(0, 1, kind, 1)
    ])
    .is_none());
}

#[test]
fn bindings_fall_into_their_sets() {
    let map = DescriptorBindingMap::from_entries(vec![
        entry(0, 0, DescriptorKind::Sampler, 1),
        entry(0, 3, DescriptorKind::SampledImage, 0),
        entry(2, 1, DescriptorKind::StorageBuffer, 4),
        entry(5, 0, DescriptorKind::UniformBuffer, 1),
        entry(5, 1, DescriptorKind::UniformBuffer, 1),
        entry(5, 2, DescriptorKind::InputAttachment, 1),
    ])
    .unwrap();
    assert_eq!(map.len(), 6);
    let sets = map.sets();
    assert_eq!(sets.iter().map(|s| s.set).collect::<Vec<_>>(), vec![0, 2, 5]);
    assert_eq!(
        sets.iter()
            .map(|s| s.bindings.iter().map(|b| b.binding).collect::<Vec<_>>())
            .collect::<Vec<_>>(),
        vec![vec![0, 3], vec![1], vec![0, 1, 2]]
    );
    assert_eq!(
        sets[0].bindings[1],
        SetBinding {
            binding: 3,
            info: DescriptorInfo { kind: DescriptorKind::SampledImage, count: 0 },
        }
    );
    assert!(DescriptorBindingMap::new().sets().is_empty());
}

#[test]
fn sizing_leaves_declared_lengths_alone() {
    let map = DescriptorBindingMap::from_entries(vec![
        entry(0, 0, DescriptorKind::Sampler, 1),
        entry(0, 1, DescriptorKind::SampledImage, 0),
        entry(1, 0, DescriptorKind::StorageBuffer, u32::MAX),
    ])
    .unwrap();
    let sized = map.with_bindless_count(7);
    assert_eq!(
        *sized.entries(),
        vec![
            entry(0, 0, DescriptorKind::Sampler, 1),
            entry(0, 1, DescriptorKind::SampledImage, 7),
            entry(1, 0, DescriptorKind::StorageBuffer, u32::MAX),
        ]
    );
    assert_eq!(map.entries()[1].info.count, 0);
    let mut info = DescriptorInfo { kind: DescriptorKind::Sampler, count: 0 };
    assert_eq!(info.binding_count(), 0);
    info.set_binding_count(9);
    assert_eq!(info, DescriptorInfo { kind: DescriptorKind::Sampler, count: 9 });
}

#[test]
fn slots_are_ordered_by_set_then_binding() {
    assert!(DescriptorBinding(0, 9).is_before(&DescriptorBinding(1, 0)));
    assert!(DescriptorBinding(1, 0).is_before(&DescriptorBinding(1, 1)));
    assert!(!DescriptorBinding(1, 1).is_before(&DescriptorBinding(1, 1)));
    assert!(!DescriptorBinding(2, 0).is_before(&DescriptorBinding(1, 5)));
}

#[test]
fn cache_finds_what_was_put_in() {
    let a = vec![SetBinding {
        binding: 0,
        info: DescriptorInfo { kind: DescriptorKind::Sampler, count: 1 },
    }];
    let b = vec![SetBinding {
        binding: 0,
        info: DescriptorInfo { kind: DescriptorKind::Sampler, count: 2 },
    }];
    let mut cache = LayoutCache::new();
    assert_eq!(cache.get(&a), None);
    cache.insert(a.clone(), DescriptorSetLayout(10));
    cache.insert(vec![], DescriptorSetLayout(11));
    assert_eq!(cache.get(&a), Some(DescriptorSetLayout(10)));
    assert_eq!(cache.get(&b), None);
    assert_eq!(cache.get(&vec![]), Some(DescriptorSetLayout(11)));
    assert_eq!(cache.len(), 2);
    assert_eq!(cache.drain(), vec![DescriptorSetLayout(10), DescriptorSetLayout(11)]);
    assert_eq!(cache.len(), 0);
    assert_eq!(cache.get(&a), None);
}

#[test]
fn shader_words_are_four_bytes() {
    let mut s = shader(vec![]);
    assert!(s.is_whole_words());
    s.spirv.push(0);
    assert!(!s.is_whole_words());
    s.spirv.clear();
    assert!(s.is_whole_words());
}
