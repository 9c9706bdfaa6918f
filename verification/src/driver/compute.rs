//! Compute pipelines and the steps by which one is built.
//!
//! Building a pipeline takes several objects of the device: a layout for each
//! descriptor set, a shader module, a pipeline layout and the pipeline itself.
//! A build decides which of them to ask for next and what to release when the
//! device refuses one. The caller carries each request out and reports back.

use crate::driver::layout_cache::{
    cached, is_cached, lemma_cached_after_insert, unambiguous, CachedLayout, LayoutCache,
};
use crate::driver::shader::{
    set_models, sets_of, sized, DescriptorBindingMap, DescriptorEntry, DescriptorSet,
    DescriptorSetModel, PushConstantRange, SetBinding, Shader,
};
use crate::driver::{DescriptorSetLayout, DriverError, Pipeline, PipelineLayout, ShaderModule};
use vstd::prelude::*;

verus! {

/// What to do when the shader module has been released.
#[derive(Clone, Copy, Debug, PartialEq, Eq, Structural)]
pub enum AfterModule {
    /// The pipeline was created: hand it over.
    Finish { layout: PipelineLayout, pipeline: Pipeline },
    /// The pipeline was refused: release its layout, then fail.
    ReleaseLayout { layout: PipelineLayout },
    /// The pipeline layout was refused: fail.
    Fail,
}

/// Where a build stands: what it has asked the device for and is waiting on,
/// together with the objects that it has to release before it ends.
#[derive(Clone, Copy, Debug, PartialEq, Eq, Structural)]
pub enum Phase {
    SetLayout,
    ShaderModule,
    PipelineLayout { module: ShaderModule },
    Pipeline { module: ShaderModule, layout: PipelineLayout },
    ReleaseModule { module: ShaderModule, then: AfterModule },
    ReleaseLayout { layout: PipelineLayout },
}

/// What a build asks the device to do next.
#[derive(Clone, Copy, Debug, PartialEq, Eq, Structural)]
pub enum Request {
    /// Create a layout for the descriptor set at place `set` among the sets of
    /// the build.
    CreateDescriptorSetLayout { set: usize },
    /// Create a module from the instruction stream of the shader.
    CreateShaderModule,
    /// Create a pipeline layout from the set layouts of the build and the push
    /// constants of the shader.
    CreatePipelineLayout,
    /// Create the pipeline from the entry point of `module`.
    CreatePipeline { module: ShaderModule, layout: PipelineLayout },
    DestroyShaderModule { module: ShaderModule },
    DestroyPipelineLayout { layout: PipelineLayout },
}

/// What the device answers to a request.
#[derive(Clone, Copy, Debug, PartialEq, Eq, Structural)]
pub enum Event {
    /// The object was created and has this name.
    Created(u64),
    /// The device refused to create the object.
    Failed,
    /// The object was destroyed.
    Destroyed,
}

/// Information used to create a compute pipeline.
#[derive(Clone, Debug)]
pub struct ComputePipelineInfo {
    /// The length given to a descriptor array that the shader declares without
    /// one.
    pub bindless_descriptor_count: u32,
    /// A descriptive name used in debugging messages.
    pub name: Option<String>,
}

/// The length that descriptor arrays without one get unless another is
/// configured.
pub const DEFAULT_BINDLESS_DESCRIPTOR_COUNT: u32 = 8192;

impl Default for ComputePipelineInfo {
    fn default() -> (r: ComputePipelineInfo)
        ensures
            r.bindless_descriptor_count == DEFAULT_BINDLESS_DESCRIPTOR_COUNT,
            r.name is None,
    {
        ComputePipelineInfo {
            bindless_descriptor_count: DEFAULT_BINDLESS_DESCRIPTOR_COUNT,
            name: None,
        }
    }
}

/// Collects the settings of a `ComputePipelineInfo`. What is not set keeps its
/// default.
#[derive(Clone, Debug)]
pub struct ComputePipelineInfoBuilder {
    pub bindless_descriptor_count: Option<u32>,
    pub name: Option<String>,
}

impl Default for ComputePipelineInfoBuilder {
    fn default() -> (r: ComputePipelineInfoBuilder)
        ensures
            r.bindless_descriptor_count is None,
            r.name is None,
    {
        ComputePipelineInfoBuilder { bindless_descriptor_count: None, name: None }
    }
}

impl ComputePipelineInfoBuilder {
    /// The information that `build` makes of this builder.
    pub open spec fn built(self) -> ComputePipelineInfo {
        ComputePipelineInfo {
            bindless_descriptor_count: match self.bindless_descriptor_count {
                Some(count) => count,
                None => DEFAULT_BINDLESS_DESCRIPTOR_COUNT,
            },
            name: self.name,
        }
    }

    pub fn bindless_descriptor_count(self, value: u32) -> (r: Self)
        ensures
            r.bindless_descriptor_count == Some(value),
            r.name == self.name,
    {
        ComputePipelineInfoBuilder { bindless_descriptor_count: Some(value), name: self.name }
    }

    pub fn name(self, value: String) -> (r: Self)
        ensures
            r.bindless_descriptor_count == self.bindless_descriptor_count,
            r.name == Some(value),
    {
        ComputePipelineInfoBuilder {
            bindless_descriptor_count: self.bindless_descriptor_count,
            name: Some(value),
        }
    }

    /// Builds a new `ComputePipelineInfo`.
    pub fn build(self) -> (r: ComputePipelineInfo)
        ensures
            r == self.built(),
    {
        let bindless_descriptor_count = match self.bindless_descriptor_count {
            Some(count) => count,
            None => DEFAULT_BINDLESS_DESCRIPTOR_COUNT,
        };
        ComputePipelineInfo { bindless_descriptor_count, name: self.name }
    }
}

impl vstd::std_specs::convert::FromSpecImpl<ComputePipelineInfoBuilder> for ComputePipelineInfo {
    open spec fn obeys_from_spec() -> bool {
        true
    }

    open spec fn from_spec(info: ComputePipelineInfoBuilder) -> ComputePipelineInfo {
        info.built()
    }
}

impl From<ComputePipelineInfoBuilder> for ComputePipelineInfo {
    fn from(info: ComputePipelineInfoBuilder) -> (r: ComputePipelineInfo) {
        info.build()
    }
}

/// The descriptor sets of a pipeline and the layout of each.
#[derive(Debug)]
pub struct PipelineDescriptorInfo {
    pub sets: Vec<DescriptorSet>,
    pub layouts: Vec<DescriptorSetLayout>,
}

/// A compute pipeline of the device, with what it was built from.
#[derive(Debug)]
pub struct ComputePipeline {
    pub descriptor_bindings: DescriptorBindingMap,
    pub descriptor_info: PipelineDescriptorInfo,
    pub layout: PipelineLayout,
    /// Information used to create this object.
    pub info: ComputePipelineInfo,
    pipeline: Pipeline,
    pub push_constants: Option<PushConstantRange>,
}

/// What a compute pipeline is, to its contracts.
pub ghost struct PipelineModel {
    /// The descriptors of the shader, each with its final length.
    pub descriptor_bindings: Seq<DescriptorEntry>,
    pub sets: Seq<DescriptorSetModel>,
    pub set_layouts: Seq<DescriptorSetLayout>,
    pub layout: PipelineLayout,
    pub info: ComputePipelineInfo,
    pub pipeline: Pipeline,
    pub push_constants: Option<PushConstantRange>,
}

impl View for ComputePipeline {
    type V = PipelineModel;

    closed spec fn view(&self) -> PipelineModel {
        PipelineModel {
            descriptor_bindings: self.descriptor_bindings@,
            sets: set_models(self.descriptor_info.sets@),
            set_layouts: self.descriptor_info.layouts@,
            layout: self.layout,
            info: self.info,
            pipeline: self.pipeline,
            push_constants: self.push_constants,
        }
    }
}

/// The set layouts `layouts`, which stand for the first sets of `sets`,
/// followed by what `cache` holds for the sets after them, up to the first set
/// for which it holds nothing.
pub open spec fn resolved(
    sets: Seq<DescriptorSetModel>,
    cache: Seq<CachedLayout>,
    layouts: Seq<DescriptorSetLayout>,
) -> Seq<DescriptorSetLayout>
    decreases sets.len() - layouts.len(),
{
    if layouts.len() >= sets.len() {
        layouts
    } else {
        match cached(cache, sets[layouts.len() as int].bindings) {
            Some(layout) => resolved(sets, cache, layouts.push(layout)),
            None => layouts,
        }
    }
}

/// What a build is, to its contracts.
pub ghost struct BuildModel {
    pub info: ComputePipelineInfo,
    pub shader: Shader,
    /// The descriptors of the shader, each with its final length.
    pub bindings: Seq<DescriptorEntry>,
    /// The layouts of the first descriptor sets, as far as they are known.
    pub set_layouts: Seq<DescriptorSetLayout>,
    pub cache: Seq<CachedLayout>,
    pub phase: Phase,
}

/// How a build goes on after an event.
pub ghost enum ProgressModel {
    Pending(BuildModel),
    Finished { cache: Seq<CachedLayout>, result: Result<PipelineModel, DriverError> },
}

impl BuildModel {
    /// The descriptor sets of the pipeline.
    pub open spec fn sets(self) -> Seq<DescriptorSetModel> {
        sets_of(self.bindings)
    }

    pub open spec fn wf(self) -> bool {
        &&& self.bindings == sized(
            self.shader.descriptor_bindings@,
            self.info.bindless_descriptor_count,
        )
        &&& unambiguous(self.cache)
        &&& self.set_layouts.len() <= self.sets().len()
        &&& forall|k: int|
            0 <= k < self.set_layouts.len() ==> cached(self.cache, (#[trigger] self.sets()[k]).bindings)
                == Some(self.set_layouts[k])
        &&& self.phase is SetLayout ==> self.set_layouts.len() < self.sets().len() && !is_cached(
            self.cache,
            self.sets()[self.set_layouts.len() as int].bindings,
        )
        &&& !(self.phase is SetLayout) ==> self.set_layouts.len() == self.sets().len()
    }

    /// The build that begins with `cache`: the arrays without a length get
    /// the configured one, and the sets that the cache has layouts for need
    /// none from the device.
    pub open spec fn begun(cache: Seq<CachedLayout>, info: ComputePipelineInfo, shader: Shader)
        -> BuildModel {
        BuildModel {
            info,
            shader,
            bindings: sized(shader.descriptor_bindings@, info.bindless_descriptor_count),
            set_layouts: Seq::empty(),
            cache,
            phase: Phase::SetLayout,
        }.settled()
    }

    /// This build once the cache has been asked for every set layout that is
    /// still missing: it waits for the device to create the first one that the
    /// cache does not hold, or, with all of them known, for the shader module.
    pub open spec fn settled(self) -> BuildModel {
        let set_layouts = resolved(self.sets(), self.cache, self.set_layouts);
        BuildModel {
            set_layouts,
            phase: if set_layouts.len() >= self.sets().len() {
                Phase::ShaderModule
            } else {
                Phase::SetLayout
            },
            ..self
        }
    }

    /// What the build is waiting for.
    pub open spec fn request(self) -> Request {
        match self.phase {
            Phase::SetLayout => Request::CreateDescriptorSetLayout {
                set: self.set_layouts.len() as usize,
            },
            Phase::ShaderModule => Request::CreateShaderModule,
            Phase::PipelineLayout { .. } => Request::CreatePipelineLayout,
            Phase::Pipeline { module, layout } => Request::CreatePipeline { module, layout },
            Phase::ReleaseModule { module, .. } => Request::DestroyShaderModule { module },
            Phase::ReleaseLayout { layout } => Request::DestroyPipelineLayout { layout },
        }
    }

    /// The pipeline that this build hands over.
    pub open spec fn pipeline(self, layout: PipelineLayout, pipeline: Pipeline) -> PipelineModel {
        PipelineModel {
            descriptor_bindings: self.bindings,
            sets: self.sets(),
            set_layouts: self.set_layouts,
            layout,
            info: self.info,
            pipeline,
            push_constants: self.shader.push_constants,
        }
    }

    /// The build has failed and has nothing left to release.
    pub open spec fn failed(self) -> ProgressModel {
        ProgressModel::Finished { cache: self.cache, result: Err(DriverError::Unsupported) }
    }

    /// The build now waits in `phase`.
    pub open spec fn waiting(self, phase: Phase) -> ProgressModel {
        ProgressModel::Pending(BuildModel { phase, ..self })
    }

    /// How the build goes on when the device answers its request with
    /// `event`.
    ///
    /// An object that was asked for has been created only if the event says
    /// so; any other answer counts as a refusal. The answer to a release is
    /// not looked at: a release does not fail.
    ///
    /// A refused set layout or shader module ends the build, which holds
    /// nothing of its own yet. Once the shader module exists it is released
    /// before the build ends, however it ends; a pipeline layout whose
    /// pipeline was refused is released after it.
    pub open spec fn advanced(self, event: Event) -> ProgressModel {
        match self.phase {
            Phase::SetLayout => match event {
                Event::Created(name) => {
                    let layout = DescriptorSetLayout(name);
                    let entry = CachedLayout {
                        bindings: self.sets()[self.set_layouts.len() as int].bindings,
                        layout,
                    };
                    ProgressModel::Pending(
                        BuildModel {
                            set_layouts: self.set_layouts.push(layout),
                            cache: self.cache.push(entry),
                            ..self
                        }.settled(),
                    )
                },
                _ => self.failed(),
            },
            Phase::ShaderModule => match event {
                Event::Created(name) => self.waiting(
                    Phase::PipelineLayout { module: ShaderModule(name) },
                ),
                _ => self.failed(),
            },
            Phase::PipelineLayout { module } => match event {
                Event::Created(name) => self.waiting(
                    Phase::Pipeline { module, layout: PipelineLayout(name) },
                ),
                _ => self.waiting(Phase::ReleaseModule { module, then: AfterModule::Fail }),
            },
            Phase::Pipeline { module, layout } => match event {
                Event::Created(name) => self.waiting(
                    Phase::ReleaseModule {
                        module,
                        then: AfterModule::Finish { layout, pipeline: Pipeline(name) },
                    },
                ),
                _ => self.waiting(
                    Phase::ReleaseModule { module, then: AfterModule::ReleaseLayout { layout } },
                ),
            },
            Phase::ReleaseModule { then, .. } => match then {
                AfterModule::Finish { layout, pipeline } => ProgressModel::Finished {
                    cache: self.cache,
                    result: Ok(self.pipeline(layout, pipeline)),
                },
                AfterModule::ReleaseLayout { layout } => self.waiting(
                    Phase::ReleaseLayout { layout },
                ),
                AfterModule::Fail => self.failed(),
            },
            Phase::ReleaseLayout { .. } => self.failed(),
        }
    }

    /// How the build stands after the device has answered with `events`, one
    /// after the other. Events that come after the build has ended are not
    /// looked at.
    pub open spec fn run(self, events: Seq<Event>) -> ProgressModel
        decreases events.len(),
    {
        if events.len() == 0 {
            ProgressModel::Pending(self)
        } else {
            match self.run(events.drop_last()) {
                ProgressModel::Pending(build) => build.advanced(events.last()),
                finished => finished,
            }
        }
    }
}

/// A build in progress. It holds the layout cache until it ends, so that no
/// other build can come between a miss in the cache and the layout that is
/// created for it.
pub struct ComputePipelineBuild {
    info: ComputePipelineInfo,
    shader: Shader,
    bindings: DescriptorBindingMap,
    sets: Vec<DescriptorSet>,
    set_layouts: Vec<DescriptorSetLayout>,
    cache: LayoutCache,
    phase: Phase,
}

impl View for ComputePipelineBuild {
    type V = BuildModel;

    closed spec fn view(&self) -> BuildModel {
        BuildModel {
            info: self.info,
            shader: self.shader,
            bindings: self.bindings@,
            set_layouts: self.set_layouts@,
            cache: self.cache@,
            phase: self.phase,
        }
    }
}

/// How a build goes on after an event: it waits for the answer to its next
/// request, or it has ended and gives back the cache, with the pipeline if it
/// was built.
pub enum Progress {
    Pending(ComputePipelineBuild),
    Finished(LayoutCache, Result<ComputePipeline, DriverError>),
}

impl Progress {
    pub open spec fn model(self) -> ProgressModel {
        match self {
            Progress::Pending(build) => ProgressModel::Pending(build@),
            Progress::Finished(cache, result) => ProgressModel::Finished {
                cache: cache@,
                result: match result {
                    Ok(pipeline) => Ok(pipeline@),
                    Err(error) => Err(error),
                },
            },
        }
    }

    pub open spec fn wf(self) -> bool {
        match self {
            Progress::Pending(build) => build.wf(),
            Progress::Finished(cache, _) => cache.wf(),
        }
    }
}

/// A copy of `bindings`.
fn copy_bindings(bindings: &Vec<SetBinding>) -> (r: Vec<SetBinding>)
    ensures
        r@ == bindings@,
{
    let mut copy: Vec<SetBinding> = Vec::new();
    let mut at: usize = 0;
    while at < bindings.len()
        invariant
            at <= bindings.len(),
            copy@ == bindings@.take(at as int),
        decreases bindings.len() - at,
    {
        copy.push(bindings[at]);
        assert(copy@ =~= bindings@.take(at + 1));
        at += 1;
    }
    assert(bindings@.take(at as int) == bindings@);
    copy
}

impl ComputePipelineBuild {
    pub closed spec fn wf(&self) -> bool {
        &&& self@.wf()
        &&& self.cache.wf()
        &&& set_models(self.sets@) == sets_of(self.bindings@)
    }

    /// Takes from the cache every set layout that is still missing, up to the
    /// first that the cache does not hold.
    fn settle(&mut self)
        requires
            old(self).cache.wf(),
            set_models(old(self).sets@) == sets_of(old(self).bindings@),
            old(self).set_layouts@.len() <= old(self).sets@.len(),
        ensures
            final(self)@ == old(self)@.settled(),
            final(self).cache.wf(),
            set_models(final(self).sets@) == sets_of(final(self).bindings@),
    {
        assert(set_models(self.sets@).len() == self.sets@.len());
        while self.set_layouts.len() < self.sets.len()
            invariant
                self.info == old(self).info,
                self.shader == old(self).shader,
                self.bindings == old(self).bindings,
                self.sets == old(self).sets,
                self.cache == old(self).cache,
                self.cache.wf(),
                set_models(self.sets@) == sets_of(self.bindings@),
                set_models(self.sets@).len() == self.sets@.len(),
                self.set_layouts@.len() <= self.sets@.len(),
                resolved(sets_of(self.bindings@), self.cache@, self.set_layouts@) == resolved(
                    sets_of(old(self).bindings@),
                    old(self).cache@,
                    old(self).set_layouts@,
                ),
            decreases self.sets.len() - self.set_layouts.len(),
        {
            let place = self.set_layouts.len();
            assert(set_models(self.sets@)[place as int] == self.sets@[place as int]@);
            match self.cache.get(&self.sets[place].bindings) {
                Some(layout) => {
                    self.set_layouts.push(layout);
                },
                None => {
                    self.phase = Phase::SetLayout;
                    return ;
                },
            }
        }
        self.phase = Phase::ShaderModule;
    }

    /// What the device is to do next.
    pub fn request(&self) -> (r: Request)
        ensures
            r == self@.request(),
    {
        match self.phase {
            Phase::SetLayout => Request::CreateDescriptorSetLayout { set: self.set_layouts.len() },
            Phase::ShaderModule => Request::CreateShaderModule,
            Phase::PipelineLayout { .. } => Request::CreatePipelineLayout,
            Phase::Pipeline { module, layout } => Request::CreatePipeline { module, layout },
            Phase::ReleaseModule { module, .. } => Request::DestroyShaderModule { module },
            Phase::ReleaseLayout { layout } => Request::DestroyPipelineLayout { layout },
        }
    }

    pub fn info(&self) -> (r: &ComputePipelineInfo)
        ensures
            *r == self@.info,
    {
        &self.info
    }

    /// The shader that the pipeline is built from.
    pub fn shader(&self) -> (r: &Shader)
        ensures
            *r == self@.shader,
    {
        &self.shader
    }

    /// The descriptors of the shader, each with its final length.
    pub fn descriptor_bindings(&self) -> (r: &DescriptorBindingMap)
        ensures
            r@ == self@.bindings,
    {
        &self.bindings
    }

    /// The descriptor sets of the pipeline, by ascending number of the set.
    pub fn sets(&self) -> (r: &Vec<DescriptorSet>)
        ensures
            self.wf() ==> set_models(r@) == self@.sets(),
    {
        &self.sets
    }

    /// The layouts of the first descriptor sets, as far as they are known: all
    /// of them once the build has asked for the shader module.
    pub fn set_layouts(&self) -> (r: &Vec<DescriptorSetLayout>)
        ensures
            r@ == self@.set_layouts,
    {
        &self.set_layouts
    }

    /// Takes the answer of the device to the request of this build and says
    /// how the build goes on.
    pub fn advance(self, event: Event) -> (r: Progress)
        requires
            self.wf(),
        ensures
            r.model() == self@.advanced(event),
            r.wf(),
    {
        let mut build = self;
        proof {
            lemma_advance_keeps_wf(build@, event);
        }
        match build.phase {
            Phase::SetLayout => match event {
                Event::Created(name) => {
                    let layout = DescriptorSetLayout(name);
                    let place = build.set_layouts.len();
                    assert(set_models(build.sets@).len() == build.sets@.len());
                    assert(set_models(build.sets@)[place as int] == build.sets@[place as int]@);
                    let bindings = copy_bindings(&build.sets[place].bindings);
                    build.cache.insert(bindings, layout);
                    build.set_layouts.push(layout);
                    build.settle();
                    Progress::Pending(build)
                },
                _ => Progress::Finished(build.cache, Err(DriverError::Unsupported)),
            },
            Phase::ShaderModule => match event {
                Event::Created(name) => {
                    build.phase = Phase::PipelineLayout { module: ShaderModule(name) };
                    Progress::Pending(build)
                },
                _ => Progress::Finished(build.cache, Err(DriverError::Unsupported)),
            },
            Phase::PipelineLayout { module } => {
                build.phase = match event {
                    Event::Created(name) => Phase::Pipeline { module, layout: PipelineLayout(name) },
                    _ => Phase::ReleaseModule { module, then: AfterModule::Fail },
                };
                Progress::Pending(build)
            },
            Phase::Pipeline { module, layout } => {
                let then = match event {
                    Event::Created(name) => AfterModule::Finish { layout, pipeline: Pipeline(name) },
                    _ => AfterModule::ReleaseLayout { layout },
                };
                build.phase = Phase::ReleaseModule { module, then };
                Progress::Pending(build)
            },
            Phase::ReleaseModule { module, then } => match then {
                AfterModule::Finish { layout, pipeline } => Progress::Finished(
                    build.cache,
                    Ok(
                        ComputePipeline {
                            descriptor_bindings: build.bindings,
                            descriptor_info: PipelineDescriptorInfo {
                                sets: build.sets,
                                layouts: build.set_layouts,
                            },
                            layout,
                            info: build.info,
                            pipeline,
                            push_constants: build.shader.push_constants,
                        },
                    ),
                ),
                AfterModule::ReleaseLayout { layout } => {
                    build.phase = Phase::ReleaseLayout { layout };
                    Progress::Pending(build)
                },
                AfterModule::Fail => Progress::Finished(
                    build.cache,
                    Err(DriverError::Unsupported),
                ),
            },
            Phase::ReleaseLayout { .. } => Progress::Finished(
                build.cache,
                Err(DriverError::Unsupported),
            ),
        }
    }
}

impl ComputePipeline {
    /// Begins to build a compute pipeline from `shader`.
    ///
    /// Descriptor arrays that the shader declares without a length get the
    /// length that `info` configures. The build takes the layouts of its
    /// descriptor sets from `cache` as far as they are there; it asks the
    /// device for the others and then for the rest of the pipeline, one
    /// request at a time.
    ///
    /// The instruction stream of the shader has to be made of whole words,
    /// which `Shader::is_whole_words` decides.
    pub fn create(cache: LayoutCache, info: ComputePipelineInfo, shader: Shader) -> (r:
        ComputePipelineBuild)
        requires
            cache.wf(),
            shader.whole_words(),
        ensures
            r.wf(),
            r@ == BuildModel::begun(cache@, info, shader),
    {
        let bindings = shader.descriptor_bindings.with_bindless_count(
            info.bindless_descriptor_count,
        );
        let sets = bindings.sets();
        let mut build = ComputePipelineBuild {
            info,
            shader,
            bindings,
            sets,
            set_layouts: Vec::new(),
            cache,
            phase: Phase::SetLayout,
        };
        proof {
            lemma_settled_wf(build@);
        }
        build.settle();
        build
    }

    /// The device's name for the pipeline.
    pub fn pipeline(&self) -> (r: Pipeline)
        ensures
            r == self@.pipeline,
    {
        self.pipeline
    }

    /// What is to be destroyed with this pipeline, in this order: the
    /// pipeline first, its layout after it. The layouts of the descriptor sets
    /// stay with the cache that they were taken from.
    pub fn destroy(&self) -> (r: (Pipeline, PipelineLayout))
        ensures
            r == (self@.pipeline, self@.layout),
    {
        (self.pipeline, self.layout)
    }
}

/// What `resolved` adds to the set layouts is what the cache holds for the
/// sets that follow, and it stops only at the end or at a set for which the
/// cache holds nothing.
pub proof fn lemma_resolved(
    sets: Seq<DescriptorSetModel>,
    cache: Seq<CachedLayout>,
    layouts: Seq<DescriptorSetLayout>,
)
    requires
        layouts.len() <= sets.len(),
        forall|k: int|
            0 <= k < layouts.len() ==> cached(cache, (#[trigger] sets[k]).bindings) == Some(
                layouts[k],
            ),
    ensures
        layouts.len() <= resolved(sets, cache, layouts).len() <= sets.len(),
        forall|k: int| 0 <= k < layouts.len() ==> resolved(sets, cache, layouts)[k] == layouts[k],
        forall|k: int|
            0 <= k < resolved(sets, cache, layouts).len() ==> cached(
                cache,
                (#[trigger] sets[k]).bindings,
            ) == Some(resolved(sets, cache, layouts)[k]),
        resolved(sets, cache, layouts).len() < sets.len() ==> !is_cached(
            cache,
            sets[resolved(sets, cache, layouts).len() as int].bindings,
        ),
    decreases sets.len() - layouts.len(),
{
    if layouts.len() < sets.len() {
        match cached(cache, sets[layouts.len() as int].bindings) {
            Some(layout) => {
                let longer = layouts.push(layout);
                assert forall|k: int| 0 <= k < longer.len() implies cached(
                    cache,
                    (#[trigger] sets[k]).bindings,
                ) == Some(longer[k]) by {
                    if k < layouts.len() {
                        assert(longer[k] == layouts[k]);
                    }
                }
                lemma_resolved(sets, cache, longer);
                assert forall|k: int| 0 <= k < layouts.len() implies resolved(
                    sets,
                    cache,
                    layouts,
                )[k] == layouts[k] by {
                    assert(longer[k] == layouts[k]);
                }
            },
            None => {},
        }
    }
}

/// A build that has taken what the cache holds is well formed.
pub proof fn lemma_settled_wf(build: BuildModel)
    requires
        build.bindings == sized(
            build.shader.descriptor_bindings@,
            build.info.bindless_descriptor_count,
        ),
        unambiguous(build.cache),
        build.set_layouts.len() <= build.sets().len(),
        forall|k: int|
            0 <= k < build.set_layouts.len() ==> cached(
                build.cache,
                (#[trigger] build.sets()[k]).bindings,
            ) == Some(build.set_layouts[k]),
    ensures
        build.settled().wf(),
{
    lemma_resolved(build.sets(), build.cache, build.set_layouts);
}

/// Every step keeps a build well formed, and keeps what it is built from. A
/// build that ends gives the cache back in order. A pipeline that it hands
/// over holds the descriptors of the shader with their final lengths, the
/// sets that they fall into and, for each set, the layout that the cache
/// holds for its bindings.
pub proof fn lemma_advance_keeps_wf(build: BuildModel, event: Event)
    requires
        build.wf(),
    ensures
        build.advanced(event) matches ProgressModel::Pending(next) ==> {
            &&& next.wf()
            &&& next.info == build.info
            &&& next.shader == build.shader
            &&& next.bindings == build.bindings
        },
        build.advanced(event) matches ProgressModel::Finished { cache, result } ==> {
            &&& unambiguous(cache)
            &&& result matches Ok(pipeline) ==> {
                &&& pipeline.info == build.info
                &&& pipeline.push_constants == build.shader.push_constants
                &&& pipeline.descriptor_bindings == sized(
                    build.shader.descriptor_bindings@,
                    build.info.bindless_descriptor_count,
                )
                &&& pipeline.sets == sets_of(pipeline.descriptor_bindings)
                &&& pipeline.set_layouts.len() == pipeline.sets.len()
                &&& forall|k: int|
                    0 <= k < pipeline.sets.len() ==> cached(
                        cache,
                        (#[trigger] pipeline.sets[k]).bindings,
                    ) == Some(pipeline.set_layouts[k])
            }
        },
{
    if build.phase is SetLayout {
        if let Event::Created(name) = event {
            let layout = DescriptorSetLayout(name);
            let sets = build.sets();
            let place = build.set_layouts.len() as int;
            let entry = CachedLayout { bindings: sets[place].bindings, layout };
            let grown = BuildModel {
                set_layouts: build.set_layouts.push(layout),
                cache: build.cache.push(entry),
                ..build
            };
            lemma_cached_after_insert(build.cache, entry, entry.bindings);
            assert forall|k: int| 0 <= k < grown.set_layouts.len() implies cached(
                grown.cache,
                (#[trigger] grown.sets()[k]).bindings,
            ) == Some(grown.set_layouts[k]) by {
                if k < place {
                    assert(cached(build.cache, sets[k].bindings) == Some(build.set_layouts[k]));
                    assert(is_cached(build.cache, sets[k].bindings));
                    lemma_cached_after_insert(build.cache, entry, sets[k].bindings);
                }
            }
            lemma_settled_wf(grown);
        }
    }
}

/// However the device answers, every pending state of a build is well formed
/// and is still the build of the same shader with the same settings.
pub proof fn lemma_run_keeps_wf(build: BuildModel, events: Seq<Event>)
    requires
        build.wf(),
    ensures
        build.run(events) matches ProgressModel::Pending(next) ==> {
            &&& next.wf()
            &&& next.info == build.info
            &&& next.shader == build.shader
        },
        build.run(events) matches ProgressModel::Finished { cache, result } ==> {
            &&& unambiguous(cache)
            &&& result matches Ok(pipeline) ==> {
                &&& pipeline.info == build.info
                &&& pipeline.push_constants == build.shader.push_constants
                &&& pipeline.descriptor_bindings == sized(
                    build.shader.descriptor_bindings@,
                    build.info.bindless_descriptor_count,
                )
                &&& pipeline.sets == sets_of(pipeline.descriptor_bindings)
                &&& pipeline.set_layouts.len() == pipeline.sets.len()
                &&& forall|k: int|
                    0 <= k < pipeline.sets.len() ==> cached(
                        cache,
                        (#[trigger] pipeline.sets[k]).bindings,
                    ) == Some(pipeline.set_layouts[k])
            }
        },
    decreases events.len(),
{
    if events.len() > 0 {
        lemma_run_keeps_wf(build, events.drop_last());
        if let ProgressModel::Pending(before) = build.run(events.drop_last()) {
            lemma_advance_keeps_wf(before, events.last());
        }
    }
}

/// A pipeline that is built has, at every binding of its layout that the
/// shader declares as an array without a length, the configured number of
/// descriptors, and at every other binding the number that the shader
/// declares. This holds whatever was cached and however the device answered
/// on the way.
pub proof fn lemma_built_pipeline_sizes_bindless(
    cache: Seq<CachedLayout>,
    info: ComputePipelineInfo,
    shader: Shader,
    events: Seq<Event>,
)
    requires
        unambiguous(cache),
    ensures
        BuildModel::begun(cache, info, shader).run(events) matches ProgressModel::Finished {
            result: Ok(pipeline),
            ..
        } ==> {
            &&& pipeline.info == info
            &&& pipeline.sets == sets_of(pipeline.descriptor_bindings)
            &&& pipeline.descriptor_bindings.len() == shader.descriptor_bindings@.len()
            &&& forall|i: int|
                0 <= i < pipeline.descriptor_bindings.len() ==> {
                    let declared = shader.descriptor_bindings@[i];
                    let built = #[trigger] pipeline.descriptor_bindings[i];
                    &&& built.binding == declared.binding
                    &&& built.info.kind == declared.info.kind
                    &&& built.info.count == if declared.info.count == 0 {
                        info.bindless_descriptor_count
                    } else {
                        declared.info.count
                    }
                }
        },
{
    let first = BuildModel {
        info,
        shader,
        bindings: sized(shader.descriptor_bindings@, info.bindless_descriptor_count),
        set_layouts: Seq::empty(),
        cache,
        phase: Phase::SetLayout,
    };
    lemma_settled_wf(first);
    lemma_run_keeps_wf(first.settled(), events);
}

/// What a build holds of the device is released before the build ends.
///
/// A build that waits for its pipeline layout or its pipeline holds a shader
/// module. Whatever the device answers, the build goes on and does not end
/// before it has asked for that module to be destroyed; where the answer was a
/// refusal, this is the very next thing it asks for. If it was the pipeline
/// that was refused, the build asks next for the pipeline layout to be
/// destroyed, and only then does it fail.
pub proof fn lemma_refusal_releases(build: BuildModel, event: Event, released: Event, gone: Event)
    ensures
        build.phase matches Phase::PipelineLayout { module } ==> {
            &&& build.advanced(event) matches ProgressModel::Pending(next)
            &&& !(event is Created) ==> {
                &&& next.request() == Request::DestroyShaderModule { module }
                &&& next.advanced(released) == build.failed()
            }
        },
        build.phase matches Phase::Pipeline { module, layout } ==> {
            &&& build.advanced(event) matches ProgressModel::Pending(next)
            &&& next.request() == Request::DestroyShaderModule { module }
            &&& !(event is Created) ==> {
                &&& next.advanced(released) matches ProgressModel::Pending(last)
                &&& last.request() == Request::DestroyPipelineLayout { layout }
                &&& last.advanced(gone) == build.failed()
            }
            &&& event matches Event::Created(name) ==> next.advanced(released)
                == ProgressModel::Finished {
                cache: build.cache,
                result: Ok(build.pipeline(layout, Pipeline(name))),
            }
        },
{
}

} // verus!
