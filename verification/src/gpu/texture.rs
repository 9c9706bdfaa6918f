//! Textures: an image together with the synchronization state that the last
//! recorded command left it in, and the views taken of it so far.

use crate::gpu::flags::{Access, Aspects, PipelineStage};
use crate::gpu::format::{Format, Layout, SubresourceRange, Swizzle, Tiling, ViewKind};
use crate::math::Extent;
use vstd::prelude::*;

verus! {

/// What a recorded command expects of an image: how it is accessed, the layout
/// it is in, and the pipeline stage that touches it.
#[derive(Clone, Copy, Debug, PartialEq, Eq, Structural)]
pub struct State {
    pub access_mask: Access,
    pub layout: Layout,
    pub pipeline_stage: PipelineStage,
}

impl State {
    /// The state of an image that nothing has touched yet, and of an image
    /// that has just come back from the presentation engine: no access, no
    /// layout, top of the pipe.
    pub open spec fn untouched() -> State {
        State {
            access_mask: Access { bits: 0 },
            layout: Layout::Undefined,
            pipeline_stage: PipelineStage { bits: PipelineStage::TOP_OF_PIPE },
        }
    }

    /// The state of a new image created in `layout`. Only an image that the
    /// host has filled in advance has been accessed at all.
    pub open spec fn initial(layout: Layout) -> State {
        State {
            access_mask: if layout == Layout::Preinitialized {
                Access { bits: Access::HOST_WRITE }
            } else {
                Access { bits: 0 }
            },
            layout,
            pipeline_stage: PipelineStage { bits: PipelineStage::TOP_OF_PIPE },
        }
    }
}

/// A synchronization point to record: over `range`, the image leaves the state
/// `before` and enters the state `after`.
#[derive(Clone, Copy, Debug, PartialEq, Eq, Structural)]
pub struct Barrier {
    pub before: State,
    pub after: State,
    pub range: SubresourceRange,
}

/// What identifies a view of one image.
#[derive(Clone, Copy, Debug, PartialEq, Eq, Structural)]
pub struct ImageViewKey {
    pub view_kind: ViewKind,
    pub format: Format,
    pub swizzle: Swizzle,
    pub range: SubresourceRange,
}

impl ImageViewKey {
    /// The key of the plain two-dimensional color view in `format`.
    pub open spec fn default_2d(format: Format) -> ImageViewKey {
        ImageViewKey {
            view_kind: ViewKind::D2,
            format,
            swizzle: Swizzle::identity(),
            range: SubresourceRange::first(Aspects { bits: Aspects::COLOR }),
        }
    }
}

/// Whether no key occurs twice in `views`.
pub open spec fn distinct(views: Seq<ImageViewKey>) -> bool {
    forall|i: int, j: int| 0 <= i < j < views.len() ==> views[i] != views[j]
}

/// The views of an image once a view for `key` has been asked for: `key` is
/// added at the end unless it is there already.
pub open spec fn with_view(views: Seq<ImageViewKey>, key: ImageViewKey) -> Seq<ImageViewKey> {
    if views.contains(key) {
        views
    } else {
        views.push(key)
    }
}

/// The place of `key` among `views`.
pub open spec fn slot_of(views: Seq<ImageViewKey>, key: ImageViewKey) -> int {
    choose|i: int| 0 <= i < views.len() && views[i] == key
}

/// A view of a texture, named by its place among the views of that texture.
///
/// The device layer keeps one device view per place. `fresh` tells it that
/// this place was taken just now, so that the device view has yet to be
/// created; for a place seen before, the view that was created then is used.
#[derive(Clone, Copy, Debug, PartialEq, Eq, Structural)]
pub struct ImageViewRef {
    pub key: ImageViewKey,
    pub index: usize,
    pub fresh: bool,
}

/// An image that belongs to a presentation surface and is lent to the
/// application one frame at a time.
pub struct Image<B>(pub B);

/// An image, its size and format, its tracked synchronization state and the
/// views taken of it.
pub struct Texture<I> {
    dims: Extent,
    format: Format,
    layers: u16,
    mips: u8,
    image: I,
    state: State,
    views: Vec<ImageViewKey>,
}

/// What a texture is, to its contracts.
pub ghost struct TextureModel<I> {
    pub dims: Extent,
    pub format: Format,
    /// How many array layers the image has.
    pub layers: u16,
    /// How many mip levels the image has.
    pub mips: u8,
    pub image: I,
    /// The state that the last recorded transition left the image in.
    pub state: State,
    /// The keys of the views taken so far, each at its place.
    pub views: Seq<ImageViewKey>,
}

impl<I> TextureModel<I> {
    /// The texture once the transition to `request` has been recorded.
    pub open spec fn transitioned(self, request: State) -> TextureModel<I> {
        TextureModel { state: request, ..self }
    }

    /// The whole image: every mip level of every layer, in the depth aspect
    /// for a format with depth and in the color aspect for any other.
    pub open spec fn whole(self) -> SubresourceRange {
        SubresourceRange::spanning(self.format.barrier_aspects(), self.mips, self.layers)
    }

    /// The barrier that the transition to `request` records.
    pub open spec fn barrier_to(self, request: State) -> Barrier {
        Barrier { before: self.state, after: request, range: self.whole() }
    }

    /// The texture once the transitions to `requests` have been recorded in
    /// order.
    pub open spec fn replayed(self, requests: Seq<State>) -> TextureModel<I>
        decreases requests.len(),
    {
        if requests.len() == 0 {
            self
        } else {
            self.replayed(requests.drop_last()).transitioned(requests.last())
        }
    }

    /// The barriers that the transitions to `requests` record, in order.
    pub open spec fn barriers(self, requests: Seq<State>) -> Seq<Barrier>
        decreases requests.len(),
    {
        if requests.len() == 0 {
            Seq::empty()
        } else {
            self.barriers(requests.drop_last()).push(
                self.replayed(requests.drop_last()).barrier_to(requests.last()),
            )
        }
    }

    /// The texture once a view for `key` has been asked for.
    pub open spec fn viewed(self, key: ImageViewKey) -> TextureModel<I> {
        TextureModel { views: with_view(self.views, key), ..self }
    }
}

impl<I> View for Texture<I> {
    type V = TextureModel<I>;

    closed spec fn view(&self) -> TextureModel<I> {
        TextureModel {
            dims: self.dims,
            format: self.format,
            layers: self.layers,
            mips: self.mips,
            image: self.image,
            state: self.state,
            views: self.views@,
        }
    }
}

/// Picks the format and tiling of a new image from what the device offers:
/// `preferred` is its answer for the tiling `desired_tiling`, `linear` its
/// answer for linear tiling. The preferred tiling wins where the device has a
/// format for it.
pub fn resolve_format(desired_tiling: Tiling, preferred: Option<Format>, linear: Option<Format>)
    -> (r: Option<(Format, Tiling)>)
    ensures
        r == match preferred {
            Some(format) => Some((format, desired_tiling)),
            None => match linear {
                Some(format) => Some((format, Tiling::Linear)),
                None => None,
            },
        },
{
    match preferred {
        Some(format) => Some((format, desired_tiling)),
        None => match linear {
            Some(format) => Some((format, Tiling::Linear)),
            None => None,
        },
    }
}

impl<B> Texture<Image<B>> {
    /// Wraps an image of a presentation surface, which has one layer and one
    /// mip level. Nothing is known of what the presentation engine did with
    /// it, so it starts untouched.
    pub fn from_swapchain(image: B, dims: Extent, format: Format) -> (r: Self)
        ensures
            r.wf(),
            r@ == (TextureModel {
                dims,
                format,
                layers: 1,
                mips: 1,
                image: Image(image),
                state: State::untouched(),
                views: Seq::empty(),
            }),
    {
        Texture {
            dims,
            format,
            layers: 1,
            mips: 1,
            image: Image(image),
            state: State {
                access_mask: Access::empty(),
                layout: Layout::Undefined,
                pipeline_stage: PipelineStage::top_of_pipe(),
            },
            views: Vec::new(),
        }
    }

    /// Forgets the tracked state when the image is acquired for a new frame:
    /// the presentation engine does not keep it from one frame to the next.
    pub fn acquire_swapchain(&mut self)
        ensures
            final(self)@ == (TextureModel { state: State::untouched(), ..old(self)@ }),
    {
        self.state = State {
            access_mask: Access::empty(),
            layout: Layout::Undefined,
            pipeline_stage: PipelineStage::top_of_pipe(),
        };
    }
}

impl<I> Texture<I> {
    /// No view is kept twice.
    pub open spec fn wf(&self) -> bool {
        distinct(self@.views)
    }

    /// Wraps a new image of size `dims` and of `format`, with `layers` array
    /// layers of `mips` mip levels each, that was created in `layout`.
    pub fn new(image: I, dims: Extent, format: Format, layout: Layout, layers: u16, mips: u8) -> (r:
        Self)
        ensures
            r.wf(),
            r@ == (TextureModel {
                dims,
                format,
                layers,
                mips,
                image,
                state: State::initial(layout),
                views: Seq::empty(),
            }),
    {
        let access_mask = if layout == Layout::Preinitialized {
            Access::host_write()
        } else {
            Access::empty()
        };
        Texture {
            dims,
            format,
            layers,
            mips,
            image,
            state: State { access_mask, layout, pipeline_stage: PipelineStage::top_of_pipe() },
            views: Vec::new(),
        }
    }

    /// The plain two-dimensional color view in the texture's own format.
    pub fn as_default_2d_view(&mut self) -> (r: ImageViewRef)
        requires
            old(self).wf(),
        ensures
            final(self).wf(),
            r.key == ImageViewKey::default_2d(old(self)@.format),
            r.fresh == !old(self)@.views.contains(r.key),
            r.index == slot_of(final(self)@.views, r.key),
            final(self)@ == old(self)@.viewed(r.key),
    {
        let format = self.format;
        self.as_default_2d_view_format(format)
    }

    /// The plain two-dimensional color view in `format`.
    pub fn as_default_2d_view_format(&mut self, format: Format) -> (r: ImageViewRef)
        requires
            old(self).wf(),
        ensures
            final(self).wf(),
            r.key == ImageViewKey::default_2d(format),
            r.fresh == !old(self)@.views.contains(r.key),
            r.index == slot_of(final(self)@.views, r.key),
            final(self)@ == old(self)@.viewed(r.key),
    {
        self.as_view(
            ViewKind::D2,
            format,
            Swizzle::default(),
            SubresourceRange::single(Aspects::color()),
        )
    }

    /// The view of this texture for the given kind, format, swizzle and range.
    ///
    /// A view that was asked for before is found again at its place and
    /// nothing changes. A view that is asked for the first time takes the next
    /// free place and is reported as fresh.
    pub fn as_view(
        &mut self,
        view_kind: ViewKind,
        format: Format,
        swizzle: Swizzle,
        range: SubresourceRange,
    ) -> (r: ImageViewRef)
        requires
            old(self).wf(),
        ensures
            final(self).wf(),
            r.key == (ImageViewKey { view_kind, format, swizzle, range }),
            r.fresh == !old(self)@.views.contains(r.key),
            r.index == slot_of(final(self)@.views, r.key),
            final(self)@ == old(self)@.viewed(r.key),
    {
        let key = ImageViewKey { view_kind, format, swizzle, range };
        let mut index: usize = 0;
        while index < self.views.len()
            invariant
                index <= self.views.len(),
                *self == *old(self),
                key == (ImageViewKey { view_kind, format, swizzle, range }),
                distinct(self.views@),
                forall|i: int| 0 <= i < index ==> self.views@[i] != key,
            decreases self.views.len() - index,
        {
            if self.views[index] == key {
                proof {
                    lemma_slot_is_unique(self.views@, key, index as int);
                }
                return ImageViewRef { key, index, fresh: false };
            }
            index += 1;
        }
        self.views.push(key);
        proof {
            lemma_slot_is_unique(self.views@, key, index as int);
        }
        ImageViewRef { key, index, fresh: true }
    }

    pub fn dims(&self) -> (r: Extent)
        ensures
            r == self@.dims,
    {
        self.dims
    }

    pub fn format(&self) -> (r: Format)
        ensures
            r == self@.format,
    {
        self.format
    }

    /// How many array layers the image has.
    pub fn layers(&self) -> (r: u16)
        ensures
            r == self@.layers,
    {
        self.layers
    }

    /// How many mip levels the image has.
    pub fn mips(&self) -> (r: u8)
        ensures
            r == self@.mips,
    {
        self.mips
    }

    pub fn image(&self) -> (r: &I)
        ensures
            *r == self@.image,
    {
        &self.image
    }

    /// The image, to work on. Nothing else about the texture changes.
    pub fn image_mut(&mut self) -> (r: &mut I)
        ensures
            *r == old(self)@.image,
            final(self)@ == (TextureModel { image: *final(r), ..old(self)@ }),
    {
        &mut self.image
    }

    /// The state that the next transition starts from.
    pub fn state(&self) -> (r: State)
        ensures
            r == self@.state,
    {
        self.state
    }

    /// How many views have been taken, which is how many device views exist.
    pub fn view_count(&self) -> (r: usize)
        ensures
            r == self@.views.len(),
    {
        self.views.len()
    }

    /// Moves the image to the state that the next command needs and returns
    /// the barrier that has to be recorded before that command.
    ///
    /// The barrier leads from the state tracked so far to the requested one.
    /// It covers every mip level of every layer, in the depth aspect of an
    /// image with a depth format and in the color aspect of any other.
    /// Whatever the state was, the requested one is tracked afterwards.
    pub fn set_layout(&mut self, layout: Layout, pipeline_stage: PipelineStage, access_mask: Access)
        -> (r: Barrier)
        ensures
            final(self)@ == old(self)@.transitioned(State { access_mask, layout, pipeline_stage }),
            r == old(self)@.barrier_to(State { access_mask, layout, pipeline_stage }),
    {
        let before = self.state;
        let after = State { access_mask, layout, pipeline_stage };
        let aspects = if self.format.is_depth() {
            Aspects::depth()
        } else {
            Aspects::color()
        };
        self.state = after;
        Barrier { before, after, range: SubresourceRange::span(aspects, self.mips, self.layers) }
    }

    /// Takes the texture apart for destruction. The device views, one per key
    /// and in the order of their places, are to be destroyed before the image.
    pub fn into_parts(self) -> (r: (Vec<ImageViewKey>, I))
        ensures
            r.0@ == self@.views,
            r.1 == self@.image,
    {
        (self.views, self.image)
    }
}

/// Among distinct views a key has one place only.
pub proof fn lemma_slot_is_unique(views: Seq<ImageViewKey>, key: ImageViewKey, index: int)
    requires
        distinct(views),
        0 <= index < views.len(),
        views[index] == key,
    ensures
        slot_of(views, key) == index,
{
    let chosen = slot_of(views, key);
    assert(0 <= chosen < views.len() && views[chosen] == key);
    if chosen < index {
        assert(views[chosen] != views[index]);
    } else if index < chosen {
        assert(views[index] != views[chosen]);
    }
}

/// Asking twice for the same view creates it once: the first request leaves
/// the key at a place among the views, and the second finds it at that place
/// and changes nothing.
pub proof fn lemma_view_is_created_once<I>(texture: TextureModel<I>, key: ImageViewKey)
    requires
        distinct(texture.views),
    ensures
        distinct(texture.viewed(key).views),
        texture.viewed(key).views.contains(key),
        texture.viewed(key).viewed(key) == texture.viewed(key),
        slot_of(texture.viewed(key).viewed(key).views, key) == slot_of(
            texture.viewed(key).views,
            key,
        ),
        0 <= slot_of(texture.viewed(key).views, key) < texture.viewed(key).views.len(),
        texture.viewed(key).views[slot_of(texture.viewed(key).views, key)] == key,
        texture.viewed(key).views.len() == texture.views.len() + (if texture.views.contains(key) {
            0int
        } else {
            1int
        }),
{
    let views = texture.views;
    let after = texture.viewed(key).views;
    if views.contains(key) {
        let i = choose|i: int| 0 <= i < views.len() && views[i] == key;
        lemma_slot_is_unique(after, key, i);
    } else {
        assert(after[views.len() as int] == key);
        assert(after.contains(key));
        lemma_slot_is_unique(after, key, views.len() as int);
    }
}

/// A view that is asked for leaves the views taken before at their places.
pub proof fn lemma_view_keeps_places<I>(
    texture: TextureModel<I>,
    key: ImageViewKey,
    earlier: ImageViewKey,
)
    requires
        distinct(texture.views),
        texture.views.contains(earlier),
    ensures
        slot_of(texture.viewed(key).views, earlier) == slot_of(texture.views, earlier),
{
    let views = texture.views;
    let i = choose|i: int| 0 <= i < views.len() && views[i] == earlier;
    lemma_slot_is_unique(views, earlier, i);
    lemma_view_is_created_once(texture, key);
    lemma_slot_is_unique(texture.viewed(key).views, earlier, i);
}

/// After any number of transitions the tracked state is the one that the last
/// of them asked for, whatever the states before it were, and nothing else
/// about the texture has changed. Each transition records one barrier, which
/// leads from the state that the transition before it asked for (for the first
/// one, from the state at the start) to the one that it asks for itself.
pub proof fn lemma_replay_tracks_last_request<I>(texture: TextureModel<I>, requests: Seq<State>)
    ensures
        requests.len() > 0 ==> texture.replayed(requests) == texture.transitioned(requests.last()),
        requests.len() == 0 ==> texture.replayed(requests) == texture,
        texture.barriers(requests).len() == requests.len(),
        forall|i: int|
            0 <= i < requests.len() ==> #[trigger] texture.barriers(requests)[i] == (Barrier {
                before: if i == 0 {
                    texture.state
                } else {
                    requests[i - 1]
                },
                after: requests[i],
                range: texture.whole(),
            }),
    decreases requests.len(),
{
    if requests.len() > 0 {
        let earlier = requests.drop_last();
        lemma_replay_tracks_last_request(texture, earlier);
        assert forall|i: int| 0 <= i < requests.len() implies #[trigger] texture.barriers(
            requests,
        )[i] == (Barrier {
            before: if i == 0 {
                texture.state
            } else {
                requests[i - 1]
            },
            after: requests[i],
            range: texture.whole(),
        }) by {
            if i < earlier.len() {
                assert(texture.barriers(requests)[i] == texture.barriers(earlier)[i]);
                assert(earlier[i] == requests[i]);
                if i > 0 {
                    assert(earlier[i - 1] == requests[i - 1]);
                }
            } else {
                if earlier.len() > 0 {
                    assert(earlier.last() == requests[i - 1]);
                }
            }
        }
    }
}

} // verus!
