//! The descriptor set layouts created so far, by the bindings that they were
//! created for.

use crate::driver::shader::SetBinding;
use crate::driver::DescriptorSetLayout;
use vstd::prelude::*;

verus! {

/// One cached layout: the bindings of a descriptor set and the layout that
/// the device created for them.
pub ghost struct CachedLayout {
    pub bindings: Seq<SetBinding>,
    pub layout: DescriptorSetLayout,
}

/// Whether `cache` holds a layout for `bindings`.
pub open spec fn is_cached(cache: Seq<CachedLayout>, bindings: Seq<SetBinding>) -> bool {
    exists|i: int| 0 <= i < cache.len() && (#[trigger] cache[i]).bindings == bindings
}

/// The layout that `cache` holds for `bindings`, if there is one.
pub open spec fn cached(cache: Seq<CachedLayout>, bindings: Seq<SetBinding>) -> Option<
    DescriptorSetLayout,
> {
    if is_cached(cache, bindings) {
        let i = choose|i: int| 0 <= i < cache.len() && (#[trigger] cache[i]).bindings == bindings;
        Some(cache[i].layout)
    } else {
        None
    }
}

/// Whether no bindings have two layouts in `cache`.
pub open spec fn unambiguous(cache: Seq<CachedLayout>) -> bool {
    forall|i: int, j: int|
        0 <= i < j < cache.len() ==> (#[trigger] cache[i]).bindings != (#[trigger] cache[j]).bindings
}

/// Descriptor set layouts by the bindings that they describe, so that sets
/// with the same bindings share one layout.
#[derive(Debug)]
pub struct LayoutCache {
    shapes: Vec<Vec<SetBinding>>,
    layouts: Vec<DescriptorSetLayout>,
}

impl View for LayoutCache {
    type V = Seq<CachedLayout>;

    closed spec fn view(&self) -> Seq<CachedLayout> {
        Seq::new(
            self.shapes@.len(),
            |i: int| CachedLayout { bindings: self.shapes@[i]@, layout: self.layouts@[i] },
        )
    }
}

/// Whether two lists of bindings are the same.
fn same_bindings(a: &Vec<SetBinding>, b: &Vec<SetBinding>) -> (r: bool)
    ensures
        r == (a@ == b@),
{
    if a.len() != b.len() {
        return false;
    }
    let mut at: usize = 0;
    while at < a.len()
        invariant
            at <= a.len(),
            a.len() == b.len(),
            forall|i: int| 0 <= i < at ==> a@[i] == b@[i],
        decreases a.len() - at,
    {
        if a[at] != b[at] {
            return false;
        }
        at += 1;
    }
    assert(a@ =~= b@);
    true
}

impl LayoutCache {
    /// Every layout is kept beside its bindings.
    pub closed spec fn paired(&self) -> bool {
        self.shapes@.len() == self.layouts@.len()
    }

    /// Every layout is kept with its bindings, and no bindings twice.
    pub open spec fn wf(&self) -> bool {
        &&& self.paired()
        &&& unambiguous(self@)
    }

    /// A cache with nothing in it.
    pub fn new() -> (r: Self)
        ensures
            r.wf(),
            r@ == Seq::<CachedLayout>::empty(),
    {
        let r = LayoutCache { shapes: Vec::new(), layouts: Vec::new() };
        assert(r@ =~= Seq::empty());
        r
    }

    /// How many layouts are cached.
    pub fn len(&self) -> (r: usize)
        ensures
            r == self@.len(),
    {
        self.shapes.len()
    }

    /// The layout cached for `bindings`, if there is one.
    pub fn get(&self, bindings: &Vec<SetBinding>) -> (r: Option<DescriptorSetLayout>)
        requires
            self.wf(),
        ensures
            r == cached(self@, bindings@),
    {
        let mut at: usize = 0;
        while at < self.shapes.len()
            invariant
                at <= self.shapes.len(),
                self.wf(),
                forall|i: int| 0 <= i < at ==> (#[trigger] self@[i]).bindings != bindings@,
            decreases self.shapes.len() - at,
        {
            if same_bindings(&self.shapes[at], bindings) {
                proof {
                    assert(self@[at as int].bindings == bindings@);
                    let chosen = choose|i: int|
                        0 <= i < self@.len() && (#[trigger] self@[i]).bindings == bindings@;
                    if chosen < at {
                        assert(self@[chosen].bindings != self@[at as int].bindings);
                    } else if chosen > at {
                        assert(self@[at as int].bindings != self@[chosen].bindings);
                    }
                }
                return Some(self.layouts[at]);
            }
            assert(self@[at as int].bindings != bindings@);
            at += 1;
        }
        None
    }

    /// Caches `layout` for `bindings`, for which nothing is cached yet.
    pub fn insert(&mut self, bindings: Vec<SetBinding>, layout: DescriptorSetLayout)
        requires
            old(self).wf(),
            !is_cached(old(self)@, bindings@),
        ensures
            final(self).wf(),
            final(self)@ == old(self)@.push(CachedLayout { bindings: bindings@, layout }),
    {
        let ghost entry = CachedLayout { bindings: bindings@, layout };
        self.shapes.push(bindings);
        self.layouts.push(layout);
        assert(self@ =~= old(self)@.push(entry));
        assert forall|i: int, j: int| 0 <= i < j < self@.len() implies (#[trigger] self@[i]).bindings
            != (#[trigger] self@[j]).bindings by {
            assert(self@[i] == old(self)@[i]);
            if j < old(self)@.len() {
                assert(self@[j] == old(self)@[j]);
            }
        }
    }

    /// Empties the cache for destruction and hands over the layouts, in the
    /// order in which they were cached.
    pub fn drain(&mut self) -> (r: Vec<DescriptorSetLayout>)
        requires
            old(self).wf(),
        ensures
            final(self).wf(),
            final(self)@ == Seq::<CachedLayout>::empty(),
            r@.len() == old(self)@.len(),
            forall|i: int| 0 <= i < r@.len() ==> r@[i] == (#[trigger] old(self)@[i]).layout,
    {
        let mut layouts = Vec::new();
        layouts.append(&mut self.layouts);
        self.shapes.clear();
        assert(self@ =~= Seq::empty());
        layouts
    }
}

/// A layout that is cached is found under its bindings, and under no others.
pub proof fn lemma_cached_after_insert(
    cache: Seq<CachedLayout>,
    entry: CachedLayout,
    bindings: Seq<SetBinding>,
)
    requires
        unambiguous(cache),
        !is_cached(cache, entry.bindings),
    ensures
        unambiguous(cache.push(entry)),
        cached(cache.push(entry), entry.bindings) == Some(entry.layout),
        bindings != entry.bindings ==> cached(cache.push(entry), bindings) == cached(
            cache,
            bindings,
        ),
{
    let after = cache.push(entry);
    assert(after[cache.len() as int] == entry);
    assert forall|i: int, j: int| 0 <= i < j < after.len() implies (#[trigger] after[i]).bindings
        != (#[trigger] after[j]).bindings by {
        assert(after[i] == cache[i]);
        if j < cache.len() {
            assert(after[j] == cache[j]);
        }
    }
    lemma_cached_at(after, cache.len() as int);
    if bindings != entry.bindings {
        if is_cached(cache, bindings) {
            let i = choose|i: int| 0 <= i < cache.len() && (#[trigger] cache[i]).bindings == bindings;
            assert(after[i] == cache[i]);
            lemma_cached_at(cache, i);
            lemma_cached_at(after, i);
        } else {
            if is_cached(after, bindings) {
                let i = choose|i: int|
                    0 <= i < after.len() && (#[trigger] after[i]).bindings == bindings;
                assert(after[i] == cache[i]);
            }
        }
    }
}

/// In a cache that holds no bindings twice, what is found under the bindings
/// of an entry is the layout of that entry.
pub proof fn lemma_cached_at(cache: Seq<CachedLayout>, at: int)
    requires
        unambiguous(cache),
        0 <= at < cache.len(),
    ensures
        cached(cache, cache[at].bindings) == Some(cache[at].layout),
{
    let bindings = cache[at].bindings;
    assert(is_cached(cache, bindings));
    let chosen = choose|i: int| 0 <= i < cache.len() && (#[trigger] cache[i]).bindings == bindings;
    if chosen < at {
        assert(cache[chosen].bindings != cache[at].bindings);
    } else if chosen > at {
        assert(cache[at].bindings != cache[chosen].bindings);
    }
}

} // verus!
