//! What a compiled shader tells about itself: the descriptors it binds.

use vstd::prelude::*;

verus! {

/// The kind of resource that a descriptor refers to.
#[derive(Clone, Copy, Debug, PartialEq, Eq, Structural)]
pub enum DescriptorKind {
    Sampler,
    CombinedImageSampler,
    SampledImage,
    StorageImage,
    UniformTexelBuffer,
    StorageTexelBuffer,
    UniformBuffer,
    StorageBuffer,
    UniformBufferDynamic,
    StorageBufferDynamic,
    InputAttachment,
}

/// A binding slot: the number of a descriptor set and the number of a binding
/// within that set.
#[derive(Clone, Copy, Debug, PartialEq, Eq, Structural)]
pub struct DescriptorBinding(pub u32, pub u32);

impl DescriptorBinding {
    /// Slots are ordered by set, and within a set by binding.
    pub open spec fn precedes(self, other: DescriptorBinding) -> bool {
        self.0 < other.0 || (self.0 == other.0 && self.1 < other.1)
    }

    /// Decides `precedes`.
    pub fn is_before(&self, other: &DescriptorBinding) -> (r: bool)
        ensures
            r == self.precedes(*other),
    {
        self.0 < other.0 || (self.0 == other.0 && self.1 < other.1)
    }
}

/// What is bound at a slot: descriptors of one kind, `count` of them. A count
/// of zero stands for an array that the shader declares without a length.
#[derive(Clone, Copy, Debug, PartialEq, Eq, Structural)]
pub struct DescriptorInfo {
    pub kind: DescriptorKind,
    pub count: u32,
}

impl DescriptorInfo {
    /// This descriptor with a length chosen for it if the shader gave none.
    pub open spec fn sized(self, bindless_count: u32) -> DescriptorInfo {
        if self.count == 0 {
            DescriptorInfo { kind: self.kind, count: bindless_count }
        } else {
            self
        }
    }

    pub fn binding_count(&self) -> (r: u32)
        ensures
            r == self.count,
    {
        self.count
    }

    pub fn set_binding_count(&mut self, count: u32)
        ensures
            *final(self) == (DescriptorInfo { kind: old(self).kind, count }),
    {
        self.count = count;
    }
}

/// One entry of a binding map.
#[derive(Clone, Copy, Debug, PartialEq, Eq, Structural)]
pub struct DescriptorEntry {
    pub binding: DescriptorBinding,
    pub info: DescriptorInfo,
}

/// One binding of a descriptor set, without the number of the set.
#[derive(Clone, Copy, Debug, PartialEq, Eq, Structural)]
pub struct SetBinding {
    pub binding: u32,
    pub info: DescriptorInfo,
}

impl DescriptorEntry {
    /// This entry as a binding of its set.
    pub open spec fn in_set(self) -> SetBinding {
        SetBinding { binding: self.binding.1, info: self.info }
    }
}

/// The bindings of one descriptor set.
#[derive(Debug)]
pub struct DescriptorSet {
    pub set: u32,
    pub bindings: Vec<SetBinding>,
}

/// What a descriptor set is, to its contracts.
pub ghost struct DescriptorSetModel {
    pub set: u32,
    pub bindings: Seq<SetBinding>,
}

impl View for DescriptorSet {
    type V = DescriptorSetModel;

    open spec fn view(&self) -> DescriptorSetModel {
        DescriptorSetModel { set: self.set, bindings: self.bindings@ }
    }
}

/// Whether the slots of `entries` strictly ascend, so that no slot occurs
/// twice.
pub open spec fn ascending(entries: Seq<DescriptorEntry>) -> bool {
    forall|i: int, j: int|
        0 <= i < j < entries.len() ==> (#[trigger] entries[i]).binding.precedes(
            (#[trigger] entries[j]).binding,
        )
}

/// The entries with a length chosen for every array that was declared
/// without one.
pub open spec fn sized(entries: Seq<DescriptorEntry>, bindless_count: u32) -> Seq<DescriptorEntry> {
    Seq::new(
        entries.len(),
        |i: int|
            DescriptorEntry {
                binding: entries[i].binding,
                info: entries[i].info.sized(bindless_count),
            },
    )
}

/// The descriptor sets that ascending entries fall into, by ascending number
/// of the set; within each set the bindings keep their order.
pub open spec fn sets_of(entries: Seq<DescriptorEntry>) -> Seq<DescriptorSetModel>
    decreases entries.len(),
{
    if entries.len() == 0 {
        Seq::empty()
    } else {
        let earlier = sets_of(entries.drop_last());
        let entry = entries.last();
        if earlier.len() > 0 && earlier.last().set == entry.binding.0 {
            earlier.update(
                earlier.len() - 1,
                DescriptorSetModel {
                    set: entry.binding.0,
                    bindings: earlier.last().bindings.push(entry.in_set()),
                },
            )
        } else {
            earlier.push(
                DescriptorSetModel { set: entry.binding.0, bindings: seq![entry.in_set()] },
            )
        }
    }
}

/// The models of the descriptor sets in `sets`.
pub open spec fn set_models(sets: Seq<DescriptorSet>) -> Seq<DescriptorSetModel> {
    Seq::new(sets.len(), |i: int| sets[i]@)
}

/// The descriptors of a shader, by binding slot.
#[derive(Debug)]
pub struct DescriptorBindingMap {
    entries: Vec<DescriptorEntry>,
}

impl View for DescriptorBindingMap {
    type V = Seq<DescriptorEntry>;

    closed spec fn view(&self) -> Seq<DescriptorEntry> {
        self.entries@
    }
}

impl DescriptorBindingMap {
    /// The entries are kept by ascending slot.
    pub open spec fn wf(&self) -> bool {
        ascending(self@)
    }

    /// A map without entries.
    pub fn new() -> (r: Self)
        ensures
            r.wf(),
            r@ == Seq::<DescriptorEntry>::empty(),
    {
        DescriptorBindingMap { entries: Vec::new() }
    }

    /// Makes a map of `entries`, which have to come by ascending slot.
    pub fn from_entries(entries: Vec<DescriptorEntry>) -> (r: Option<Self>)
        ensures
            r is Some <==> ascending(entries@),
            r matches Some(map) ==> map.wf() && map@ == entries@,
    {
        if entries.len() == 0 {
            return Some(DescriptorBindingMap { entries });
        }
        let mut at: usize = 1;
        while at < entries.len()
            invariant
                1 <= at <= entries.len(),
                ascending(entries@.take(at as int)),
            decreases entries.len() - at,
        {
            if !entries[at - 1].binding.is_before(&entries[at].binding) {
                return None;
            }
            proof {
                let before = entries@.take(at as int);
                let after = entries@.take(at + 1);
                assert forall|i: int, j: int| 0 <= i < j < after.len() implies (
                #[trigger] after[i]).binding.precedes((#[trigger] after[j]).binding) by {
                    if j < at {
                        assert(before[i] == after[i] && before[j] == after[j]);
                    } else if i < at - 1 {
                        assert(before[i] == after[i] && before[at - 1] == after[at - 1]);
                        assert(before[i].binding.precedes(before[at - 1].binding));
                    }
                }
            }
            at += 1;
        }
        assert(entries@.take(at as int) == entries@);
        Some(DescriptorBindingMap { entries })
    }

    pub fn len(&self) -> (r: usize)
        ensures
            r == self@.len(),
    {
        self.entries.len()
    }

    /// The entries by ascending slot.
    pub fn entries(&self) -> (r: &Vec<DescriptorEntry>)
        ensures
            r@ == self@,
    {
        &self.entries
    }

    /// A copy of the map in which every array that the shader declared
    /// without a length has the length `bindless_count`. Nothing else differs.
    pub fn with_bindless_count(&self, bindless_count: u32) -> (r: Self)
        ensures
            r@ == sized(self@, bindless_count),
            self.wf() ==> r.wf(),
    {
        let mut entries: Vec<DescriptorEntry> = Vec::new();
        let mut at: usize = 0;
        while at < self.entries.len()
            invariant
                at <= self.entries.len(),
                entries@.len() == at,
                forall|i: int|
                    0 <= i < at ==> entries@[i] == #[trigger] sized(
                        self.entries@,
                        bindless_count,
                    )[i],
            decreases self.entries.len() - at,
        {
            let mut entry = self.entries[at];
            if entry.info.binding_count() == 0 {
                entry.info.set_binding_count(bindless_count);
            }
            entries.push(entry);
            at += 1;
        }
        assert(entries@ =~= sized(self.entries@, bindless_count));
        proof {
            lemma_sized_keeps_slots(self.entries@, bindless_count);
        }
        DescriptorBindingMap { entries }
    }

    /// The descriptor sets of the map, by ascending number of the set.
    pub fn sets(&self) -> (r: Vec<DescriptorSet>)
        ensures
            set_models(r@) == sets_of(self@),
    {
        let mut sets: Vec<DescriptorSet> = Vec::new();
        let mut at: usize = 0;
        assert(self.entries@.take(0) =~= Seq::empty());
        assert(set_models(sets@) =~= Seq::empty());
        while at < self.entries.len()
            invariant
                at <= self.entries.len(),
                set_models(sets@) == sets_of(self.entries@.take(at as int)),
            decreases self.entries.len() - at,
        {
            let entry = self.entries[at];
            let member = SetBinding { binding: entry.binding.1, info: entry.info };
            let ghost before = set_models(sets@);
            proof {
                let upto = self.entries@.take(at + 1);
                assert(upto.drop_last() == self.entries@.take(at as int));
                assert(upto.last() == entry);
            }
            let count = sets.len();
            let mut extend = false;
            if count > 0 {
                assert(before[count - 1] == sets@[count - 1]@);
                if sets[count - 1].set == entry.binding.0 {
                    extend = true;
                }
            }
            if extend {
                let mut last = sets.pop().unwrap();
                last.bindings.push(member);
                sets.push(last);
                assert(set_models(sets@) =~= before.update(
                    count - 1,
                    DescriptorSetModel {
                        set: entry.binding.0,
                        bindings: before[count - 1].bindings.push(member),
                    },
                ));
            } else {
                let mut bindings = Vec::new();
                bindings.push(member);
                sets.push(DescriptorSet { set: entry.binding.0, bindings });
                assert(bindings@ =~= seq![member]);
                assert(set_models(sets@) =~= before.push(
                    DescriptorSetModel { set: entry.binding.0, bindings: seq![member] },
                ));
            }
            at += 1;
        }
        assert(self.entries@.take(at as int) == self.entries@);
        sets
    }
}

/// Choosing lengths moves no entry to another slot.
pub proof fn lemma_sized_keeps_slots(entries: Seq<DescriptorEntry>, bindless_count: u32)
    ensures
        sized(entries, bindless_count).len() == entries.len(),
        forall|i: int|
            0 <= i < entries.len() ==> (#[trigger] sized(entries, bindless_count)[i]).binding
                == entries[i].binding,
        ascending(entries) ==> ascending(sized(entries, bindless_count)),
{
    let after = sized(entries, bindless_count);
    if ascending(entries) {
        assert forall|i: int, j: int| 0 <= i < j < after.len() implies (#[trigger] after[i]).binding.precedes(
            (#[trigger] after[j]).binding,
        ) by {
            assert(entries[i].binding.precedes(entries[j].binding));
        }
    }
}

/// The entries of one descriptor set: each binding with the number of the set.
pub open spec fn set_entries(set: DescriptorSetModel) -> Seq<DescriptorEntry> {
    Seq::new(
        set.bindings.len(),
        |i: int|
            DescriptorEntry {
                binding: DescriptorBinding(set.set, set.bindings[i].binding),
                info: set.bindings[i].info,
            },
    )
}

/// The entries that `sets` are made of, set after set.
pub open spec fn entries_of(sets: Seq<DescriptorSetModel>) -> Seq<DescriptorEntry>
    decreases sets.len(),
{
    if sets.len() == 0 {
        Seq::empty()
    } else {
        entries_of(sets.drop_last()) + set_entries(sets.last())
    }
}

/// The descriptor sets of a shader hold its entries, all of them and in their
/// order: put one after the other, the sets give the entries back. No set is
/// empty, and no two neighbours have the same number. Where the entries
/// ascend, so do the numbers of the sets, and each number has one set.
pub proof fn lemma_sets_hold_the_entries(entries: Seq<DescriptorEntry>)
    ensures
        entries_of(sets_of(entries)) == entries,
        forall|k: int|
            0 <= k < sets_of(entries).len() ==> (#[trigger] sets_of(entries)[k]).bindings.len() > 0,
        forall|k: int|
            0 <= k < sets_of(entries).len() - 1 ==> (#[trigger] sets_of(entries)[k]).set
                != sets_of(entries)[k + 1].set,
        entries.len() > 0 ==> sets_of(entries).len() > 0 && sets_of(entries).last().set
            == entries.last().binding.0,
        ascending(entries) ==> forall|a: int, b: int|
            0 <= a < b < sets_of(entries).len() ==> (#[trigger] sets_of(entries)[a]).set < (
            #[trigger] sets_of(entries)[b]).set,
    decreases entries.len(),
{
    if entries.len() > 0 {
        let rest = entries.drop_last();
        let entry = entries.last();
        let earlier = sets_of(rest);
        let sets = sets_of(entries);
        lemma_sets_hold_the_entries(rest);
        if earlier.len() > 0 && earlier.last().set == entry.binding.0 {
            let last = earlier.len() - 1;
            assert(sets.drop_last() == earlier.drop_last());
            assert(set_entries(sets.last()) == set_entries(earlier.last()).push(entry));
            assert(entries_of(sets) == entries_of(earlier).push(entry));
            assert forall|k: int| 0 <= k < sets.len() - 1 implies (#[trigger] sets[k]).set != sets[k
                + 1].set by {
                assert(earlier[k].set != earlier[k + 1].set);
            }
            if ascending(entries) {
                assert(ascending(rest)) by {
                    assert forall|i: int, j: int| 0 <= i < j < rest.len() implies (
                    #[trigger] rest[i]).binding.precedes((#[trigger] rest[j]).binding) by {
                        assert(entries[i].binding.precedes(entries[j].binding));
                    }
                }
                assert forall|a: int, b: int| 0 <= a < b < sets.len() implies (#[trigger] sets[a]).set
                    < (#[trigger] sets[b]).set by {
                    assert(earlier[a].set < earlier[b].set);
                }
            }
        } else {
            assert(sets.drop_last() == earlier);
            assert(set_entries(sets.last()) == seq![entry]);
            assert(entries_of(sets) == entries_of(earlier).push(entry));
            assert forall|k: int| 0 <= k < sets.len() - 1 implies (#[trigger] sets[k]).set != sets[k
                + 1].set by {
                if k < earlier.len() - 1 {
                    assert(earlier[k].set != earlier[k + 1].set);
                }
            }
            if ascending(entries) {
                assert(ascending(rest)) by {
                    assert forall|i: int, j: int| 0 <= i < j < rest.len() implies (
                    #[trigger] rest[i]).binding.precedes((#[trigger] rest[j]).binding) by {
                        assert(entries[i].binding.precedes(entries[j].binding));
                    }
                }
                assert forall|a: int, b: int| 0 <= a < b < sets.len() implies (#[trigger] sets[a]).set
                    < (#[trigger] sets[b]).set by {
                    if b < earlier.len() {
                        assert(earlier[a].set < earlier[b].set);
                    } else {
                        let before = rest.len() - 1;
                        assert(entries[before].binding.precedes(entries[before + 1].binding));
                        assert(earlier.last().set == rest.last().binding.0);
                        if a < earlier.len() - 1 {
                            assert(earlier[a].set < earlier[earlier.len() - 1].set);
                        }
                    }
                }
            }
        }
        assert(entries_of(sets) == entries) by {
            assert(rest.push(entry) == entries);
        }
    }
}

/// A range of the bytes that are pushed to a shader with a command.
#[derive(Clone, Copy, Debug, PartialEq, Eq, Structural)]
pub struct PushConstantRange {
    pub stage_flags: u32,
    pub offset: u32,
    pub size: u32,
}

/// Where one specialization constant lies in the specialization data.
#[derive(Clone, Copy, Debug, PartialEq, Eq, Structural)]
pub struct SpecializationMapEntry {
    pub constant_id: u32,
    pub offset: u32,
    pub size: usize,
}

/// Values for the specialization constants of a shader.
#[derive(Debug)]
pub struct SpecializationInfo {
    pub map_entries: Vec<SpecializationMapEntry>,
    pub data: Vec<u8>,
}

/// A compiled shader and what reflection has found in it.
#[derive(Debug)]
pub struct Shader {
    /// The instruction stream, four bytes to a word.
    pub spirv: Vec<u8>,
    pub entry_name: String,
    pub specialization_info: Option<SpecializationInfo>,
    /// The descriptors that the shader declares.
    pub descriptor_bindings: DescriptorBindingMap,
    /// The push constants that the shader declares, if any.
    pub push_constants: Option<PushConstantRange>,
}

impl Shader {
    /// Whether the instruction stream is made of whole words.
    pub open spec fn whole_words(&self) -> bool {
        self.spirv@.len() % 4 == 0
    }

    /// Decides `whole_words`.
    pub fn is_whole_words(&self) -> (r: bool)
        ensures
            r == self.whole_words(),
    {
        self.spirv.len() % 4 == 0
    }
}

} // verus!
