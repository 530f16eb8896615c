//! Descriptor plumbing: which parameter blocks a shader
//! declares and in which set order, the descriptor set layouts and pool
//! sizes they need, and where a bound resource is written.

use vstd::prelude::*;
use crate::slang::cursor_layout::ShaderOffset;
use crate::slang::layout::{
    first_binding_range, same_block_layout, DescriptorBindingLayout, ElementCount,
    ParameterBlockLayout, ShaderLayout, Type, VarLayout,
};
use crate::slang::shader_cursor::{DescriptorClass, DescriptorProfile};
use crate::sort::{lemma_stable_sort_sorted, sort_by_key_stable, sorted_by_key, stable_sort_by_key, SortKey};
use crate::vk::{
    DESCRIPTOR_TYPE_SAMPLED_IMAGE, DESCRIPTOR_TYPE_SAMPLER, DESCRIPTOR_TYPE_STORAGE_BUFFER,
    DESCRIPTOR_TYPE_UNIFORM_BUFFER,
};

verus! {

/// Why the renderer refused a layout or a binding.
#[derive(Debug, Clone, PartialEq, Eq)]
pub enum RendererError {
    /// The program has no global parameters.
    MissingGlobals,
    /// The global parameters are not a struct.
    GlobalsNotStruct,
    /// A parameter block declares no descriptor set.
    MissingSet { name: String },
    /// A parameter block declares a negative descriptor set.
    NegativeSet { name: String, set: i64 },
    /// The program declares no global parameter block.
    NoParameterBlocks,
    /// The sets of the parameter blocks do not run from 0 up.
    NonContiguousSets,
    /// A descriptor array has a run-time size.
    RuntimeSizedArray,
    /// No binding of the set answers the binding range.
    BindingNotFound { binding_range: i64, set: Option<i64> },
    /// The array element lies past the end of the binding.
    ArrayIndexOutOfBounds { array_index: usize, binding: i64, count: usize },
    /// The descriptor handed in is not one the renderer made.
    UnsupportedDescriptor,
    /// The descriptor's type is not the binding's.
    DescriptorTypeMismatch { binding: i64, expected: i32, actual: i32 },
    /// A reflected binding number is negative.
    NegativeBinding { binding: i64 },
    /// A descriptor set the layout needs was not allocated.
    MissingDescriptorSet { set: u32 },
    /// The program has no parameter block of the given name.
    MissingParameterBlock { name: String },
}

/// The kind of a descriptor that the renderer writes.
#[derive(Debug, Clone, Copy, PartialEq, Eq, Structural)]
pub enum DescriptorValueKind {
    UniformBuffer,
    StorageBuffer,
    Sampler,
    SampledImage,
}

impl DescriptorValueKind {
    /// The Vulkan descriptor type of this kind.
    pub open spec fn descriptor_type_spec(self) -> i32 {
        match self {
            DescriptorValueKind::UniformBuffer => DESCRIPTOR_TYPE_UNIFORM_BUFFER,
            DescriptorValueKind::StorageBuffer => DESCRIPTOR_TYPE_STORAGE_BUFFER,
            DescriptorValueKind::Sampler => DESCRIPTOR_TYPE_SAMPLER,
            DescriptorValueKind::SampledImage => DESCRIPTOR_TYPE_SAMPLED_IMAGE,
        }
    }

    /// The Vulkan descriptor type of this kind.
    pub fn descriptor_type(self) -> (r: i32)
        ensures
            r == self.descriptor_type_spec(),
    {
        match self {
            DescriptorValueKind::UniformBuffer => DESCRIPTOR_TYPE_UNIFORM_BUFFER,
            DescriptorValueKind::StorageBuffer => DESCRIPTOR_TYPE_STORAGE_BUFFER,
            DescriptorValueKind::Sampler => DESCRIPTOR_TYPE_SAMPLER,
            DescriptorValueKind::SampledImage => DESCRIPTOR_TYPE_SAMPLED_IMAGE,
        }
    }

    /// The descriptor class of this kind.
    pub open spec fn class_spec(self) -> DescriptorClass {
        match self {
            DescriptorValueKind::UniformBuffer => DescriptorClass::UniformBuffer,
            DescriptorValueKind::StorageBuffer => DescriptorClass::StorageBuffer,
            DescriptorValueKind::Sampler => DescriptorClass::Sampler,
            DescriptorValueKind::SampledImage => DescriptorClass::SampledImage,
        }
    }

    /// What the descriptor is: its class, never writable.
    pub fn profile(self) -> (r: DescriptorProfile)
        ensures
            r == (DescriptorProfile { class: self.class_spec(), writable: false }),
    {
        let class = match self {
            DescriptorValueKind::UniformBuffer => DescriptorClass::UniformBuffer,
            DescriptorValueKind::StorageBuffer => DescriptorClass::StorageBuffer,
            DescriptorValueKind::Sampler => DescriptorClass::Sampler,
            DescriptorValueKind::SampledImage => DescriptorClass::SampledImage,
        };
        DescriptorProfile { class, writable: false }
    }
}

/// The descriptor binding that an offset's binding range names in a set: the
/// first binding range with that number, else, for range 0, the set's
/// implicit uniform buffer.
pub open spec fn resolved_binding(set: ParameterBlockLayout, offset: ShaderOffset) -> Result<
    DescriptorBindingLayout,
    RendererError,
> {
    match first_binding_range(set.binding_ranges@, offset.binding_range) {
        Some(range) => Ok(range.descriptor),
        None => if offset.binding_range == 0 && set.implicit_ubo is Some {
            Ok(set.implicit_ubo.unwrap())
        } else {
            Err(RendererError::BindingNotFound { binding_range: offset.binding_range, set: set.set })
        },
    }
}

/// The descriptor binding that `offset` names in `set`.
pub fn resolve_binding(set: &ParameterBlockLayout, offset: ShaderOffset) -> (r: Result<
    DescriptorBindingLayout,
    RendererError,
>)
    ensures
        r == resolved_binding(*set, offset),
{
    if let Some(range) = set.find_binding_range(offset.binding_range) {
        return Ok(range.descriptor);
    }
    if offset.binding_range == 0 {
        if let Some(binding) = set.implicit_ubo {
            return Ok(binding);
        }
    }
    Err(RendererError::BindingNotFound { binding_range: offset.binding_range, set: set.set })
}

/// The number of descriptors of a binding, which must have a fixed size.
pub open spec fn descriptor_count_spec(count: ElementCount) -> Result<u32, RendererError> {
    match count {
        ElementCount::Bounded(n) => Ok(n as u32),
        ElementCount::Runtime => Err(RendererError::RuntimeSizedArray),
    }
}

/// The number of descriptors of a binding, which must have a fixed size.
pub fn descriptor_count(count: &ElementCount) -> (r: Result<u32, RendererError>)
    ensures
        r == descriptor_count_spec(*count),
{
    match count {
        ElementCount::Bounded(n) => Ok(*n as u32),
        ElementCount::Runtime => Err(RendererError::RuntimeSizedArray),
    }
}

/// One descriptor write: the binding, the array element and the type.
#[derive(Debug, Clone, Copy, PartialEq, Eq, Structural)]
pub struct DescriptorWrite {
    pub binding: u32,
    pub array_element: u32,
    pub descriptor_type: i32,
}

/// The binding that a write at `offset` lands in: it must exist, have a fixed
/// size and hold the array element.
pub open spec fn binding_slot(set: ParameterBlockLayout, offset: ShaderOffset) -> Result<
    DescriptorBindingLayout,
    RendererError,
> {
    match resolved_binding(set, offset) {
        Err(e) => Err(e),
        Ok(binding) => match binding.count {
            ElementCount::Runtime => Err(RendererError::RuntimeSizedArray),
            ElementCount::Bounded(count) => if offset.array_index >= count {
                Err(
                    RendererError::ArrayIndexOutOfBounds {
                        array_index: offset.array_index,
                        binding: binding.binding,
                        count,
                    },
                )
            } else {
                Ok(binding)
            },
        },
    }
}

/// The write of a descriptor of `kind` at `offset` into `binding`: the types
/// must agree and the binding number must not be negative.
pub open spec fn write_for(binding: DescriptorBindingLayout, offset: ShaderOffset, kind: DescriptorValueKind) -> Result<
    DescriptorWrite,
    RendererError,
> {
    if kind.descriptor_type_spec() != binding.descriptor_type {
        Err(
            RendererError::DescriptorTypeMismatch {
                binding: binding.binding,
                expected: binding.descriptor_type,
                actual: kind.descriptor_type_spec(),
            },
        )
    } else if binding.binding < 0 {
        Err(RendererError::NegativeBinding { binding: binding.binding })
    } else {
        Ok(
            DescriptorWrite {
                binding: binding.binding as u32,
                array_element: offset.array_index as u32,
                descriptor_type: kind.descriptor_type_spec(),
            },
        )
    }
}

/// What binding a descriptor at `offset` does, in the order the checks are
/// made; `kind` is `None` for a descriptor that the renderer did not make.
pub open spec fn bind_outcome(
    set: ParameterBlockLayout,
    offset: ShaderOffset,
    kind: Option<DescriptorValueKind>,
) -> Result<DescriptorWrite, RendererError> {
    match binding_slot(set, offset) {
        Err(e) => Err(e),
        Ok(binding) => match kind {
            None => Err(RendererError::UnsupportedDescriptor),
            Some(k) => write_for(binding, offset, k),
        },
    }
}

/// The binding that a write at `offset` lands in.
pub fn check_binding_slot(set: &ParameterBlockLayout, offset: ShaderOffset) -> (r: Result<
    DescriptorBindingLayout,
    RendererError,
>)
    ensures
        r == binding_slot(*set, offset),
{
    let binding = match resolve_binding(set, offset) {
        Ok(b) => b,
        Err(e) => return Err(e),
    };
    match binding.count {
        ElementCount::Runtime => Err(RendererError::RuntimeSizedArray),
        ElementCount::Bounded(count) => {
            if offset.array_index >= count {
                Err(
                    RendererError::ArrayIndexOutOfBounds {
                        array_index: offset.array_index,
                        binding: binding.binding,
                        count,
                    },
                )
            } else {
                Ok(binding)
            }
        },
    }
}

/// The write of a descriptor of `kind` at `offset` into `binding`.
pub fn plan_write(binding: &DescriptorBindingLayout, offset: ShaderOffset, kind: DescriptorValueKind) -> (r: Result<
    DescriptorWrite,
    RendererError,
>)
    ensures
        r == write_for(*binding, offset, kind),
{
    let descriptor_type = kind.descriptor_type();
    if descriptor_type != binding.descriptor_type {
        return Err(
            RendererError::DescriptorTypeMismatch {
                binding: binding.binding,
                expected: binding.descriptor_type,
                actual: descriptor_type,
            },
        );
    }
    if binding.binding < 0 {
        return Err(RendererError::NegativeBinding { binding: binding.binding });
    }
    Ok(
        DescriptorWrite {
            binding: binding.binding as u32,
            array_element: offset.array_index as u32,
            descriptor_type,
        },
    )
}

/// The write that binding a descriptor at `offset` makes in `set`.
pub fn plan_bind(
    set: &ParameterBlockLayout,
    offset: ShaderOffset,
    kind: Option<DescriptorValueKind>,
) -> (r: Result<DescriptorWrite, RendererError>)
    ensures
        r == bind_outcome(*set, offset, kind),
{
    let binding = match check_binding_slot(set, offset) {
        Ok(b) => b,
        Err(e) => return Err(e),
    };
    match kind {
        None => Err(RendererError::UnsupportedDescriptor),
        Some(k) => plan_write(&binding, offset, k),
    }
}

/// A global parameter block: its name, its descriptor set number and the
/// layout of that set.
#[derive(Debug)]
pub struct ParameterBlockLayoutInfo {
    pub name: String,
    pub set: u32,
    pub descriptor_set: ParameterBlockLayout,
}

impl SortKey for ParameterBlockLayoutInfo {
    open spec fn sort_key(&self) -> u128 {
        self.set as u128
    }

    fn key(&self) -> (r: u128) {
        self.set as u128
    }
}

/// Two block descriptions agree: same name, set and layout.
pub open spec fn same_info(a: ParameterBlockLayoutInfo, b: ParameterBlockLayoutInfo) -> bool {
    &&& a.name@ == b.name@
    &&& a.set == b.set
    &&& same_block_layout(a.descriptor_set, b.descriptor_set)
}

/// Two sequences of block descriptions agree element by element.
pub open spec fn infos_match(a: Seq<ParameterBlockLayoutInfo>, b: Seq<ParameterBlockLayoutInfo>) -> bool {
    &&& a.len() == b.len()
    &&& forall|i: int| 0 <= i < a.len() ==> same_info(#[trigger] a[i], b[i])
}

/// The parameter blocks among the global fields, in field order: fields
/// without a name or of another type are passed over; a block whose set is
/// missing or negative stops the walk.
pub open spec fn collected_blocks(fields: Seq<VarLayout>) -> Result<
    Seq<ParameterBlockLayoutInfo>,
    RendererError,
>
    decreases fields.len(),
{
    if fields.len() == 0 {
        Ok(Seq::empty())
    } else {
        match collected_blocks(fields.drop_last()) {
            Err(e) => Err(e),
            Ok(prev) => {
                let f = fields.last();
                match f.name {
                    None => Ok(prev),
                    Some(name) => match f.value.ty {
                        Type::ParameterBlock(pb) => match pb.layout.set {
                            None => Err(RendererError::MissingSet { name }),
                            Some(set) => if set < 0 {
                                Err(RendererError::NegativeSet { name, set })
                            } else {
                                Ok(
                                    prev.push(
                                        ParameterBlockLayoutInfo {
                                            name,
                                            set: set as u32,
                                            descriptor_set: pb.layout,
                                        },
                                    ),
                                )
                            },
                        },
                        _ => Ok(prev),
                    },
                }
            },
        }
    }
}

/// The sets of the blocks, in order, are exactly 0, 1, 2, and so on.
pub open spec fn sets_from_zero(s: Seq<ParameterBlockLayoutInfo>) -> bool {
    forall|j: int| 0 <= j < s.len() ==> #[trigger] s[j].set == j
}

/// The global parameter blocks of a program, sorted by set (blocks of one
/// set keep their field order); their sets must be contiguous from 0, one
/// block per set.
pub open spec fn blocks_outcome(layout: ShaderLayout) -> Result<
    Seq<ParameterBlockLayoutInfo>,
    RendererError,
> {
    match layout.globals {
        None => Err(RendererError::MissingGlobals),
        Some(globals) => match globals.value.ty {
            Type::Struct(root) => match collected_blocks(root.fields@) {
                Err(e) => Err(e),
                Ok(found) => if found.len() == 0 {
                    Err(RendererError::NoParameterBlocks)
                } else {
                    let sorted = stable_sort_by_key(found);
                    if !sets_from_zero(sorted) {
                        Err(RendererError::NonContiguousSets)
                    } else {
                        Ok(sorted)
                    }
                },
            },
            _ => Err(RendererError::GlobalsNotStruct),
        },
    }
}

proof fn lemma_collect_err_stays(fields: Seq<VarLayout>, k: int)
    requires
        0 <= k <= fields.len(),
        collected_blocks(fields.take(k)) is Err,
    ensures
        collected_blocks(fields) == collected_blocks(fields.take(k)),
    decreases fields.len() - k,
{
    if k < fields.len() {
        assert(fields.take(k + 1).drop_last() =~= fields.take(k));
        lemma_collect_err_stays(fields, k + 1);
    } else {
        assert(fields.take(k) =~= fields);
    }
}

proof fn lemma_insert_matches(
    a: Seq<ParameterBlockLayoutInfo>,
    b: Seq<ParameterBlockLayoutInfo>,
    x: ParameterBlockLayoutInfo,
    y: ParameterBlockLayoutInfo,
)
    requires
        infos_match(a, b),
        same_info(x, y),
    ensures
        infos_match(crate::sort::insert_by_key(a, x), crate::sort::insert_by_key(b, y)),
    decreases a.len(),
{
    if a.len() > 0 {
        assert(same_info(a[a.len() - 1], b[b.len() - 1]));
        if a.last().sort_key() > x.sort_key() {
            lemma_insert_matches(a.drop_last(), b.drop_last(), x, y);
        }
    }
}

proof fn lemma_sort_matches(a: Seq<ParameterBlockLayoutInfo>, b: Seq<ParameterBlockLayoutInfo>)
    requires
        infos_match(a, b),
    ensures
        infos_match(stable_sort_by_key(a), stable_sort_by_key(b)),
    decreases a.len(),
{
    if a.len() > 0 {
        assert(same_info(a[a.len() - 1], b[b.len() - 1]));
        lemma_sort_matches(a.drop_last(), b.drop_last());
        lemma_insert_matches(
            stable_sort_by_key(a.drop_last()),
            stable_sort_by_key(b.drop_last()),
            a.last(),
            b.last(),
        );
    }
}

/// The global parameter blocks of a program, in set order. On success the
/// block at position j has set j, for every position.
pub fn collect_parameter_blocks(layout: &ShaderLayout) -> (r: Result<
    Vec<ParameterBlockLayoutInfo>,
    RendererError,
>)
    ensures
        match r {
            Ok(v) => blocks_outcome(*layout) matches Ok(s) && infos_match(v@, s),
            Err(e) => blocks_outcome(*layout) == Err::<Seq<ParameterBlockLayoutInfo>, RendererError>(e),
        },
        r matches Ok(v) ==> v@.len() > 0 && sets_from_zero(v@),
{
    let globals = match &layout.globals {
        Some(g) => g,
        None => return Err(RendererError::MissingGlobals),
    };
    let root = match &globals.value.ty {
        Type::Struct(s) => s,
        _ => return Err(RendererError::GlobalsNotStruct),
    };
    let mut blocks: Vec<ParameterBlockLayoutInfo> = Vec::new();
    let mut i: usize = 0;
    while i < root.fields.len()
        invariant
            i <= root.fields@.len(),
            layout.globals == Some(*globals),
            globals.value.ty == Type::Struct(*root),
            collected_blocks(root.fields@.take(i as int)) matches Ok(c) && infos_match(blocks@, c),
        decreases root.fields.len() - i,
    {
        proof {
            assert(root.fields@.take(i as int + 1).drop_last() =~= root.fields@.take(i as int));
        }
        let field = &root.fields[i];
        match &field.name {
            None => {},
            Some(name) => match &field.value.ty {
                Type::ParameterBlock(pb) => match pb.layout.set {
                    None => {
                        proof {
                            lemma_collect_err_stays(root.fields@, i as int + 1);
                        }
                        return Err(RendererError::MissingSet { name: name.clone() });
                    },
                    Some(set) => {
                        if set < 0 {
                            proof {
                                lemma_collect_err_stays(root.fields@, i as int + 1);
                            }
                            return Err(RendererError::NegativeSet { name: name.clone(), set });
                        }
                        let info = ParameterBlockLayoutInfo {
                            name: name.clone(),
                            set: #[verifier::truncate] (set as u32),
                            descriptor_set: pb.layout.duplicate(),
                        };
                        blocks.push(info);
                    },
                },
                _ => {},
            },
        }
        i = i + 1;
    }
    proof {
        assert(root.fields@.take(i as int) =~= root.fields@);
    }
    if blocks.len() == 0 {
        return Err(RendererError::NoParameterBlocks);
    }
    let ghost unsorted = blocks@;
    let ghost found = collected_blocks(root.fields@).unwrap();
    let sorted = sort_by_key_stable(blocks);
    proof {
        lemma_sort_matches(unsorted, found);
    }
    let mut j: usize = 0;
    while j < sorted.len()
        invariant
            j <= sorted@.len(),
            infos_match(sorted@, stable_sort_by_key(found)),
            found.len() > 0,
            layout.globals == Some(*globals),
            globals.value.ty == Type::Struct(*root),
            collected_blocks(root.fields@) == Ok::<Seq<ParameterBlockLayoutInfo>, RendererError>(found),
            forall|k: int| 0 <= k < j ==> #[trigger] sorted@[k].set == k,
        decreases sorted.len() - j,
    {
        proof {
            assert(same_info(sorted@[j as int], stable_sort_by_key(found)[j as int]));
        }
        if sorted[j].set as u64 != j as u64 {
            proof {
                assert(stable_sort_by_key(found)[j as int].set != j);
                assert(!sets_from_zero(stable_sort_by_key(found)));
                assert(found.len() > 0);
                assert(blocks_outcome(*layout) == Err::<Seq<ParameterBlockLayoutInfo>, RendererError>(RendererError::NonContiguousSets));
            }
            return Err(RendererError::NonContiguousSets);
        }
        j = j + 1;
    }
    proof {
        assert forall|k: int| 0 <= k < stable_sort_by_key(found).len() implies #[trigger] stable_sort_by_key(found)[k].set == k by {
            assert(same_info(sorted@[k], stable_sort_by_key(found)[k]));
        }
    }
    Ok(sorted)
}

/// The descriptors of a set: its implicit uniform buffer first, if it has
/// one, then the descriptor of each binding range in order.
pub open spec fn set_descriptors(set: ParameterBlockLayout) -> Seq<DescriptorBindingLayout> {
    let ubo = match set.implicit_ubo {
        Some(b) => seq![b],
        None => Seq::empty(),
    };
    ubo + set.binding_ranges@.map_values(|range: crate::slang::layout::BindingRangeLayout| range.descriptor)
}

/// The descriptors of a set: its implicit uniform buffer first, if it has
/// one, then the descriptor of each binding range in order.
pub fn descriptor_bindings(set: &ParameterBlockLayout) -> (r: Vec<DescriptorBindingLayout>)
    ensures
        r@ == set_descriptors(*set),
{
    let mut bindings: Vec<DescriptorBindingLayout> = Vec::new();
    if let Some(ubo) = set.implicit_ubo {
        bindings.push(ubo);
    }
    let ghost start = bindings@;
    let mut i: usize = 0;
    while i < set.binding_ranges.len()
        invariant
            i <= set.binding_ranges@.len(),
            bindings@ == start + set.binding_ranges@.take(i as int).map_values(
                |range: crate::slang::layout::BindingRangeLayout| range.descriptor,
            ),
        decreases set.binding_ranges.len() - i,
    {
        bindings.push(set.binding_ranges[i].descriptor);
        i = i + 1;
        proof {
            assert(bindings@ =~= start + set.binding_ranges@.take(i as int).map_values(
                |range: crate::slang::layout::BindingRangeLayout| range.descriptor,
            ));
        }
    }
    proof {
        assert(set.binding_ranges@.take(i as int) =~= set.binding_ranges@);
        assert(start =~= match set.implicit_ubo {
            Some(b) => seq![b],
            None => Seq::<DescriptorBindingLayout>::empty(),
        });
    }
    bindings
}

/// One binding of a descriptor set layout: its number, descriptor type,
/// descriptor count and shader stages.
#[derive(Debug, Clone, Copy, PartialEq, Eq, Structural)]
pub struct SetLayoutBinding {
    pub binding: u32,
    pub descriptor_type: i32,
    pub descriptor_count: u32,
    pub stage_flags: u32,
}

impl SortKey for SetLayoutBinding {
    open spec fn sort_key(&self) -> u128 {
        self.binding as u128
    }

    fn key(&self) -> (r: u128) {
        self.binding as u128
    }
}

/// The layout bindings of `descs`, in order: a negative binding number, then
/// a run-time sized array, stops the walk.
pub open spec fn layout_bindings_of(descs: Seq<DescriptorBindingLayout>) -> Result<
    Seq<SetLayoutBinding>,
    RendererError,
>
    decreases descs.len(),
{
    if descs.len() == 0 {
        Ok(Seq::empty())
    } else {
        match layout_bindings_of(descs.drop_last()) {
            Err(e) => Err(e),
            Ok(prev) => {
                let d = descs.last();
                if d.binding < 0 {
                    Err(RendererError::NegativeBinding { binding: d.binding })
                } else {
                    match descriptor_count_spec(d.count) {
                        Err(e) => Err(e),
                        Ok(count) => Ok(
                            prev.push(
                                SetLayoutBinding {
                                    binding: d.binding as u32,
                                    descriptor_type: d.descriptor_type,
                                    descriptor_count: count,
                                    stage_flags: d.stages,
                                },
                            ),
                        ),
                    }
                }
            },
        }
    }
}

/// The bindings of the descriptor set layout for `set`, sorted by binding
/// number.
pub open spec fn set_layout_outcome(set: ParameterBlockLayout) -> Result<
    Seq<SetLayoutBinding>,
    RendererError,
> {
    match layout_bindings_of(set_descriptors(set)) {
        Err(e) => Err(e),
        Ok(bindings) => Ok(stable_sort_by_key(bindings)),
    }
}

proof fn lemma_bindings_err_stays(descs: Seq<DescriptorBindingLayout>, k: int)
    requires
        0 <= k <= descs.len(),
        layout_bindings_of(descs.take(k)) is Err,
    ensures
        layout_bindings_of(descs) == layout_bindings_of(descs.take(k)),
    decreases descs.len() - k,
{
    if k < descs.len() {
        assert(descs.take(k + 1).drop_last() =~= descs.take(k));
        lemma_bindings_err_stays(descs, k + 1);
    } else {
        assert(descs.take(k) =~= descs);
    }
}

/// The bindings of the descriptor set layout for `set`, sorted by binding
/// number; on success the numbers never decrease.
pub fn set_layout_bindings(set: &ParameterBlockLayout) -> (r: Result<
    Vec<SetLayoutBinding>,
    RendererError,
>)
    ensures
        match r {
            Ok(v) => set_layout_outcome(*set) == Ok::<Seq<SetLayoutBinding>, RendererError>(v@),
            Err(e) => set_layout_outcome(*set) == Err::<Seq<SetLayoutBinding>, RendererError>(e),
        },
        r matches Ok(v) ==> sorted_by_key(v@),
{
    let descs = descriptor_bindings(set);
    let mut bindings: Vec<SetLayoutBinding> = Vec::new();
    let mut i: usize = 0;
    while i < descs.len()
        invariant
            i <= descs@.len(),
            descs@ == set_descriptors(*set),
            layout_bindings_of(descs@.take(i as int)) == Ok::<Seq<SetLayoutBinding>, RendererError>(
                bindings@,
            ),
        decreases descs.len() - i,
    {
        proof {
            assert(descs@.take(i as int + 1).drop_last() =~= descs@.take(i as int));
        }
        let d = descs[i];
        if d.binding < 0 {
            proof {
                lemma_bindings_err_stays(descs@, i as int + 1);
            }
            return Err(RendererError::NegativeBinding { binding: d.binding });
        }
        let count = match descriptor_count(&d.count) {
            Ok(c) => c,
            Err(e) => {
                proof {
                    lemma_bindings_err_stays(descs@, i as int + 1);
                }
                return Err(e);
            },
        };
        bindings.push(
            SetLayoutBinding {
                binding: d.binding as u32,
                descriptor_type: d.descriptor_type,
                descriptor_count: count,
                stage_flags: d.stages,
            },
        );
        i = i + 1;
    }
    proof {
        assert(descs@.take(i as int) =~= descs@);
        lemma_stable_sort_sorted(bindings@);
    }
    Ok(sort_by_key_stable(bindings))
}

/// The descriptors of all the blocks' sets, block by block.
pub open spec fn blocks_descriptors(blocks: Seq<ParameterBlockLayoutInfo>) -> Seq<
    DescriptorBindingLayout,
>
    decreases blocks.len(),
{
    if blocks.len() == 0 {
        Seq::empty()
    } else {
        blocks_descriptors(blocks.drop_last()) + set_descriptors(blocks.last().descriptor_set)
    }
}

/// Whether some descriptor of `descs` is a run-time sized array.
pub open spec fn has_runtime_array(descs: Seq<DescriptorBindingLayout>) -> bool {
    exists|i: int| 0 <= i < descs.len() && (#[trigger] descs[i]).count is Runtime
}

/// The number of descriptors of type `t` that `descs` need, arrays counted
/// by their fixed size as a `u32`.
pub open spec fn type_total(descs: Seq<DescriptorBindingLayout>, t: i32) -> nat
    decreases descs.len(),
{
    if descs.len() == 0 {
        0
    } else {
        type_total(descs.drop_last(), t) + if descs.last().descriptor_type == t {
            match descs.last().count {
                ElementCount::Bounded(n) => (n as u32) as nat,
                ElementCount::Runtime => 0nat,
            }
        } else {
            0nat
        }
    }
}

/// The totals of every descriptor type over the leading descriptors that
/// hold no run-time sized array fit in a `u32`.
pub open spec fn totals_fit(descs: Seq<DescriptorBindingLayout>) -> bool {
    forall|k: int, t: i32|
        0 <= k <= descs.len() && !has_runtime_array(descs.take(k)) ==> #[trigger] type_total(
            descs.take(k),
            t,
        ) <= u32::MAX
}

/// A descriptor pool size: a descriptor type and how many of it.
#[derive(Debug, Clone, Copy, PartialEq, Eq, Structural)]
pub struct DescriptorPoolSize {
    pub descriptor_type: i32,
    pub descriptor_count: u32,
}

proof fn lemma_type_total_absent(descs: Seq<DescriptorBindingLayout>, t: i32)
    requires
        forall|k: int| 0 <= k < descs.len() ==> (#[trigger] descs[k]).descriptor_type != t,
    ensures
        type_total(descs, t) == 0,
    decreases descs.len(),
{
    if descs.len() > 0 {
        lemma_type_total_absent(descs.drop_last(), t);
    }
}

/// The descriptors of all the blocks' sets, block by block.
pub fn all_descriptors(blocks: &Vec<ParameterBlockLayoutInfo>) -> (r: Vec<DescriptorBindingLayout>)
    ensures
        r@ == blocks_descriptors(blocks@),
{
    let mut out: Vec<DescriptorBindingLayout> = Vec::new();
    let mut i: usize = 0;
    while i < blocks.len()
        invariant
            i <= blocks@.len(),
            out@ == blocks_descriptors(blocks@.take(i as int)),
        decreases blocks.len() - i,
    {
        proof {
            assert(blocks@.take(i as int + 1).drop_last() =~= blocks@.take(i as int));
        }
        let mut more = descriptor_bindings(&blocks[i].descriptor_set);
        out.append(&mut more);
        i = i + 1;
    }
    proof {
        assert(blocks@.take(i as int) =~= blocks@);
    }
    out
}

/// Whether an entry of `sizes` is for type `t`.
pub open spec fn has_type(sizes: Seq<DescriptorPoolSize>, t: i32) -> bool {
    exists|j: int| 0 <= j < sizes.len() && sizes[j].descriptor_type == t
}

/// Whether a descriptor of `descs` has type `t`.
pub open spec fn uses_type(descs: Seq<DescriptorBindingLayout>, t: i32) -> bool {
    exists|k: int| 0 <= k < descs.len() && descs[k].descriptor_type == t
}

/// `sizes` are the pool sizes of `descs`: one entry per type that occurs,
/// no type twice, each with the total count of its type.
pub open spec fn pool_sizes_for(
    sizes: Seq<DescriptorPoolSize>,
    descs: Seq<DescriptorBindingLayout>,
) -> bool {
    &&& forall|a: int, b: int|
        0 <= a < b < sizes.len() ==> (#[trigger] sizes[a]).descriptor_type
            != (#[trigger] sizes[b]).descriptor_type
    &&& forall|j: int|
        0 <= j < sizes.len() ==> (#[trigger] sizes[j]).descriptor_count == type_total(
            descs,
            sizes[j].descriptor_type,
        ) && uses_type(descs, sizes[j].descriptor_type)
    &&& forall|k: int| 0 <= k < descs.len() ==> has_type(sizes, (#[trigger] descs[k]).descriptor_type)
}

proof fn lemma_pool_push_desc(
    descs: Seq<DescriptorBindingLayout>,
    d: DescriptorBindingLayout,
    n: u32,
)
    requires
        descriptor_count_spec(d.count) == Ok::<u32, RendererError>(n),
    ensures
        forall|u: i32|
            #[trigger] type_total(descs.push(d), u) == type_total(descs, u) + if u
                == d.descriptor_type {
                n as nat
            } else {
                0nat
            },
        forall|u: i32| uses_type(descs, u) ==> #[trigger] uses_type(descs.push(d), u),
        uses_type(descs.push(d), d.descriptor_type),
{
    let after = descs.push(d);
    assert(after.drop_last() =~= descs);
    assert forall|u: i32| uses_type(descs, u) implies #[trigger] uses_type(after, u) by {
        let k = choose|k: int| 0 <= k < descs.len() && descs[k].descriptor_type == u;
        assert(after[k] == descs[k]);
    }
    assert(after[descs.len() as int] == d);
}

proof fn lemma_pool_add(
    sizes: Seq<DescriptorPoolSize>,
    descs: Seq<DescriptorBindingLayout>,
    d: DescriptorBindingLayout,
    n: u32,
    j: int,
)
    requires
        pool_sizes_for(sizes, descs),
        descriptor_count_spec(d.count) == Ok::<u32, RendererError>(n),
        0 <= j < sizes.len(),
        sizes[j].descriptor_type == d.descriptor_type,
        sizes[j].descriptor_count + n <= u32::MAX,
    ensures
        pool_sizes_for(
            sizes.update(
                j,
                DescriptorPoolSize {
                    descriptor_type: d.descriptor_type,
                    descriptor_count: (sizes[j].descriptor_count + n) as u32,
                },
            ),
            descs.push(d),
        ),
{
    lemma_pool_push_desc(descs, d, n);
    let after = descs.push(d);
    let next = sizes.update(
        j,
        DescriptorPoolSize {
            descriptor_type: d.descriptor_type,
            descriptor_count: (sizes[j].descriptor_count + n) as u32,
        },
    );
    assert forall|k: int| 0 <= k < after.len() implies has_type(next, (#[trigger] after[k]).descriptor_type) by {
        if k < descs.len() {
            assert(after[k] == descs[k]);
            assert(has_type(sizes, descs[k].descriptor_type));
            let jj = choose|jj: int|
                0 <= jj < sizes.len() && sizes[jj].descriptor_type == descs[k].descriptor_type;
            assert(next[jj].descriptor_type == sizes[jj].descriptor_type);
        } else {
            assert(next[j].descriptor_type == d.descriptor_type);
        }
    }
    assert forall|a: int| 0 <= a < next.len() implies (#[trigger] next[a]).descriptor_count == type_total(
        after,
        next[a].descriptor_type,
    ) && uses_type(after, next[a].descriptor_type) by {
        assert(type_total(after, next[a].descriptor_type) == type_total(descs, next[a].descriptor_type)
            + if next[a].descriptor_type == d.descriptor_type {
            n as nat
        } else {
            0nat
        });
        if a != j {
            assert(sizes[a].descriptor_type != sizes[j].descriptor_type);
            assert(uses_type(descs, sizes[a].descriptor_type));
        }
    }
}

proof fn lemma_pool_new(
    sizes: Seq<DescriptorPoolSize>,
    descs: Seq<DescriptorBindingLayout>,
    d: DescriptorBindingLayout,
    n: u32,
)
    requires
        pool_sizes_for(sizes, descs),
        descriptor_count_spec(d.count) == Ok::<u32, RendererError>(n),
        forall|j: int| 0 <= j < sizes.len() ==> (#[trigger] sizes[j]).descriptor_type != d.descriptor_type,
    ensures
        pool_sizes_for(
            sizes.push(DescriptorPoolSize { descriptor_type: d.descriptor_type, descriptor_count: n }),
            descs.push(d),
        ),
{
    lemma_pool_push_desc(descs, d, n);
    let after = descs.push(d);
    let entry = DescriptorPoolSize { descriptor_type: d.descriptor_type, descriptor_count: n };
    let next = sizes.push(entry);
    assert forall|k: int| 0 <= k < descs.len() implies (#[trigger] descs[k]).descriptor_type
        != d.descriptor_type by {
        assert(has_type(sizes, descs[k].descriptor_type));
        let jj = choose|jj: int|
            0 <= jj < sizes.len() && sizes[jj].descriptor_type == descs[k].descriptor_type;
        assert(sizes[jj].descriptor_type != d.descriptor_type);
    }
    lemma_type_total_absent(descs, d.descriptor_type);
    assert forall|k: int| 0 <= k < after.len() implies has_type(next, (#[trigger] after[k]).descriptor_type) by {
        if k < descs.len() {
            assert(after[k] == descs[k]);
            assert(has_type(sizes, descs[k].descriptor_type));
            let jj = choose|jj: int|
                0 <= jj < sizes.len() && sizes[jj].descriptor_type == descs[k].descriptor_type;
            assert(next[jj] == sizes[jj]);
        } else {
            assert(next[sizes.len() as int] == entry);
        }
    }
    assert forall|a: int| 0 <= a < next.len() implies (#[trigger] next[a]).descriptor_count == type_total(
        after,
        next[a].descriptor_type,
    ) && uses_type(after, next[a].descriptor_type) by {
        assert(type_total(after, next[a].descriptor_type) == type_total(descs, next[a].descriptor_type)
            + if next[a].descriptor_type == d.descriptor_type {
            n as nat
        } else {
            0nat
        });
        if a < sizes.len() {
            assert(next[a] == sizes[a]);
            assert(uses_type(descs, sizes[a].descriptor_type));
        }
    }
    assert forall|a: int, b: int| 0 <= a < b < next.len() implies (#[trigger] next[a]).descriptor_type
        != (#[trigger] next[b]).descriptor_type by {
        if b < sizes.len() {
            assert(next[a] == sizes[a] && next[b] == sizes[b]);
        } else {
            assert(next[a] == sizes[a]);
        }
    }
}

/// The pool sizes that the blocks' descriptor sets need: one entry per
/// descriptor type that occurs, with the total count of that type. A
/// run-time sized array is refused.
pub fn descriptor_pool_sizes(blocks: &Vec<ParameterBlockLayoutInfo>) -> (r: Result<
    Vec<DescriptorPoolSize>,
    RendererError,
>)
    requires
        totals_fit(blocks_descriptors(blocks@)),
    ensures
        match r {
            Err(e) => e == RendererError::RuntimeSizedArray && has_runtime_array(
                blocks_descriptors(blocks@),
            ),
            Ok(v) => !has_runtime_array(blocks_descriptors(blocks@)) && pool_sizes_for(
                v@,
                blocks_descriptors(blocks@),
            ),
        },
{
    let descs = all_descriptors(blocks);
    let ghost all = descs@;
    let mut sizes: Vec<DescriptorPoolSize> = Vec::new();
    let mut i: usize = 0;
    proof {
        assert(all.take(0) =~= Seq::<DescriptorBindingLayout>::empty());
    }
    while i < descs.len()
        invariant
            i <= all.len(),
            descs@ == all,
            all == blocks_descriptors(blocks@),
            totals_fit(all),
            !has_runtime_array(all.take(i as int)),
            pool_sizes_for(sizes@, all.take(i as int)),
        decreases descs.len() - i,
    {
        let d = descs[i];
        let n = match descriptor_count(&d.count) {
            Ok(n) => n,
            Err(e) => {
                proof {
                    assert(all[i as int].count is Runtime);
                }
                return Err(e);
            },
        };
        let t = d.descriptor_type;
        let ghost before = all.take(i as int);
        let ghost after = all.take(i as int + 1);
        proof {
            assert(after =~= before.push(d));
            assert forall|x: int| 0 <= x < after.len() implies !((#[trigger] after[x]).count is Runtime) by {
                if x < i {
                    assert(after[x] == before[x]);
                }
            }
            lemma_pool_push_desc(before, d, n);
            assert(type_total(after, t) <= u32::MAX);
        }
        let mut j: usize = 0;
        while j < sizes.len() && sizes[j].descriptor_type != t
            invariant
                j <= sizes@.len(),
                forall|x: int| 0 <= x < j ==> (#[trigger] sizes@[x]).descriptor_type != t,
            decreases sizes.len() - j,
        {
            j = j + 1;
        }
        if j < sizes.len() {
            let old_count = sizes[j].descriptor_count;
            proof {
                lemma_pool_add(sizes@, before, d, n, j as int);
            }
            sizes.set(j, DescriptorPoolSize { descriptor_type: t, descriptor_count: old_count + n });
        } else {
            proof {
                lemma_pool_new(sizes@, before, d, n);
            }
            sizes.push(DescriptorPoolSize { descriptor_type: t, descriptor_count: n });
        }
        i = i + 1;
    }
    proof {
        assert(all.take(i as int) =~= all);
    }
    Ok(sizes)
}

/// The name of the parameter block of per-frame data.
pub const FRAME_PARAMETER_BLOCK_NAME: &'static str = "frame";

/// The name of the parameter block of material resources.
pub const MATERIAL_PARAMETER_BLOCK_NAME: &'static str = "material";

/// The last block of `blocks` named `name`, if any.
pub open spec fn last_named(blocks: Seq<ParameterBlockLayoutInfo>, name: Seq<char>, at: int) -> bool {
    &&& 0 <= at < blocks.len()
    &&& blocks[at].name@ == name
    &&& forall|k: int| at < k < blocks.len() ==> (#[trigger] blocks[k]).name@ != name
}

/// Whether some block of `blocks` is named `name`.
pub open spec fn has_named(blocks: Seq<ParameterBlockLayoutInfo>, name: Seq<char>) -> bool {
    exists|k: int| 0 <= k < blocks.len() && (#[trigger] blocks[k]).name@ == name
}

/// Every block's set is below `set_count`.
pub open spec fn sets_allocated(blocks: Seq<ParameterBlockLayoutInfo>, set_count: int) -> bool {
    forall|k: int| 0 <= k < blocks.len() ==> (#[trigger] blocks[k]).set < set_count
}

/// The positions of the frame block and of the material block among
/// `blocks`, whose sets must all be among the `set_count` allocated sets;
/// where several blocks bear a name, the last one counts.
pub fn select_parameter_blocks(blocks: &Vec<ParameterBlockLayoutInfo>, set_count: usize) -> (r: Result<
    (usize, usize),
    RendererError,
>)
    ensures
        match r {
            Ok((frame, material)) => {
                &&& sets_allocated(blocks@, set_count as int)
                &&& last_named(blocks@, FRAME_PARAMETER_BLOCK_NAME@, frame as int)
                &&& last_named(blocks@, MATERIAL_PARAMETER_BLOCK_NAME@, material as int)
            },
            Err(RendererError::MissingDescriptorSet { set }) => exists|i: int|
                0 <= i < blocks@.len() && (#[trigger] blocks@[i]).set == set && set >= set_count
                    && sets_allocated(blocks@.take(i), set_count as int),
            Err(RendererError::MissingParameterBlock { name }) => {
                &&& sets_allocated(blocks@, set_count as int)
                &&& ((name@ == FRAME_PARAMETER_BLOCK_NAME@ && !has_named(
                    blocks@,
                    FRAME_PARAMETER_BLOCK_NAME@,
                )) || (name@ == MATERIAL_PARAMETER_BLOCK_NAME@ && has_named(
                    blocks@,
                    FRAME_PARAMETER_BLOCK_NAME@,
                ) && !has_named(blocks@, MATERIAL_PARAMETER_BLOCK_NAME@)))
            },
            Err(_) => false,
        },
{
    let mut frame: Option<usize> = None;
    let mut material: Option<usize> = None;
    let mut i: usize = 0;
    while i < blocks.len()
        invariant
            i <= blocks@.len(),
            sets_allocated(blocks@.take(i as int), set_count as int),
            match frame {
                Some(f) => last_named(blocks@.take(i as int), FRAME_PARAMETER_BLOCK_NAME@, f as int),
                None => !has_named(blocks@.take(i as int), FRAME_PARAMETER_BLOCK_NAME@),
            },
            match material {
                Some(m) => last_named(blocks@.take(i as int), MATERIAL_PARAMETER_BLOCK_NAME@, m as int),
                None => !has_named(blocks@.take(i as int), MATERIAL_PARAMETER_BLOCK_NAME@),
            },
        decreases blocks.len() - i,
    {
        let ghost before = blocks@.take(i as int);
        let ghost after = blocks@.take(i as int + 1);
        proof {
            assert(after =~= before.push(blocks@[i as int]));
        }
        let set = blocks[i].set;
        if set as usize >= set_count {
            return Err(RendererError::MissingDescriptorSet { set });
        }
        let is_frame = crate::text::str_eq(blocks[i].name.as_str(), FRAME_PARAMETER_BLOCK_NAME);
        let is_material = crate::text::str_eq(
            blocks[i].name.as_str(),
            MATERIAL_PARAMETER_BLOCK_NAME,
        );
        if is_frame {
            frame = Some(i);
        }
        if is_material {
            material = Some(i);
        }
        proof {
            assert forall|k: int| 0 <= k < before.len() implies after[k] == before[k] by {}
            assert(sets_allocated(after, set_count as int));
            if !is_frame {
                match frame {
                    Some(f) => {},
                    None => {
                        assert forall|k: int| 0 <= k < after.len() implies (#[trigger] after[k]).name@
                            != FRAME_PARAMETER_BLOCK_NAME@ by {
                            if k < before.len() {
                                assert(after[k] == before[k]);
                            }
                        }
                    },
                }
            } else {
                assert(after[i as int].name@ == FRAME_PARAMETER_BLOCK_NAME@);
            }
            if !is_material {
                match material {
                    Some(m) => {},
                    None => {
                        assert forall|k: int| 0 <= k < after.len() implies (#[trigger] after[k]).name@
                            != MATERIAL_PARAMETER_BLOCK_NAME@ by {
                            if k < before.len() {
                                assert(after[k] == before[k]);
                            }
                        }
                    },
                }
            } else {
                assert(after[i as int].name@ == MATERIAL_PARAMETER_BLOCK_NAME@);
            }
        }
        i = i + 1;
    }
    proof {
        assert(blocks@.take(i as int) =~= blocks@);
    }
    let f = match frame {
        Some(f) => f,
        None => {
            return Err(RendererError::MissingParameterBlock { name: FRAME_PARAMETER_BLOCK_NAME.to_owned() });
        },
    };
    let m = match material {
        Some(m) => m,
        None => {
            return Err(
                RendererError::MissingParameterBlock { name: MATERIAL_PARAMETER_BLOCK_NAME.to_owned() },
            );
        },
    };
    Ok((f, m))
}

} // verus!
