//! The normalized layout IR: every type, variable and declaration stored once
//! in a table and referred to by index.

use vstd::prelude::*;
use crate::slang::enums::SlangBindingType;

verus! {

/// A value that can be copied into an equal, independent value.
pub trait DeepCopy: Sized {
    fn deep_copy(&self) -> (r: Self)
        ensures
            r == *self,
    ;
}

/// Copies every element of `v`, in order.
pub fn copy_vec<T: DeepCopy>(v: &Vec<T>) -> (r: Vec<T>)
    ensures
        r@ == v@,
{
    let mut out: Vec<T> = Vec::with_capacity(v.len());
    let mut i: usize = 0;
    while i < v.len()
        invariant
            i <= v.len(),
            out@ == v@.subrange(0, i as int),
        decreases v.len() - i,
    {
        out.push(v[i].deep_copy());
        i = i + 1;
        proof {
            assert(out@ =~= v@.subrange(0, i as int));
        }
    }
    proof {
        assert(out@ =~= v@);
    }
    out
}

/// Copies an optional string.
pub fn copy_opt_string(s: &Option<String>) -> (r: Option<String>)
    ensures
        r == *s,
{
    match s {
        Some(text) => Some(text.clone()),
        None => None,
    }
}

/// A size or offset counted in the three units Slang lays data out in.
#[derive(Clone, Copy, Debug, PartialEq, Eq, Default)]
pub struct SlangUnit {
    pub bytes: u32,
    pub binding_slots: u32,
    pub set_spaces: u32,
}

/// A Slang enumeration value, kept by name and number.
#[derive(Clone, Debug)]
pub struct SlangEnumValue {
    pub name: String,
    pub value: i32,
}

impl DeepCopy for SlangEnumValue {
    fn deep_copy(&self) -> (r: Self) {
        SlangEnumValue { name: self.name.clone(), value: self.value }
    }
}

/// Index of a type layout in `LayoutIr::types`.
#[derive(Clone, Copy, Debug, PartialEq, Eq, Hash, Structural)]
pub struct TypeLayoutId(pub u32);

/// Index of a variable layout in `LayoutIr::vars`.
#[derive(Clone, Copy, Debug, PartialEq, Eq, Hash, Structural)]
pub struct VarLayoutId(pub u32);

/// Index of a type declaration in `LayoutIr::type_decls`.
#[derive(Clone, Copy, Debug, PartialEq, Eq, Hash, Structural)]
pub struct TypeDeclId(pub u32);

/// A whole program's layout, with types and variables in tables.
#[derive(Clone, Debug)]
pub struct LayoutIr {
    pub global_scope: ScopeIr,
    pub entry_points: Vec<EntryPointIr>,
    pub type_decls: Vec<TypeDeclIr>,
    pub types: Vec<TypeLayoutIr>,
    pub vars: Vec<VarLayoutIr>,
}

/// The parameters of a scope, as one variable layout.
#[derive(Clone, Copy, Debug)]
pub struct ScopeIr {
    pub var_layout: VarLayoutId,
}

/// An entry point with its stage and parameters.
#[derive(Clone, Debug)]
pub struct EntryPointIr {
    pub name: String,
    pub stage: SlangEnumValue,
    pub parameters: ScopeIr,
}

/// The size a type takes in one parameter category.
#[derive(Clone, Debug)]
pub struct CategoryLayoutIr {
    pub category: SlangEnumValue,
    pub size: u32,
    pub alignment: u32,
    pub stride: u32,
}

impl DeepCopy for CategoryLayoutIr {
    fn deep_copy(&self) -> (r: Self) {
        CategoryLayoutIr {
            category: self.category.deep_copy(),
            size: self.size,
            alignment: self.alignment,
            stride: self.stride,
        }
    }
}

/// Where a variable sits in one parameter category.
#[derive(Clone, Debug)]
pub struct CategoryOffsetIr {
    pub category: SlangEnumValue,
    pub offset: u32,
    pub space: u32,
}

impl DeepCopy for CategoryOffsetIr {
    fn deep_copy(&self) -> (r: Self) {
        CategoryOffsetIr {
            category: self.category.deep_copy(),
            offset: self.offset,
            space: self.space,
        }
    }
}

/// A location inside a shader object: bytes, binding range and array index.
#[derive(Clone, Copy, Debug)]
pub struct ShaderOffset {
    pub byte_offset: usize,
    pub binding_range_index: u32,
    pub binding_range_array_index: u32,
}

/// One binding range of a type layout.
#[derive(Clone, Copy, Debug)]
pub struct BindingRangeIr {
    pub binding_range_index: u32,
    pub binding_type: SlangBindingType,
    pub count: u32,
    pub first_descriptor_range_index: u32,
}

impl DeepCopy for BindingRangeIr {
    fn deep_copy(&self) -> (r: Self) {
        *self
    }
}

/// One range of descriptors in a descriptor set.
#[derive(Clone, Debug)]
pub struct DescriptorSetRangeIr {
    pub binding_type: SlangBindingType,
    pub descriptor_count: i64,
    pub category: SlangEnumValue,
}

impl DeepCopy for DescriptorSetRangeIr {
    fn deep_copy(&self) -> (r: Self) {
        DescriptorSetRangeIr {
            binding_type: self.binding_type,
            descriptor_count: self.descriptor_count,
            category: self.category.deep_copy(),
        }
    }
}

/// A descriptor set of a type layout and its ranges.
#[derive(Clone, Debug)]
pub struct DescriptorSetIr {
    pub set_index: u32,
    pub space_offset: u32,
    pub ranges: Vec<DescriptorSetRangeIr>,
}

/// Two descriptor sets hold the same numbers and the same ranges.
pub open spec fn same_descriptor_set(a: DescriptorSetIr, b: DescriptorSetIr) -> bool {
    &&& a.set_index == b.set_index
    &&& a.space_offset == b.space_offset
    &&& a.ranges@ == b.ranges@
}

/// Two lists of descriptor sets agree set by set.
pub open spec fn same_descriptor_sets(a: Seq<DescriptorSetIr>, b: Seq<DescriptorSetIr>) -> bool {
    &&& a.len() == b.len()
    &&& forall|i: int| 0 <= i < a.len() ==> same_descriptor_set(#[trigger] a[i], b[i])
}

/// Copies a list of descriptor sets.
pub fn copy_descriptor_sets(v: &Vec<DescriptorSetIr>) -> (r: Vec<DescriptorSetIr>)
    ensures
        same_descriptor_sets(r@, v@),
{
    let mut out: Vec<DescriptorSetIr> = Vec::with_capacity(v.len());
    let mut i: usize = 0;
    while i < v.len()
        invariant
            i <= v.len(),
            out@.len() == i,
            forall|k: int| 0 <= k < i ==> same_descriptor_set(#[trigger] out@[k], v@[k]),
        decreases v.len() - i,
    {
        let set = &v[i];
        out.push(
            DescriptorSetIr {
                set_index: set.set_index,
                space_offset: set.space_offset,
                ranges: copy_vec(&set.ranges),
            },
        );
        i = i + 1;
    }
    out
}

/// A range of sub-objects (such as constant buffers) in a type layout.
#[derive(Clone, Copy, Debug)]
pub struct SubObjectRangeIr {
    pub binding_range_index: u32,
    pub binding_type: SlangBindingType,
    pub space_offset: u32,
    pub leaf_element_type_layout: Option<TypeLayoutId>,
}

/// A declared type: its name, if it has one, and its kind.
#[derive(Clone, Debug)]
pub struct TypeDeclIr {
    pub name: Option<String>,
    pub kind: SlangEnumValue,
}

/// The layout of one type, referring to other tables by index.
#[derive(Clone, Debug)]
pub struct TypeLayoutIr {
    pub decl: TypeDeclId,
    pub categories: Vec<CategoryLayoutIr>,
    pub size: SlangUnit,
    pub alignment_bytes: u32,
    pub stride: SlangUnit,
    pub stride_bytes: u32,
    pub matrix_layout_mode: Option<SlangEnumValue>,
    pub binding_ranges: Vec<BindingRangeIr>,
    pub descriptor_sets: Vec<DescriptorSetIr>,
    pub sub_object_ranges: Vec<SubObjectRangeIr>,
    pub fields: Vec<FieldIr>,
    pub element: Option<TypeLayoutId>,
    pub element_count: Option<u32>,
    pub container: Option<VarLayoutId>,
    pub contained: Option<VarLayoutId>,
}

/// The layout of one variable: where it sits and the layout of its type.
#[derive(Clone, Debug)]
pub struct VarLayoutIr {
    pub name: Option<String>,
    pub offsets: Vec<CategoryOffsetIr>,
    pub byte_offset_delta: u32,
    pub binding_range_offset_delta: u32,
    pub type_layout: TypeLayoutId,
}

/// A field of a struct type, as a variable layout.
#[derive(Clone, Copy, Debug)]
pub struct FieldIr {
    pub var: VarLayoutId,
}

} // verus!
