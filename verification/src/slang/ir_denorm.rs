//! The denormalized layout IR: every reference of the normalized IR replaced
//! by a copy of what it refers to, giving one self-contained tree per scope.

use vstd::prelude::*;
use crate::slang::enums::SlangBindingType;
use crate::slang::ir::{
    copy_descriptor_sets, copy_opt_string, copy_vec, same_descriptor_sets, BindingRangeIr,
    CategoryLayoutIr, CategoryOffsetIr, DeepCopy, DescriptorSetIr, EntryPointIr, FieldIr,
    LayoutIr, SlangEnumValue, SlangUnit, SubObjectRangeIr, TypeDeclId, TypeDeclIr,
    TypeLayoutId, TypeLayoutIr, VarLayoutId, VarLayoutIr,
};

verus! {

/// A whole program's layout as trees.
#[derive(Debug)]
pub struct LayoutIrDenorm {
    pub global_scope: ScopeIrDenorm,
    pub entry_points: Vec<EntryPointIrDenorm>,
}

/// The parameters of a scope.
#[derive(Debug)]
pub struct ScopeIrDenorm {
    pub var_layout: VarLayoutIrDenorm,
}

/// An entry point with its stage and parameters.
#[derive(Debug)]
pub struct EntryPointIrDenorm {
    pub name: String,
    pub stage: SlangEnumValue,
    pub parameters: ScopeIrDenorm,
}

/// A range of sub-objects, with the layout of its leaf element inlined.
#[derive(Debug)]
pub struct SubObjectRangeIrDenorm {
    pub binding_range_index: u32,
    pub binding_type: SlangBindingType,
    pub space_offset: u32,
    pub leaf_element_type_layout: Option<Box<TypeLayoutIrDenorm>>,
}

/// The layout of a type with its declaration, fields and element inlined.
#[derive(Debug)]
pub struct TypeLayoutIrDenorm {
    pub name: Option<String>,
    pub kind: SlangEnumValue,
    pub categories: Vec<CategoryLayoutIr>,
    pub size: SlangUnit,
    pub alignment_bytes: u32,
    pub stride: SlangUnit,
    pub stride_bytes: u32,
    pub matrix_layout_mode: Option<SlangEnumValue>,
    pub binding_ranges: Vec<BindingRangeIr>,
    pub descriptor_sets: Vec<DescriptorSetIr>,
    pub sub_object_ranges: Vec<SubObjectRangeIrDenorm>,
    pub fields: Vec<FieldIrDenorm>,
    pub element: Option<Box<TypeLayoutIrDenorm>>,
    pub element_count: Option<u32>,
    pub container: Option<Box<VarLayoutIrDenorm>>,
    pub contained: Option<Box<VarLayoutIrDenorm>>,
}

/// The layout of a variable with its type inlined.
#[derive(Debug)]
pub struct VarLayoutIrDenorm {
    pub name: Option<String>,
    pub offsets: Vec<CategoryOffsetIr>,
    pub byte_offset_delta: u32,
    pub binding_range_offset_delta: u32,
    pub type_layout: Box<TypeLayoutIrDenorm>,
}

/// A named field of a struct type.
#[derive(Debug)]
pub struct FieldIrDenorm {
    pub name: String,
    pub var: VarLayoutIrDenorm,
}

/// Whether the container and contained layouts of a type are followed.
/// A container's own type is not expanded further, which breaks the cycle
/// between a parameter block and the variable that holds it.
#[derive(Clone, Copy, Debug, PartialEq, Eq, Structural)]
pub enum DenormContext {
    Full,
    SkipContainerLayouts,
}

/// A reference of the normalized IR that points past the end of its table.
#[derive(Clone, Copy, Debug, PartialEq, Eq, Structural)]
pub enum DenormError {
    MissingVarLayout(VarLayoutId),
    MissingTypeLayout(TypeLayoutId),
    MissingTypeDecl(TypeDeclId),
}

/// The variable layout that `id` refers to, if it exists.
pub open spec fn var_at(layout: LayoutIr, id: VarLayoutId) -> Option<VarLayoutIr> {
    if (id.0 as int) < layout.vars@.len() {
        Some(layout.vars@[id.0 as int])
    } else {
        None
    }
}

/// The type layout that `id` refers to, if it exists.
pub open spec fn type_at(layout: LayoutIr, id: TypeLayoutId) -> Option<TypeLayoutIr> {
    if (id.0 as int) < layout.types@.len() {
        Some(layout.types@[id.0 as int])
    } else {
        None
    }
}

/// The type declaration that `id` refers to, if it exists.
pub open spec fn decl_at(layout: LayoutIr, id: TypeDeclId) -> Option<TypeDeclIr> {
    if (id.0 as int) < layout.type_decls@.len() {
        Some(layout.type_decls@[id.0 as int])
    } else {
        None
    }
}

/// The name a field takes from its variable layout: empty when unnamed.
pub open spec fn field_name_of(v: VarLayoutIr) -> Seq<char> {
    match v.name {
        Some(name) => name@,
        None => Seq::empty(),
    }
}

/// The outcome of one step of denormalization: `None` when the expansion goes
/// deeper than `fuel` allows, `Some(None)` when it succeeds, and
/// `Some(Some(e))` when it first meets the broken reference `e`.
pub type DenormOutcome = Option<Option<DenormError>>;

/// Runs `first`, then `second` unless `first` failed or ran out of depth.
pub open spec fn then_outcome(first: DenormOutcome, second: DenormOutcome) -> DenormOutcome {
    match first {
        Some(None) => second,
        _ => first,
    }
}

/// Outcome of expanding variable layout `id`.
pub open spec fn var_outcome(
    layout: LayoutIr,
    id: VarLayoutId,
    ctx: DenormContext,
    fuel: nat,
) -> DenormOutcome
    decreases fuel, 0nat,
{
    if fuel == 0 {
        None
    } else {
        match var_at(layout, id) {
            None => Some(Some(DenormError::MissingVarLayout(id))),
            Some(v) => type_outcome(layout, v.type_layout, ctx, (fuel - 1) as nat),
        }
    }
}

/// Outcome of expanding type layout `id`: its declaration, then its fields,
/// element, container and contained layouts, and sub-object ranges.
pub open spec fn type_outcome(
    layout: LayoutIr,
    id: TypeLayoutId,
    ctx: DenormContext,
    fuel: nat,
) -> DenormOutcome
    decreases fuel, 0nat,
{
    if fuel == 0 {
        None
    } else {
        let f = (fuel - 1) as nat;
        match type_at(layout, id) {
            None => Some(Some(DenormError::MissingTypeLayout(id))),
            Some(t) => match decl_at(layout, t.decl) {
                None => Some(Some(DenormError::MissingTypeDecl(t.decl))),
                Some(_) => {
                    let links = match ctx {
                        DenormContext::Full => then_outcome(
                            opt_var_outcome(
                                layout,
                                t.container,
                                DenormContext::SkipContainerLayouts,
                                f,
                            ),
                            opt_var_outcome(layout, t.contained, DenormContext::Full, f),
                        ),
                        DenormContext::SkipContainerLayouts => Some(None),
                    };
                    then_outcome(
                        fields_outcome(layout, t.fields@, f),
                        then_outcome(
                            opt_type_outcome(layout, t.element, f),
                            then_outcome(links, ranges_outcome(layout, t.sub_object_ranges@, f)),
                        ),
                    )
                },
            },
        }
    }
}

/// Outcome of expanding an optional type layout in full.
pub open spec fn opt_type_outcome(
    layout: LayoutIr,
    id: Option<TypeLayoutId>,
    fuel: nat,
) -> DenormOutcome
    decreases fuel, 1nat,
{
    match id {
        Some(t) => type_outcome(layout, t, DenormContext::Full, fuel),
        None => Some(None),
    }
}

/// Outcome of expanding an optional variable layout.
pub open spec fn opt_var_outcome(
    layout: LayoutIr,
    id: Option<VarLayoutId>,
    ctx: DenormContext,
    fuel: nat,
) -> DenormOutcome
    decreases fuel, 1nat,
{
    match id {
        Some(v) => var_outcome(layout, v, ctx, fuel),
        None => Some(None),
    }
}

/// Outcome of expanding the fields in order: reading each field's name, then
/// its variable layout.
pub open spec fn fields_outcome(layout: LayoutIr, fields: Seq<FieldIr>, fuel: nat) -> DenormOutcome
    decreases fuel, fields.len() + 2,
{
    if fields.len() == 0 {
        Some(None)
    } else {
        let head = match var_at(layout, fields[0].var) {
            None => Some(Some(DenormError::MissingVarLayout(fields[0].var))),
            Some(_) => var_outcome(layout, fields[0].var, DenormContext::Full, fuel),
        };
        then_outcome(head, fields_outcome(layout, fields.drop_first(), fuel))
    }
}

/// Outcome of expanding the leaf element layouts of sub-object ranges in order.
pub open spec fn ranges_outcome(
    layout: LayoutIr,
    ranges: Seq<SubObjectRangeIr>,
    fuel: nat,
) -> DenormOutcome
    decreases fuel, ranges.len() + 2,
{
    if ranges.len() == 0 {
        Some(None)
    } else {
        then_outcome(
            opt_type_outcome(layout, ranges[0].leaf_element_type_layout, fuel),
            ranges_outcome(layout, ranges.drop_first(), fuel),
        )
    }
}

/// The plain fields of a sub-object range are carried over.
pub open spec fn range_header_matches(r: SubObjectRangeIr, o: SubObjectRangeIrDenorm) -> bool {
    &&& o.binding_range_index == r.binding_range_index
    &&& o.binding_type == r.binding_type
    &&& o.space_offset == r.space_offset
}

/// `out` is the expansion of variable layout `id` in context `ctx`.
pub open spec fn var_denorm_matches(
    layout: LayoutIr,
    id: VarLayoutId,
    ctx: DenormContext,
    out: VarLayoutIrDenorm,
) -> bool
    decreases out,
{
    match var_at(layout, id) {
        None => false,
        Some(v) => {
            &&& out.name == v.name
            &&& out.offsets@ == v.offsets@
            &&& out.byte_offset_delta == v.byte_offset_delta
            &&& out.binding_range_offset_delta == v.binding_range_offset_delta
            &&& type_denorm_matches(layout, v.type_layout, ctx, *out.type_layout)
        },
    }
}

/// `out` is the expansion of type layout `id` in context `ctx`.
pub open spec fn type_denorm_matches(
    layout: LayoutIr,
    id: TypeLayoutId,
    ctx: DenormContext,
    out: TypeLayoutIrDenorm,
) -> bool
    decreases out,
{
    match type_at(layout, id) {
        None => false,
        Some(t) => match decl_at(layout, t.decl) {
            None => false,
            Some(d) => {
                &&& out.name == d.name
                &&& out.kind == d.kind
                &&& out.categories@ == t.categories@
                &&& out.size == t.size
                &&& out.alignment_bytes == t.alignment_bytes
                &&& out.stride == t.stride
                &&& out.stride_bytes == t.stride_bytes
                &&& out.matrix_layout_mode == t.matrix_layout_mode
                &&& out.binding_ranges@ == t.binding_ranges@
                &&& same_descriptor_sets(out.descriptor_sets@, t.descriptor_sets@)
                &&& out.element_count == t.element_count
                &&& out.fields@.len() == t.fields@.len()
                &&& forall|i: int|
                    0 <= i < t.fields@.len() ==> {
                        &&& var_at(layout, t.fields@[i].var) matches Some(v)
                            && (#[trigger] out.fields@[i]).name@ == field_name_of(v)
                        &&& var_denorm_matches(
                            layout,
                            t.fields@[i].var,
                            DenormContext::Full,
                            out.fields@[i].var,
                        )
                    }
                &&& match (t.element, out.element) {
                    (None, None) => true,
                    (Some(e), Some(b)) => type_denorm_matches(layout, e, DenormContext::Full, *b),
                    _ => false,
                }
                &&& out.sub_object_ranges@.len() == t.sub_object_ranges@.len()
                &&& forall|i: int|
                    0 <= i < t.sub_object_ranges@.len() ==> {
                        &&& range_header_matches(
                            t.sub_object_ranges@[i],
                            #[trigger] out.sub_object_ranges@[i],
                        )
                        &&& match (
                            t.sub_object_ranges@[i].leaf_element_type_layout,
                            out.sub_object_ranges@[i].leaf_element_type_layout,
                        ) {
                            (None, None) => true,
                            (Some(e), Some(b)) => type_denorm_matches(
                                layout,
                                e,
                                DenormContext::Full,
                                *b,
                            ),
                            _ => false,
                        }
                    }
                &&& match ctx {
                    DenormContext::Full => {
                        &&& match (t.container, out.container) {
                            (None, None) => true,
                            (Some(v), Some(b)) => var_denorm_matches(
                                layout,
                                v,
                                DenormContext::SkipContainerLayouts,
                                *b,
                            ),
                            _ => false,
                        }
                        &&& match (t.contained, out.contained) {
                            (None, None) => true,
                            (Some(v), Some(b)) => var_denorm_matches(
                                layout,
                                v,
                                DenormContext::Full,
                                *b,
                            ),
                            _ => false,
                        }
                    },
                    DenormContext::SkipContainerLayouts => {
                        &&& out.container is None
                        &&& out.contained is None
                    },
                }
            },
        },
    }
}

/// Outcome of expanding the entry points' parameters in order.
pub open spec fn entries_outcome(
    layout: LayoutIr,
    entries: Seq<EntryPointIr>,
    fuel: nat,
) -> DenormOutcome
    decreases entries.len(),
{
    if entries.len() == 0 {
        Some(None)
    } else {
        then_outcome(
            var_outcome(layout, entries[0].parameters.var_layout, DenormContext::Full, fuel),
            entries_outcome(layout, entries.drop_first(), fuel),
        )
    }
}

/// Outcome of expanding the global scope and then every entry point.
pub open spec fn layout_outcome(layout: LayoutIr, fuel: nat) -> DenormOutcome {
    then_outcome(
        var_outcome(layout, layout.global_scope.var_layout, DenormContext::Full, fuel),
        entries_outcome(layout, layout.entry_points@, fuel),
    )
}

/// The expansion of `layout` is finite: no chain of references loops back on
/// itself before reaching a broken reference.
pub open spec fn denormalizable(layout: LayoutIr) -> bool {
    exists|fuel: nat| #[trigger] layout_outcome(layout, fuel) is Some
}

/// The first broken reference that expanding `layout` meets, if any.
pub open spec fn denorm_failure(layout: LayoutIr) -> Option<DenormError> {
    match layout_outcome(layout, choose|fuel: nat| #[trigger] layout_outcome(layout, fuel) is Some) {
        Some(Some(e)) => Some(e),
        _ => None,
    }
}

/// `out` is the expansion of a whole layout.
pub open spec fn layout_denorm_matches(layout: LayoutIr, out: LayoutIrDenorm) -> bool {
    &&& var_denorm_matches(
        layout,
        layout.global_scope.var_layout,
        DenormContext::Full,
        out.global_scope.var_layout,
    )
    &&& out.entry_points@.len() == layout.entry_points@.len()
    &&& forall|i: int|
        0 <= i < layout.entry_points@.len() ==> {
            &&& (#[trigger] out.entry_points@[i]).name == layout.entry_points@[i].name
            &&& out.entry_points@[i].stage == layout.entry_points@[i].stage
            &&& var_denorm_matches(
                layout,
                layout.entry_points@[i].parameters.var_layout,
                DenormContext::Full,
                out.entry_points@[i].parameters.var_layout,
            )
        }
}

/// Replaces every reference of `layout` by a copy of what it refers to.
/// Fails with the first reference that points past the end of its table,
/// in the order the expansion visits them.
pub fn denormalize_layout_ir(layout: &LayoutIr) -> (r: Result<LayoutIrDenorm, DenormError>)
    requires
        denormalizable(*layout),
    ensures
        match r {
            Ok(out) => denorm_failure(*layout) is None && layout_denorm_matches(*layout, out),
            Err(e) => denorm_failure(*layout) == Some(e),
        },
{
    let ghost fuel = choose|fuel: nat| #[trigger] layout_outcome(*layout, fuel) is Some;
    let global = match denorm_var_layout(
        layout,
        layout.global_scope.var_layout,
        DenormContext::Full,
        Ghost(fuel),
    ) {
        Err(e) => return Err(e),
        Ok(var_layout) => ScopeIrDenorm { var_layout },
    };
    let entries = &layout.entry_points;
    let mut out: Vec<EntryPointIrDenorm> = Vec::with_capacity(entries.len());
    let mut i: usize = 0;
    proof {
        assert(entries@.skip(0) =~= entries@);
    }
    while i < entries.len()
        invariant
            i <= entries@.len(),
            entries == &layout.entry_points,
            out@.len() == i,
            layout_outcome(*layout, fuel) is Some,
            fuel == choose|fuel: nat| #[trigger] layout_outcome(*layout, fuel) is Some,
            var_outcome(*layout, layout.global_scope.var_layout, DenormContext::Full, fuel)
                == Some(None::<DenormError>),
            entries_outcome(*layout, entries@, fuel) == entries_outcome(
                *layout,
                entries@.skip(i as int),
                fuel,
            ),
            forall|k: int|
                0 <= k < i ==> {
                    &&& (#[trigger] out@[k]).name == entries@[k].name
                    &&& out@[k].stage == entries@[k].stage
                    &&& var_denorm_matches(
                        *layout,
                        entries@[k].parameters.var_layout,
                        DenormContext::Full,
                        out@[k].parameters.var_layout,
                    )
                },
        decreases entries.len() - i,
    {
        proof {
            let rest = entries@.skip(i as int);
            assert(rest[0] == entries@[i as int]);
            assert(rest.drop_first() =~= entries@.skip(i as int + 1));
        }
        let entry = &entries[i];
        let parameters = match denorm_var_layout(
            layout,
            entry.parameters.var_layout,
            DenormContext::Full,
            Ghost(fuel),
        ) {
            Err(e) => return Err(e),
            Ok(var_layout) => ScopeIrDenorm { var_layout },
        };
        out.push(
            EntryPointIrDenorm {
                name: entry.name.clone(),
                stage: entry.stage.deep_copy(),
                parameters,
            },
        );
        i = i + 1;
    }
    proof {
        assert(entries@.skip(i as int) =~= Seq::<EntryPointIr>::empty());
    }
    Ok(LayoutIrDenorm { global_scope: global, entry_points: out })
}

fn denorm_var_layout(
    layout: &LayoutIr,
    id: VarLayoutId,
    ctx: DenormContext,
    Ghost(fuel): Ghost<nat>,
) -> (r: Result<VarLayoutIrDenorm, DenormError>)
    requires
        var_outcome(*layout, id, ctx, fuel) is Some,
    ensures
        match r {
            Ok(out) => var_outcome(*layout, id, ctx, fuel) == Some(None::<DenormError>)
                && var_denorm_matches(*layout, id, ctx, out),
            Err(e) => var_outcome(*layout, id, ctx, fuel) == Some(Some(e)),
        },
    decreases fuel, 0nat,
{
    let index = id.0 as usize;
    if index >= layout.vars.len() {
        return Err(DenormError::MissingVarLayout(id));
    }
    let v = &layout.vars[index];
    match denorm_type_layout(layout, v.type_layout, ctx, Ghost((fuel - 1) as nat)) {
        Err(e) => Err(e),
        Ok(type_layout) => Ok(
            VarLayoutIrDenorm {
                name: copy_opt_string(&v.name),
                offsets: copy_vec(&v.offsets),
                byte_offset_delta: v.byte_offset_delta,
                binding_range_offset_delta: v.binding_range_offset_delta,
                type_layout: Box::new(type_layout),
            },
        ),
    }
}

fn copy_opt_enum_value(v: &Option<SlangEnumValue>) -> (r: Option<SlangEnumValue>)
    ensures
        r == *v,
{
    match v {
        Some(value) => Some(value.deep_copy()),
        None => None,
    }
}

fn denorm_type_layout(
    layout: &LayoutIr,
    id: TypeLayoutId,
    ctx: DenormContext,
    Ghost(fuel): Ghost<nat>,
) -> (r: Result<TypeLayoutIrDenorm, DenormError>)
    requires
        type_outcome(*layout, id, ctx, fuel) is Some,
    ensures
        match r {
            Ok(out) => type_outcome(*layout, id, ctx, fuel) == Some(None::<DenormError>)
                && type_denorm_matches(*layout, id, ctx, out),
            Err(e) => type_outcome(*layout, id, ctx, fuel) == Some(Some(e)),
        },
    decreases fuel, 0nat,
{
    let ghost f = (fuel - 1) as nat;
    let index = id.0 as usize;
    if index >= layout.types.len() {
        return Err(DenormError::MissingTypeLayout(id));
    }
    let t = &layout.types[index];
    let decl_index = t.decl.0 as usize;
    if decl_index >= layout.type_decls.len() {
        return Err(DenormError::MissingTypeDecl(t.decl));
    }
    let decl = &layout.type_decls[decl_index];
    let fields = match denorm_fields(layout, &t.fields, Ghost(f)) {
        Err(e) => return Err(e),
        Ok(fields) => fields,
    };
    let element = match t.element {
        None => None,
        Some(element_id) => match denorm_type_layout(
            layout,
            element_id,
            DenormContext::Full,
            Ghost(f),
        ) {
            Err(e) => return Err(e),
            Ok(element) => Some(Box::new(element)),
        },
    };
    let (container, contained) = match ctx {
        DenormContext::Full => {
            let container = match t.container {
                None => None,
                Some(var_id) => match denorm_var_layout(
                    layout,
                    var_id,
                    DenormContext::SkipContainerLayouts,
                    Ghost(f),
                ) {
                    Err(e) => return Err(e),
                    Ok(var) => Some(Box::new(var)),
                },
            };
            let contained = match t.contained {
                None => None,
                Some(var_id) => match denorm_var_layout(
                    layout,
                    var_id,
                    DenormContext::Full,
                    Ghost(f),
                ) {
                    Err(e) => return Err(e),
                    Ok(var) => Some(Box::new(var)),
                },
            };
            (container, contained)
        },
        DenormContext::SkipContainerLayouts => (None, None),
    };
    let sub_object_ranges = match denorm_ranges(layout, &t.sub_object_ranges, Ghost(f)) {
        Err(e) => return Err(e),
        Ok(ranges) => ranges,
    };
    Ok(
        TypeLayoutIrDenorm {
            name: copy_opt_string(&decl.name),
            kind: decl.kind.deep_copy(),
            categories: copy_vec(&t.categories),
            size: t.size,
            alignment_bytes: t.alignment_bytes,
            stride: t.stride,
            stride_bytes: t.stride_bytes,
            matrix_layout_mode: copy_opt_enum_value(&t.matrix_layout_mode),
            binding_ranges: copy_vec(&t.binding_ranges),
            descriptor_sets: copy_descriptor_sets(&t.descriptor_sets),
            sub_object_ranges,
            fields,
            element,
            element_count: t.element_count,
            container,
            contained,
        },
    )
}

fn denorm_fields(layout: &LayoutIr, fields: &Vec<FieldIr>, Ghost(fuel): Ghost<nat>) -> (r: Result<
    Vec<FieldIrDenorm>,
    DenormError,
>)
    requires
        fields_outcome(*layout, fields@, fuel) is Some,
    ensures
        match r {
            Ok(out) => {
                &&& fields_outcome(*layout, fields@, fuel) == Some(None::<DenormError>)
                &&& out@.len() == fields@.len()
                &&& forall|i: int|
                    0 <= i < fields@.len() ==> {
                        &&& var_at(*layout, fields@[i].var) matches Some(v)
                            && (#[trigger] out@[i]).name@ == field_name_of(v)
                        &&& var_denorm_matches(
                            *layout,
                            fields@[i].var,
                            DenormContext::Full,
                            out@[i].var,
                        )
                    }
            },
            Err(e) => fields_outcome(*layout, fields@, fuel) == Some(Some(e)),
        },
    decreases fuel, 1nat,
{
    let mut out: Vec<FieldIrDenorm> = Vec::with_capacity(fields.len());
    let mut i: usize = 0;
    proof {
        assert(fields@.skip(0) =~= fields@);
    }
    while i < fields.len()
        invariant
            i <= fields@.len(),
            out@.len() == i,
            fields_outcome(*layout, fields@, fuel) is Some,
            fields_outcome(*layout, fields@, fuel) == fields_outcome(
                *layout,
                fields@.skip(i as int),
                fuel,
            ),
            forall|k: int|
                0 <= k < i ==> {
                    &&& var_at(*layout, fields@[k].var) matches Some(v)
                        && (#[trigger] out@[k]).name@ == field_name_of(v)
                    &&& var_denorm_matches(
                        *layout,
                        fields@[k].var,
                        DenormContext::Full,
                        out@[k].var,
                    )
                },
        decreases fields.len() - i,
    {
        proof {
            let rest = fields@.skip(i as int);
            assert(rest[0] == fields@[i as int]);
            assert(rest.drop_first() =~= fields@.skip(i as int + 1));
        }
        let var_id = fields[i].var;
        let index = var_id.0 as usize;
        if index >= layout.vars.len() {
            return Err(DenormError::MissingVarLayout(var_id));
        }
        let name = match &layout.vars[index].name {
            Some(name) => name.clone(),
            None => String::new(),
        };
        match denorm_var_layout(layout, var_id, DenormContext::Full, Ghost(fuel)) {
            Err(e) => return Err(e),
            Ok(var) => {
                out.push(FieldIrDenorm { name, var });
            },
        }
        i = i + 1;
    }
    proof {
        assert(fields@.skip(i as int) =~= Seq::<FieldIr>::empty());
    }
    Ok(out)
}

fn denorm_ranges(
    layout: &LayoutIr,
    ranges: &Vec<SubObjectRangeIr>,
    Ghost(fuel): Ghost<nat>,
) -> (r: Result<Vec<SubObjectRangeIrDenorm>, DenormError>)
    requires
        ranges_outcome(*layout, ranges@, fuel) is Some,
    ensures
        match r {
            Ok(out) => {
                &&& ranges_outcome(*layout, ranges@, fuel) == Some(None::<DenormError>)
                &&& out@.len() == ranges@.len()
                &&& forall|i: int|
                    0 <= i < ranges@.len() ==> {
                        &&& range_header_matches(ranges@[i], #[trigger] out@[i])
                        &&& match (
                            ranges@[i].leaf_element_type_layout,
                            out@[i].leaf_element_type_layout,
                        ) {
                            (None, None) => true,
                            (Some(e), Some(b)) => type_denorm_matches(
                                *layout,
                                e,
                                DenormContext::Full,
                                *b,
                            ),
                            _ => false,
                        }
                    }
            },
            Err(e) => ranges_outcome(*layout, ranges@, fuel) == Some(Some(e)),
        },
    decreases fuel, 1nat,
{
    let mut out: Vec<SubObjectRangeIrDenorm> = Vec::with_capacity(ranges.len());
    let mut i: usize = 0;
    proof {
        assert(ranges@.skip(0) =~= ranges@);
    }
    while i < ranges.len()
        invariant
            i <= ranges@.len(),
            out@.len() == i,
            ranges_outcome(*layout, ranges@, fuel) is Some,
            ranges_outcome(*layout, ranges@, fuel) == ranges_outcome(
                *layout,
                ranges@.skip(i as int),
                fuel,
            ),
            forall|k: int|
                0 <= k < i ==> {
                    &&& range_header_matches(ranges@[k], #[trigger] out@[k])
                    &&& match (
                        ranges@[k].leaf_element_type_layout,
                        out@[k].leaf_element_type_layout,
                    ) {
                        (None, None) => true,
                        (Some(e), Some(b)) => type_denorm_matches(
                            *layout,
                            e,
                            DenormContext::Full,
                            *b,
                        ),
                        _ => false,
                    }
                },
        decreases ranges.len() - i,
    {
        proof {
            let rest = ranges@.skip(i as int);
            assert(rest[0] == ranges@[i as int]);
            assert(rest.drop_first() =~= ranges@.skip(i as int + 1));
            assert(ranges_outcome(*layout, rest, fuel) == then_outcome(
                opt_type_outcome(*layout, rest[0].leaf_element_type_layout, fuel),
                ranges_outcome(*layout, rest.drop_first(), fuel),
            ));
        }
        let range = ranges[i];
        let leaf = match range.leaf_element_type_layout {
            None => None,
            Some(leaf_id) => match denorm_type_layout(
                layout,
                leaf_id,
                DenormContext::Full,
                Ghost(fuel),
            ) {
                Err(e) => return Err(e),
                Ok(leaf) => Some(Box::new(leaf)),
            },
        };
        out.push(
            SubObjectRangeIrDenorm {
                binding_range_index: range.binding_range_index,
                binding_type: range.binding_type,
                space_offset: range.space_offset,
                leaf_element_type_layout: leaf,
            },
        );
        i = i + 1;
    }
    proof {
        assert(ranges@.skip(i as int) =~= Seq::<SubObjectRangeIr>::empty());
    }
    Ok(out)
}

} // verus!
