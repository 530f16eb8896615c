//! A shader layout flattened into an arena of nodes, and views that walk it
//! by field name and array index while accumulating offsets.

use std::sync::Arc;
use vstd::prelude::*;
use crate::slang::compiler::SlangShaderStage;
use crate::arc::share;
use crate::text::str_eq;
use crate::slang::layout::{
    same_block_layout, ElementCount, LayoutSize, ParameterBlockLayout, ShaderLayout, Type,
    TypeLayout, VarLayout, VaryingLayout,
};

verus! {

/// The index of a node in `CursorLayout::nodes`.
#[derive(Clone, Copy, Debug, PartialEq, Eq, Hash, Structural)]
pub struct NodeId(pub usize);

/// An offset in every unit a shader parameter can be placed in.
#[derive(Clone, Copy, Debug, Default, PartialEq, Eq, Structural)]
pub struct ShaderOffset {
    pub bytes: usize,
    pub set: usize,
    pub binding_range: i64,
    pub array_index: usize,
    pub varying_input: usize,
}

/// Where a tree starts: its root node and the offset of the root variable.
#[derive(Debug, Clone, Copy, PartialEq, Eq, Structural)]
pub struct Root {
    pub node: NodeId,
    pub base: ShaderOffset,
}

/// The root of an entry point's parameters.
#[derive(Debug)]
pub struct EntrypointRoot {
    pub name: String,
    pub stage: SlangShaderStage,
    pub root: Root,
}

/// A field of a struct node: its name, its offsets and its node.
#[derive(Debug)]
pub struct FieldEdge {
    pub name: String,
    pub offset_bytes: usize,
    pub offset_set: usize,
    pub offset_binding_range: i64,
    pub offset_varying_input: usize,
    pub child: NodeId,
}

/// What a node is.
#[derive(Debug)]
pub enum NodeKind {
    Struct { fields: Vec<FieldEdge> },
    Array {
        count: ElementCount,
        stride_bytes: usize,
        stride_binding_range: i64,
        stride_varying_input: usize,
        element: NodeId,
    },
    ParameterBlock { descriptor_set: ParameterBlockLayout, element: NodeId },
    Resource { element: Option<NodeId> },
    ConstantBuffer { element: NodeId },
    /// Numbers, pointers and everything else that holds no nodes.
    ScalarLike,
}

/// A node of the arena.
#[derive(Debug)]
pub struct Node {
    pub kind: NodeKind,
}

/// A layout as an arena of nodes, with the roots of the globals and of each
/// entry point's parameters.
#[derive(Debug)]
pub struct CursorLayout {
    pub nodes: Vec<Node>,
    pub global: Option<Root>,
    pub entrypoints: Vec<EntrypointRoot>,
}

/// Why a layout cannot be flattened.
#[derive(Debug, Clone, PartialEq, Eq)]
pub enum CursorLayoutError {
    /// The layout holds a type that reflection could not classify: its kind
    /// and name.
    UnknownType(String, String),
}

/// The varying-input offset a variable adds: its varying's input offset, or 0.
pub open spec fn varying_offset(v: Option<VaryingLayout>) -> usize {
    match v {
        Some(varying) => varying.offset_input,
        None => 0,
    }
}

/// The varying-input stride of an array: its element's varying-input size, or 0.
pub open spec fn varying_stride(size: Option<LayoutSize>) -> usize {
    match size {
        Some(s) => match s.varying_input {
            Some(v) => v,
            None => 0,
        },
        None => 0,
    }
}

/// A variable's name, or the empty name.
pub open spec fn name_or_empty(name: Option<String>) -> Seq<char> {
    match name {
        Some(n) => n@,
        None => Seq::empty(),
    }
}

/// The offset of a root variable.
pub open spec fn var_base(var: VarLayout) -> ShaderOffset {
    ShaderOffset {
        bytes: var.offset_bytes,
        set: var.offset_set,
        binding_range: var.offset_binding_range,
        array_index: 0,
        varying_input: varying_offset(var.varying),
    }
}

/// The kind and name of the first unclassified type met in a depth-first,
/// left-to-right walk of `ty`, if any. Pointers and push constant buffers
/// are not walked into.
pub open spec fn first_unknown(ty: TypeLayout) -> Option<(Seq<char>, Seq<char>)>
    decreases ty,
{
    match ty.ty {
        Type::Unknown(k, n) => Some((k@, n@)),
        Type::Struct(s) => first_unknown_in_fields(s.fields@),
        Type::Array(a) => first_unknown(*a.element),
        Type::ParameterBlock(pb) => first_unknown(*pb.element),
        Type::ConstantBuffer(inner) => first_unknown(*inner),
        Type::Resource(r) => match r.element {
            Some(e) => first_unknown(*e),
            None => None,
        },
        _ => None,
    }
}

/// The first unclassified type met in the fields, in order.
pub open spec fn first_unknown_in_fields(fields: Seq<VarLayout>) -> Option<(Seq<char>, Seq<char>)>
    decreases fields,
{
    if fields.len() == 0 {
        None
    } else {
        match first_unknown(fields[0].value) {
            Some(found) => Some(found),
            None => first_unknown_in_fields(fields.drop_first()),
        }
    }
}

/// Every node id stored in `node` is at least `lo` and below `hi`.
pub open spec fn child_ids_in(node: Node, lo: int, hi: int) -> bool {
    match node.kind {
        NodeKind::Struct { fields } => forall|i: int|
            0 <= i < fields@.len() ==> lo <= (#[trigger] fields@[i]).child.0 < hi,
        NodeKind::Array { element, .. } => lo <= element.0 < hi,
        NodeKind::ParameterBlock { element, .. } => lo <= element.0 < hi,
        NodeKind::Resource { element } => match element {
            Some(e) => lo <= e.0 < hi,
            None => true,
        },
        NodeKind::ConstantBuffer { element } => lo <= element.0 < hi,
        NodeKind::ScalarLike => true,
    }
}

/// The nodes from `lo` on refer only to nodes from `lo` on, each to nodes
/// before itself.
pub open spec fn new_nodes_closed(nodes: Seq<Node>, lo: int) -> bool {
    forall|k: int| lo <= k < nodes.len() ==> child_ids_in(#[trigger] nodes[k], lo, k)
}

/// A node whose children are at least `lo2` has them at least any `lo1`
/// below it.
proof fn lemma_child_ids_lower(node: Node, lo1: int, lo2: int, hi: int)
    requires
        lo1 <= lo2,
        child_ids_in(node, lo2, hi),
    ensures
        child_ids_in(node, lo1, hi),
{
}

/// Node `id` of `nodes` and the nodes below it represent `ty`: same shape,
/// same counts, strides, offsets and names, children placed before parents.
pub open spec fn node_matches(nodes: Seq<Node>, id: int, ty: TypeLayout) -> bool
    decreases ty,
{
    &&& 0 <= id < nodes.len()
    &&& match ty.ty {
        Type::Struct(s) => match nodes[id].kind {
            NodeKind::Struct { fields } => {
                &&& fields@.len() == s.fields@.len()
                &&& forall|i: int|
                    0 <= i < s.fields@.len() ==> {
                        &&& (#[trigger] fields@[i]).name@ == name_or_empty(s.fields@[i].name)
                        &&& fields@[i].offset_bytes == s.fields@[i].offset_bytes
                        &&& fields@[i].offset_set == s.fields@[i].offset_set
                        &&& fields@[i].offset_binding_range == s.fields@[i].offset_binding_range
                        &&& fields@[i].offset_varying_input == varying_offset(
                            s.fields@[i].varying,
                        )
                        &&& fields@[i].child.0 < id
                        &&& node_matches(nodes, fields@[i].child.0 as int, s.fields@[i].value)
                    }
            },
            _ => false,
        },
        Type::Array(a) => match nodes[id].kind {
            NodeKind::Array {
                count,
                stride_bytes,
                stride_binding_range,
                stride_varying_input,
                element,
            } => {
                &&& count == a.count
                &&& stride_bytes == ty.stride.bytes
                &&& stride_binding_range == ty.stride.binding_range
                &&& stride_varying_input == varying_stride(a.element.size)
                &&& element.0 < id
                &&& node_matches(nodes, element.0 as int, *a.element)
            },
            _ => false,
        },
        Type::ParameterBlock(pb) => match nodes[id].kind {
            NodeKind::ParameterBlock { descriptor_set, element } => {
                &&& same_block_layout(descriptor_set, pb.layout)
                &&& element.0 < id
                &&& node_matches(nodes, element.0 as int, *pb.element)
            },
            _ => false,
        },
        Type::ConstantBuffer(inner) => match nodes[id].kind {
            NodeKind::ConstantBuffer { element } => {
                &&& element.0 < id
                &&& node_matches(nodes, element.0 as int, *inner)
            },
            _ => false,
        },
        Type::Resource(r) => match nodes[id].kind {
            NodeKind::Resource { element } => match (r.element, element) {
                (None, None) => true,
                (Some(e), Some(n)) => n.0 < id && node_matches(nodes, n.0 as int, *e),
                _ => false,
            },
            _ => false,
        },
        Type::Unknown(_, _) => false,
        _ => nodes[id].kind is ScalarLike,
    }
}

/// What `node_matches` says of a node still holds once more nodes are
/// appended after it.
pub proof fn lemma_node_matches_extend(nodes: Seq<Node>, more: Seq<Node>, id: int, ty: TypeLayout)
    requires
        node_matches(nodes, id, ty),
        more.subrange(0, nodes.len() as int) == nodes,
        nodes.len() <= more.len(),
    ensures
        node_matches(more, id, ty),
    decreases ty,
{
    assert(more[id] == nodes[id]);
    match ty.ty {
        Type::Struct(s) => {
            if let NodeKind::Struct { fields } = nodes[id].kind {
                assert forall|i: int| 0 <= i < s.fields@.len() implies node_matches(
                    more,
                    (#[trigger] fields@[i]).child.0 as int,
                    s.fields@[i].value,
                ) by {
                    assert(decreases_to!(ty => ty.ty));
                    lemma_node_matches_extend(
                        nodes,
                        more,
                        fields@[i].child.0 as int,
                        s.fields@[i].value,
                    );
                }
            }
        },
        Type::Array(a) => {
            if let NodeKind::Array { element, .. } = nodes[id].kind {
                lemma_node_matches_extend(nodes, more, element.0 as int, *a.element);
            }
        },
        Type::ParameterBlock(pb) => {
            if let NodeKind::ParameterBlock { element, .. } = nodes[id].kind {
                lemma_node_matches_extend(nodes, more, element.0 as int, *pb.element);
            }
        },
        Type::ConstantBuffer(inner) => {
            if let NodeKind::ConstantBuffer { element } = nodes[id].kind {
                lemma_node_matches_extend(nodes, more, element.0 as int, *inner);
            }
        },
        Type::Resource(r) => {
            if let NodeKind::Resource { element } = nodes[id].kind {
                if let (Some(e), Some(n)) = (r.element, element) {
                    lemma_node_matches_extend(nodes, more, n.0 as int, *e);
                }
            }
        },
        _ => {},
    }
}

/// The entry points that have parameters, in order.
pub open spec fn with_params(eps: Seq<crate::slang::layout::EntrypointLayout>) -> Seq<
    crate::slang::layout::EntrypointLayout,
>
    decreases eps.len(),
{
    if eps.len() == 0 {
        Seq::empty()
    } else {
        let rest = with_params(eps.drop_last());
        if eps.last().params is Some {
            rest.push(eps.last())
        } else {
            rest
        }
    }
}

/// The first unclassified type among the entry points' parameters, in order.
pub open spec fn entrypoints_first_unknown(eps: Seq<crate::slang::layout::EntrypointLayout>) -> Option<
    (Seq<char>, Seq<char>),
>
    decreases eps.len(),
{
    if eps.len() == 0 {
        None
    } else {
        let here = match eps[0].params {
            Some(p) => first_unknown(p.value),
            None => None,
        };
        match here {
            Some(found) => Some(found),
            None => entrypoints_first_unknown(eps.drop_first()),
        }
    }
}

/// The first unclassified type of a layout: in the globals, then in the
/// entry points' parameters.
pub open spec fn layout_first_unknown(layout: ShaderLayout) -> Option<(Seq<char>, Seq<char>)> {
    let here = match layout.globals {
        Some(g) => first_unknown(g.value),
        None => None,
    };
    match here {
        Some(found) => Some(found),
        None => entrypoints_first_unknown(layout.entrypoints@),
    }
}

/// `root` is the root of variable `var` in `nodes`.
pub open spec fn root_matches(nodes: Seq<Node>, root: Root, var: VarLayout) -> bool {
    &&& root.base == var_base(var)
    &&& node_matches(nodes, root.node.0 as int, var.value)
}

/// `cl` is the flattening of `layout`: the roots of its globals and of the
/// entry points that have parameters, in order.
pub open spec fn cursor_layout_matches(cl: CursorLayout, layout: ShaderLayout) -> bool {
    &&& match (layout.globals, cl.global) {
        (None, None) => true,
        (Some(g), Some(root)) => root_matches(cl.nodes@, root, *g),
        _ => false,
    }
    &&& cl.entrypoints@.len() == with_params(layout.entrypoints@).len()
    &&& forall|i: int|
        0 <= i < cl.entrypoints@.len() ==> {
            let ep = with_params(layout.entrypoints@)[i];
            &&& (#[trigger] cl.entrypoints@[i]).name@ == ep.name@
            &&& cl.entrypoints@[i].stage == ep.stage
            &&& root_matches(cl.nodes@, cl.entrypoints@[i].root, *ep.params.unwrap())
        }
}


/// Flattens layout trees into a node arena, children before parents.
pub struct LayoutIndexer {
    nodes: Vec<Node>,
}

impl LayoutIndexer {
    /// Flattens `layout`: the globals first, then each entry point that has
    /// parameters, in order.
    fn build(layout: &ShaderLayout) -> (r: Result<CursorLayout, CursorLayoutError>)
        ensures
            match r {
                Ok(cl) => layout_first_unknown(*layout) is None && cursor_layout_matches(
                    cl,
                    *layout,
                ),
                Err(CursorLayoutError::UnknownType(k, n)) => layout_first_unknown(*layout)
                    == Some((k@, n@)),
            },
    {
        let mut b = LayoutIndexer { nodes: Vec::new() };
        let global = match &layout.globals {
            None => None,
            Some(g) => match b.root_from_var(g) {
                Err(e) => return Err(e),
                Ok(root) => Some(root),
            },
        };
        let eps = &layout.entrypoints;
        let mut entrypoints: Vec<EntrypointRoot> = Vec::with_capacity(eps.len());
        let mut i: usize = 0;
        proof {
            assert(eps@.skip(0) =~= eps@);
            assert(eps@.take(0) =~= Seq::<crate::slang::layout::EntrypointLayout>::empty());
        }
        while i < eps.len()
            invariant
                eps == &layout.entrypoints,
                i <= eps@.len(),
                layout_first_unknown(*layout) == entrypoints_first_unknown(eps@.skip(i as int)),
                match (layout.globals, global) {
                    (None, None) => true,
                    (Some(g), Some(root)) => root_matches(b.nodes@, root, *g),
                    _ => false,
                },
                entrypoints@.len() == with_params(eps@.take(i as int)).len(),
                forall|k: int|
                    0 <= k < entrypoints@.len() ==> {
                        let ep = with_params(eps@.take(i as int))[k];
                        &&& (#[trigger] entrypoints@[k]).name@ == ep.name@
                        &&& entrypoints@[k].stage == ep.stage
                        &&& root_matches(b.nodes@, entrypoints@[k].root, *ep.params.unwrap())
                    },
            decreases eps.len() - i,
        {
            let ep = &eps[i];
            proof {
                let rest = eps@.skip(i as int);
                assert(rest[0] == eps@[i as int]);
                assert(rest.drop_first() =~= eps@.skip(i as int + 1));
                assert(eps@.take(i as int + 1).drop_last() =~= eps@.take(i as int));
                assert(eps@.take(i as int + 1).last() == eps@[i as int]);
            }
            let ghost before = b.nodes@;
            match &ep.params {
                None => {},
                Some(params) => {
                    let root = match b.root_from_var(params) {
                        Err(e) => return Err(e),
                        Ok(root) => root,
                    };
                    proof {
                        if let (Some(g), Some(groot)) = (&layout.globals, global) {
                            lemma_node_matches_extend(before, b.nodes@, groot.node.0 as int, g.value);
                        }
                        assert forall|k: int| 0 <= k < entrypoints@.len() implies root_matches(
                            b.nodes@,
                            (#[trigger] entrypoints@[k]).root,
                            *with_params(eps@.take(i as int))[k].params.unwrap(),
                        ) by {
                            lemma_node_matches_extend(
                                before,
                                b.nodes@,
                                entrypoints@[k].root.node.0 as int,
                                with_params(eps@.take(i as int))[k].params.unwrap().value,
                            );
                        }
                    }
                    entrypoints.push(EntrypointRoot { name: ep.name.clone(), stage: ep.stage, root });
                },
            }
            i = i + 1;
        }
        proof {
            assert(eps@.take(i as int) =~= eps@);
        }
        Ok(CursorLayout { nodes: b.nodes, global, entrypoints })
    }

    /// Appends the nodes of a variable's type and gives its root.
    fn root_from_var(&mut self, var: &VarLayout) -> (r: Result<Root, CursorLayoutError>)
        ensures
            old(self).nodes@.len() <= final(self).nodes@.len(),
            final(self).nodes@.subrange(0, old(self).nodes@.len() as int) == old(self).nodes@,
            match r {
                Ok(root) => first_unknown(var.value) is None && root_matches(
                    final(self).nodes@,
                    root,
                    *var,
                ),
                Err(CursorLayoutError::UnknownType(k, n)) => first_unknown(var.value) == Some(
                    (k@, n@),
                ),
            },
    {
        let node = match self.intern_type(&var.value) {
            Err(e) => return Err(e),
            Ok(node) => node,
        };
        let varying_input = match &var.varying {
            Some(varying) => varying.offset_input,
            None => 0,
        };
        Ok(
            Root {
                node,
                base: ShaderOffset {
                    bytes: var.offset_bytes,
                    set: var.offset_set,
                    binding_range: var.offset_binding_range,
                    array_index: 0,
                    varying_input,
                },
            },
        )
    }

    /// Appends the nodes of `ty` and returns the id of its root, which is
    /// the last node appended.
    fn intern_type(&mut self, ty: &TypeLayout) -> (r: Result<NodeId, CursorLayoutError>)
        ensures
            old(self).nodes@.len() <= final(self).nodes@.len(),
            r is Ok ==> new_nodes_closed(final(self).nodes@, old(self).nodes@.len() as int),
            r matches Ok(id) ==> old(self).nodes@.len() <= id.0,
            final(self).nodes@.subrange(0, old(self).nodes@.len() as int) == old(self).nodes@,
            match r {
                Ok(id) => {
                    &&& first_unknown(*ty) is None
                    &&& id.0 + 1 == final(self).nodes@.len()
                    &&& node_matches(final(self).nodes@, id.0 as int, *ty)
                },
                Err(CursorLayoutError::UnknownType(k, n)) => first_unknown(*ty) == Some(
                    (k@, n@),
                ),
            },
        decreases ty,
    {
        let ghost start = self.nodes@;
        let kind = match &ty.ty {
            Type::Struct(s) => {
                let mut fields: Vec<FieldEdge> = Vec::with_capacity(s.fields.len());
                let mut i: usize = 0;
                proof {
                    assert(s.fields@.skip(0) =~= s.fields@);
                }
                while i < s.fields.len()
                    invariant
                        ty.ty == Type::Struct(*s),
                        start == old(self).nodes@,
                        i <= s.fields@.len(),
                        fields@.len() == i,
                        start.len() <= self.nodes@.len(),
                        self.nodes@.subrange(0, start.len() as int) == start,
                        new_nodes_closed(self.nodes@, start.len() as int),
                        forall|k: int| 0 <= k < i ==> start.len() <= (#[trigger] fields@[k]).child.0,
                        first_unknown_in_fields(s.fields@) == first_unknown_in_fields(
                            s.fields@.skip(i as int),
                        ),
                        forall|k: int|
                            0 <= k < i ==> {
                                &&& (#[trigger] fields@[k]).name@ == name_or_empty(
                                    s.fields@[k].name,
                                )
                                &&& fields@[k].offset_bytes == s.fields@[k].offset_bytes
                                &&& fields@[k].offset_set == s.fields@[k].offset_set
                                &&& fields@[k].offset_binding_range
                                    == s.fields@[k].offset_binding_range
                                &&& fields@[k].offset_varying_input == varying_offset(
                                    s.fields@[k].varying,
                                )
                                &&& fields@[k].child.0 < self.nodes@.len()
                                &&& node_matches(
                                    self.nodes@,
                                    fields@[k].child.0 as int,
                                    s.fields@[k].value,
                                )
                            },
                    decreases s.fields.len() - i,
                {
                    let f = &s.fields[i];
                    proof {
                        let rest = s.fields@.skip(i as int);
                        assert(rest[0] == s.fields@[i as int]);
                        assert(rest.drop_first() =~= s.fields@.skip(i as int + 1));
                        assert(decreases_to!(*ty => ty.ty));
                        assert(decreases_to!(ty.ty => (ty.ty)->Struct_0));
                        assert(decreases_to!((ty.ty)->Struct_0 => s.fields));
                        assert(decreases_to!(s.fields => s.fields@));
                        assert(decreases_to!(s.fields@ => s.fields@[i as int]));
                        assert(decreases_to!(s.fields@[i as int] => s.fields@[i as int].value));
                    }
                    let ghost before = self.nodes@;
                    let interned = self.intern_type(&f.value);
                    proof {
                        assert(self.nodes@.subrange(0, start.len() as int) =~= start) by {
                            assert(self.nodes@.subrange(0, before.len() as int) == before);
                            assert forall|j: int| 0 <= j < start.len() implies self.nodes@[j]
                                == start[j] by {
                                assert(self.nodes@.subrange(0, before.len() as int)[j]
                                    == self.nodes@[j]);
                                assert(before.subrange(0, start.len() as int)[j] == before[j]);
                            }
                        }
                    }
                    let child = match interned {
                        Err(e) => return Err(e),
                        Ok(child) => child,
                    };
                    proof {
                        assert forall|k: int| start.len() <= k < self.nodes@.len() implies child_ids_in(
                            #[trigger] self.nodes@[k],
                            start.len() as int,
                            k,
                        ) by {
                            if k < before.len() {
                                assert(self.nodes@.subrange(0, before.len() as int)[k] == self.nodes@[k]);
                                assert(child_ids_in(before[k], start.len() as int, k));
                            } else {
                                assert(child_ids_in(self.nodes@[k], before.len() as int, k));
                                lemma_child_ids_lower(self.nodes@[k], start.len() as int, before.len() as int, k);
                            }
                        }
                    }
                    proof {
                        assert forall|k: int| 0 <= k < i implies node_matches(
                            self.nodes@,
                            (#[trigger] fields@[k]).child.0 as int,
                            s.fields@[k].value,
                        ) by {
                            lemma_node_matches_extend(
                                before,
                                self.nodes@,
                                fields@[k].child.0 as int,
                                s.fields@[k].value,
                            );
                        }
                    }
                    let name = match &f.name {
                        Some(name) => name.clone(),
                        None => String::new(),
                    };
                    let offset_varying_input = match &f.varying {
                        Some(varying) => varying.offset_input,
                        None => 0,
                    };
                    fields.push(
                        FieldEdge {
                            name,
                            offset_bytes: f.offset_bytes,
                            offset_set: f.offset_set,
                            offset_binding_range: f.offset_binding_range,
                            offset_varying_input,
                            child,
                        },
                    );
                    i = i + 1;
                }
                proof {
                    assert(s.fields@.skip(i as int) =~= Seq::<VarLayout>::empty());
                }
                NodeKind::Struct { fields }
            },
            Type::Array(a) => {
                let stride_varying_input = match &a.element.size {
                    Some(size) => match size.varying_input {
                        Some(v) => v,
                        None => 0,
                    },
                    None => 0,
                };
                let element = match self.intern_type(&a.element) {
                    Err(e) => return Err(e),
                    Ok(element) => element,
                };
                NodeKind::Array {
                    count: a.count,
                    stride_bytes: ty.stride.bytes,
                    stride_binding_range: ty.stride.binding_range,
                    stride_varying_input,
                    element,
                }
            },
            Type::ParameterBlock(pb) => {
                let element = match self.intern_type(&pb.element) {
                    Err(e) => return Err(e),
                    Ok(element) => element,
                };
                NodeKind::ParameterBlock { descriptor_set: ParameterBlockLayout::duplicate(&pb.layout), element }
            },
            Type::ConstantBuffer(inner) => {
                let element = match self.intern_type(inner) {
                    Err(e) => return Err(e),
                    Ok(element) => element,
                };
                NodeKind::ConstantBuffer { element }
            },
            Type::Resource(r) => {
                let element = match &r.element {
                    None => None,
                    Some(e) => match self.intern_type(e) {
                        Err(err) => return Err(err),
                        Ok(element) => Some(element),
                    },
                };
                NodeKind::Resource { element }
            },
            Type::Unknown(k, n) => {
                return Err(CursorLayoutError::UnknownType(k.clone(), n.clone()));
            },
            _ => NodeKind::ScalarLike,
        };
        let ghost before = self.nodes@;
        let id = NodeId(self.nodes.len());
        self.nodes.push(Node { kind });
        proof {
            assert(self.nodes@.subrange(0, before.len() as int) =~= before);
            assert(self.nodes@.subrange(0, start.len() as int) =~= start);
            assert(new_nodes_closed(before, start.len() as int));
            assert(child_ids_in(self.nodes@[id.0 as int], start.len() as int, id.0 as int));
            assert forall|k: int| start.len() <= k < self.nodes@.len() implies child_ids_in(
                #[trigger] self.nodes@[k],
                start.len() as int,
                k,
            ) by {
                if k < before.len() {
                    assert(self.nodes@[k] == before[k]);
                }
            }
            match &ty.ty {
                Type::Struct(s) => {
                    if let NodeKind::Struct { fields } = self.nodes@[id.0 as int].kind {
                        assert forall|k: int| 0 <= k < s.fields@.len() implies node_matches(
                            self.nodes@,
                            (#[trigger] fields@[k]).child.0 as int,
                            s.fields@[k].value,
                        ) by {
                            lemma_node_matches_extend(
                                before,
                                self.nodes@,
                                fields@[k].child.0 as int,
                                s.fields@[k].value,
                            );
                        }
                    }
                },
                Type::Array(a) => {
                    if let NodeKind::Array { element, .. } = self.nodes@[id.0 as int].kind {
                        lemma_node_matches_extend(before, self.nodes@, element.0 as int, *a.element);
                    }
                },
                Type::ParameterBlock(pb) => {
                    if let NodeKind::ParameterBlock { element, .. } = self.nodes@[id.0 as int].kind {
                        lemma_node_matches_extend(before, self.nodes@, element.0 as int, *pb.element);
                    }
                },
                Type::ConstantBuffer(inner) => {
                    if let NodeKind::ConstantBuffer { element } = self.nodes@[id.0 as int].kind {
                        lemma_node_matches_extend(before, self.nodes@, element.0 as int, **inner);
                    }
                },
                Type::Resource(r) => {
                    if let NodeKind::Resource { element } = self.nodes@[id.0 as int].kind {
                        if let (Some(e), Some(n)) = (&r.element, element) {
                            lemma_node_matches_extend(before, self.nodes@, n.0 as int, **e);
                        }
                    }
                },
                _ => {},
            }
        }
        Ok(id)
    }
}

impl CursorLayout {
    /// Flattens `layout` into a node arena; fails on the first type that
    /// reflection could not classify.
    pub fn build(layout: ShaderLayout) -> (r: Result<CursorLayout, CursorLayoutError>)
        ensures
            match r {
                Ok(cl) => layout_first_unknown(layout) is None && cursor_layout_matches(cl, layout),
                Err(CursorLayoutError::UnknownType(k, n)) => layout_first_unknown(layout) == Some(
                    (k@, n@),
                ),
            },
    {
        LayoutIndexer::build(&layout)
    }

    /// The node `node`, if it exists.
    pub fn node(&self, node: NodeId) -> (r: Option<&Node>)
        ensures
            match r {
                Some(n) => node.0 < self.nodes@.len() && *n == self.nodes@[node.0 as int],
                None => node.0 >= self.nodes@.len(),
            },
    {
        if node.0 < self.nodes.len() {
            Some(&self.nodes[node.0])
        } else {
            None
        }
    }

    /// A view at the root of the globals, if there are globals.
    pub fn global_view(self: &Arc<Self>) -> (r: Option<CursorLayoutView>)
        ensures
            match self.global {
                Some(root) => r == Some(
                    CursorLayoutView { layout: *self, node: root.node, base: root.base },
                ),
                None => r is None,
            },
    {
        match &self.global {
            Some(root) => Some(CursorLayoutView::from_root(share(self), root)),
            None => None,
        }
    }

    /// A view at the root of the parameters of the first entry point of
    /// stage `stage` named `name`, if any.
    pub fn entrypoint_view(self: &Arc<Self>, stage: SlangShaderStage, name: &str) -> (r: Option<
        CursorLayoutView,
    >)
        ensures
            match r {
                Some(view) => exists|i: int|
                    0 <= i < self.entrypoints@.len() && self.entrypoints@[i].stage == stage
                        && self.entrypoints@[i].name@ == name@ && view == (CursorLayoutView {
                        layout: *self,
                        node: self.entrypoints@[i].root.node,
                        base: self.entrypoints@[i].root.base,
                    }) && forall|j: int|
                        0 <= j < i ==> !((#[trigger] self.entrypoints@[j]).stage == stage
                            && self.entrypoints@[j].name@ == name@),
                None => forall|j: int|
                    0 <= j < self.entrypoints@.len() ==> !((#[trigger] self.entrypoints@[j]).stage
                        == stage && self.entrypoints@[j].name@ == name@),
            },
    {
        let mut i: usize = 0;
        while i < self.entrypoints.len()
            invariant
                i <= self.entrypoints@.len(),
                forall|j: int|
                    0 <= j < i ==> !((#[trigger] self.entrypoints@[j]).stage == stage
                        && self.entrypoints@[j].name@ == name@),
            decreases self.entrypoints.len() - i,
        {
            let ep = &self.entrypoints[i];
            if ep.stage == stage && str_eq(ep.name.as_str(), name) {
                return Some(CursorLayoutView::from_root(share(self), &ep.root));
            }
            i = i + 1;
        }
        None
    }
}

/// A position in a flattened layout: a node and the offset accumulated on
/// the way to it.
#[derive(Clone, Debug)]
pub struct CursorLayoutView {
    pub layout: Arc<CursorLayout>,
    pub node: NodeId,
    pub base: ShaderOffset,
}

/// Following `edge` from `base` fits every unit's range.
pub open spec fn edge_fits(base: ShaderOffset, edge: FieldEdge) -> bool {
    &&& base.bytes + edge.offset_bytes <= usize::MAX
    &&& base.set + edge.offset_set <= usize::MAX
    &&& i64::MIN <= base.binding_range + edge.offset_binding_range <= i64::MAX
    &&& base.varying_input + edge.offset_varying_input <= usize::MAX
}

/// The offset reached by following `edge` from `base`; the array index is kept.
pub open spec fn edge_offset(base: ShaderOffset, edge: FieldEdge) -> ShaderOffset {
    ShaderOffset {
        bytes: (base.bytes + edge.offset_bytes) as usize,
        set: (base.set + edge.offset_set) as usize,
        binding_range: (base.binding_range + edge.offset_binding_range) as i64,
        array_index: base.array_index,
        varying_input: (base.varying_input + edge.offset_varying_input) as usize,
    }
}

/// The fields of node `node`, when it is a struct node.
pub open spec fn struct_fields_at(layout: CursorLayout, node: NodeId) -> Option<Seq<FieldEdge>> {
    if node.0 < layout.nodes@.len() {
        match layout.nodes@[node.0 as int].kind {
            NodeKind::Struct { fields } => Some(fields@),
            _ => None,
        }
    } else {
        None
    }
}

/// `i` is the first field of `fields` named `name`.
pub open spec fn is_first_field(fields: Seq<FieldEdge>, name: Seq<char>, i: int) -> bool {
    &&& 0 <= i < fields.len()
    &&& fields[i].name@ == name
    &&& forall|j: int| 0 <= j < i ==> (#[trigger] fields[j]).name@ != name
}

/// The array index of element `index` of an array of `count` elements,
/// entered at array index `outer`: row-major for bounded arrays.
pub open spec fn element_array_index(count: ElementCount, outer: usize, index: usize) -> int {
    match count {
        ElementCount::Bounded(c) => outer * c + index,
        ElementCount::Runtime => outer + index,
    }
}

/// Stepping into a bounded array of `c` elements is row-major: the elements
/// entered at outer array index `o` take the block of `c` indices starting at
/// `o * c`, one index each, so two different (outer index, element) pairs
/// never share an array index.
pub proof fn lemma_bounded_elements_row_major(c: usize, o1: usize, i1: usize, o2: usize, i2: usize)
    requires
        i1 < c,
        i2 < c,
    ensures
        o1 * c <= element_array_index(ElementCount::Bounded(c), o1, i1) < (o1 + 1) * c,
        element_array_index(ElementCount::Bounded(c), o1, i1) - o1 * c == i1,
        element_array_index(ElementCount::Bounded(c), o1, i1) == element_array_index(
            ElementCount::Bounded(c),
            o2,
            i2,
        ) ==> o1 == o2 && i1 == i2,
{
    let a = element_array_index(ElementCount::Bounded(c), o1, i1);
    let b = element_array_index(ElementCount::Bounded(c), o2, i2);
    assert(o1 * c <= a < (o1 + 1) * c) by (nonlinear_arith)
        requires
            a == o1 * c + i1,
            i1 < c,
    ;
    assert(o2 * c <= b < (o2 + 1) * c) by (nonlinear_arith)
        requires
            b == o2 * c + i2,
            i2 < c,
    ;
    if a == b {
        assert(o1 == o2) by (nonlinear_arith)
            requires
                o1 * c <= a < (o1 + 1) * c,
                o2 * c <= a < (o2 + 1) * c,
                c > 0,
        {
            if o1 < o2 {
                assert((o1 + 1) * c <= o2 * c);
            } else if o2 < o1 {
                assert((o2 + 1) * c <= o1 * c);
            }
        }
    }
}

/// Stepping to element `index` fits every unit's range.
pub open spec fn element_fits(
    base: ShaderOffset,
    count: ElementCount,
    stride_bytes: usize,
    stride_binding_range: i64,
    stride_varying_input: usize,
    index: usize,
) -> bool {
    &&& index <= i64::MAX
    &&& element_array_index(count, base.array_index, index) <= usize::MAX
    &&& base.bytes + index * stride_bytes <= usize::MAX
    &&& i64::MIN <= index * stride_binding_range <= i64::MAX
    &&& i64::MIN <= base.binding_range + index * stride_binding_range <= i64::MAX
    &&& base.varying_input + index * stride_varying_input <= usize::MAX
}

impl CursorLayoutView {
    /// The view at `root`.
    fn from_root(layout: Arc<CursorLayout>, root: &Root) -> (r: Self)
        ensures
            r == (CursorLayoutView { layout, node: root.node, base: root.base }),
    {
        CursorLayoutView { layout, node: root.node, base: root.base }
    }

    /// The view reached by following `edge`.
    fn apply_field(&self, edge: &FieldEdge) -> (r: Self)
        requires
            edge_fits(self.base, *edge),
        ensures
            r == (CursorLayoutView {
                layout: self.layout,
                node: edge.child,
                base: edge_offset(self.base, *edge),
            }),
    {
        CursorLayoutView {
            layout: share(&self.layout),
            node: edge.child,
            base: ShaderOffset {
                bytes: self.base.bytes + edge.offset_bytes,
                set: self.base.set + edge.offset_set,
                binding_range: self.base.binding_range + edge.offset_binding_range,
                array_index: self.base.array_index,
                varying_input: self.base.varying_input + edge.offset_varying_input,
            },
        }
    }

    /// The view at the first field named `name` of the struct at this view;
    /// `None` when the node is not a struct or has no such field.
    pub fn field(self, name: &str) -> (r: Option<Self>)
        requires
            (*self.layout).nodes@.len() > self.node.0 ==> match (*self.layout).nodes@[
                self.node.0 as int
            ].kind {
                NodeKind::Struct { fields } => forall|i: int|
                    0 <= i < fields@.len() && (#[trigger] fields@[i]).name@ == name@ ==> edge_fits(
                        self.base,
                        fields@[i],
                    ),
                _ => true,
            },
        ensures
            r is Some ==> struct_fields_at(*self.layout, self.node) is Some,
            r matches Some(view) ==> exists|i: int|
                is_first_field(struct_fields_at(*self.layout, self.node)->0, name@, i) && view
                    == (CursorLayoutView {
                    layout: self.layout,
                    node: struct_fields_at(*self.layout, self.node)->0[i].child,
                    base: edge_offset(self.base, struct_fields_at(*self.layout, self.node)->0[i]),
                }),
            r is None ==> match struct_fields_at(*self.layout, self.node) {
                Some(fields) => forall|i: int|
                    0 <= i < fields.len() ==> (#[trigger] fields[i]).name@ != name@,
                None => true,
            },
    {
        let node = match self.layout.node(self.node) {
            Some(node) => node,
            None => return None,
        };
        let fields = match &node.kind {
            NodeKind::Struct { fields } => fields,
            _ => return None,
        };
        let mut i: usize = 0;
        while i < fields.len()
            invariant
                i <= fields@.len(),
                struct_fields_at(*self.layout, self.node) == Some(fields@),
                forall|j: int|
                    0 <= j < fields@.len() && (#[trigger] fields@[j]).name@ == name@ ==> edge_fits(
                        self.base,
                        fields@[j],
                    ),
                forall|j: int| 0 <= j < i ==> (#[trigger] fields@[j]).name@ != name@,
            decreases fields.len() - i,
        {
            if str_eq(fields[i].name.as_str(), name) {
                proof {
                    assert(is_first_field(fields@, name@, i as int));
                }
                let view = self.apply_field(&fields[i]);
                assert(view == (CursorLayoutView {
                    layout: self.layout,
                    node: fields@[i as int].child,
                    base: edge_offset(self.base, fields@[i as int]),
                }));
                assert(is_first_field(struct_fields_at(*self.layout, self.node)->0, name@, i as int)
                    && view == (CursorLayoutView {
                    layout: self.layout,
                    node: struct_fields_at(*self.layout, self.node)->0[i as int].child,
                    base: edge_offset(
                        self.base,
                        struct_fields_at(*self.layout, self.node)->0[i as int],
                    ),
                }));
                return Some(view);
            }
            i = i + 1;
        }
        None
    }

    /// The view at element `index` of the array at this view; `None` when the
    /// node is not an array or `index` is past a bounded array's end.
    pub fn element(self, index: usize) -> (r: Option<Self>)
        requires
            (*self.layout).nodes@.len() > self.node.0 ==> match (*self.layout).nodes@[
                self.node.0 as int
            ].kind {
                NodeKind::Array {
                    count,
                    stride_bytes,
                    stride_binding_range,
                    stride_varying_input,
                    ..
                } => (match count {
                    ElementCount::Bounded(c) => index < c,
                    ElementCount::Runtime => true,
                }) ==> element_fits(
                    self.base,
                    count,
                    stride_bytes,
                    stride_binding_range,
                    stride_varying_input,
                    index,
                ),
                _ => true,
            },
        ensures
            match r {
                Some(view) => self.node.0 < (*self.layout).nodes@.len() && match (
                *self.layout).nodes@[self.node.0 as int].kind {
                    NodeKind::Array {
                        count,
                        stride_bytes,
                        stride_binding_range,
                        stride_varying_input,
                        element,
                    } => (match count {
                        ElementCount::Bounded(c) => index < c,
                        ElementCount::Runtime => true,
                    }) && view == (CursorLayoutView {
                        layout: self.layout,
                        node: element,
                        base: ShaderOffset {
                            bytes: (self.base.bytes + index * stride_bytes) as usize,
                            set: self.base.set,
                            binding_range: (self.base.binding_range + index * stride_binding_range) as i64,
                            array_index: element_array_index(count, self.base.array_index, index) as usize,
                            varying_input: (self.base.varying_input + index * stride_varying_input) as usize,
                        },
                    }),
                    _ => false,
                },
                None => !(self.node.0 < (*self.layout).nodes@.len() && match (
                *self.layout).nodes@[self.node.0 as int].kind {
                    NodeKind::Array { count, .. } => match count {
                        ElementCount::Bounded(c) => index < c,
                        ElementCount::Runtime => true,
                    },
                    _ => false,
                }),
            },
    {
        let node = match self.layout.node(self.node) {
            Some(node) => node,
            None => return None,
        };
        match &node.kind {
            NodeKind::Array {
                count,
                stride_bytes,
                stride_binding_range,
                stride_varying_input,
                element,
            } => {
                let array_index = match count {
                    ElementCount::Bounded(c) => {
                        if index >= *c {
                            return None;
                        }
                        proof {
                            assert(self.base.array_index * *c + index <= usize::MAX);
                        }
                        self.base.array_index * *c + index
                    },
                    ElementCount::Runtime => self.base.array_index + index,
                };
                let steps = index as i64;
                proof {
                    assert(index * *stride_bytes <= usize::MAX) by (nonlinear_arith)
                        requires
                            self.base.bytes + index * *stride_bytes <= usize::MAX,
                    ;
                    assert(index * *stride_varying_input <= usize::MAX) by (nonlinear_arith)
                        requires
                            self.base.varying_input + index * *stride_varying_input <= usize::MAX,
                    ;
                }
                Some(
                    CursorLayoutView {
                        layout: share(&self.layout),
                        node: *element,
                        base: ShaderOffset {
                            bytes: self.base.bytes + index * *stride_bytes,
                            set: self.base.set,
                            binding_range: self.base.binding_range + steps * *stride_binding_range,
                            array_index,
                            varying_input: self.base.varying_input + index * *stride_varying_input,
                        },
                    },
                )
            },
            _ => None,
        }
    }
}

} // verus!
