//! Shader trees: a program's layout flattened into an arena of typed nodes,
//! and layout cursors that walk it by field, array element and element
//! layout, adding up offsets on the way.

use std::sync::Arc;
use vstd::prelude::*;
use crate::arc::share;
use crate::slang::compiler::SlangShaderStage;
use crate::slang::cursor_layout::{
    element_array_index, first_unknown, first_unknown_in_fields, layout_first_unknown,
    entrypoints_first_unknown, name_or_empty, var_base, varying_stride, with_params, NodeId,
    ShaderOffset,
};
use crate::slang::layout::{
    same_block_layout, ElementCount, ParameterBlockLayout, ShaderLayout, Type, TypeLayout,
    VarLayout,
};
use crate::text::str_eq;

verus! {

/// Where a tree starts: its root node and the offset of the root variable.
#[derive(Debug, Clone, Copy, PartialEq, Eq, Structural)]
pub struct SubTree {
    pub node: NodeId,
    pub base: ShaderOffset,
}

/// The root of an entry point's parameters.
#[derive(Debug)]
pub struct EntrypointRoot {
    pub name: String,
    pub stage: SlangShaderStage,
    pub subtree: SubTree,
}

/// A field of a struct node: its name, its offset and its node.
#[derive(Debug)]
pub struct FieldEdge {
    pub name: String,
    pub offset: ShaderOffset,
    pub child: NodeId,
}

/// A node of a shader tree.
#[derive(Debug)]
pub enum Node {
    Struct { fields: Vec<FieldEdge> },
    Array {
        count: ElementCount,
        stride_bytes: usize,
        stride_binding_range: i64,
        stride_varying_input: usize,
        element: NodeId,
    },
    ParameterBlock { descriptor_set: ParameterBlockLayout, element: NodeId },
    Resource { element: Option<NodeId> },
    Sampler,
    ConstantBuffer { element: NodeId },
    /// Numbers, pointers and everything else that holds no nodes.
    ScalarLike,
}

/// What a layout cursor points at.
#[derive(Clone, Copy, Debug, PartialEq, Eq, Structural)]
pub enum LayoutKind {
    Struct,
    Array,
    ParameterBlock,
    Resource,
    Sampler,
    ConstantBuffer,
    ScalarLike,
}

/// Why a shader tree could not be built or walked.
#[derive(Debug, Clone, PartialEq, Eq)]
pub enum ShaderTreeError {
    /// The layout holds a type that reflection could not classify: its kind
    /// and name.
    UnknownType(String, String),
    /// The program has no global parameters.
    NoGlobals,
    /// No entry point of that stage and name has parameters.
    EntrypointNotFound,
    /// The cursor's node is not in the tree.
    NodeNotFound,
    /// The cursor is not at a struct.
    NotAStruct,
    /// The struct has no field of that name.
    FieldNotFound,
    /// The cursor is not at an array.
    NotAnArray,
    /// The index is past the end of a bounded array.
    IndexOutOfBounds,
    /// The node has no element layout.
    NoElementLayout,
    /// The cursor is not at a parameter block.
    NotAParameterBlock,
}

/// A layout as an arena of nodes, children before parents, with the roots
/// of the globals and of each entry point's parameters.
#[derive(Debug)]
pub struct ShaderTree {
    pub nodes: Vec<Node>,
    pub global: Option<SubTree>,
    pub entrypoints: Vec<EntrypointRoot>,
}

/// Every child of `node` comes before position `id`.
pub open spec fn children_before(node: Node, id: int) -> bool {
    match node {
        Node::Struct { fields } => forall|i: int|
            0 <= i < fields@.len() ==> (#[trigger] fields@[i]).child.0 < id,
        Node::Array { element, .. } => element.0 < id,
        Node::ParameterBlock { element, .. } => element.0 < id,
        Node::Resource { element } => match element {
            Some(e) => e.0 < id,
            None => true,
        },
        Node::ConstantBuffer { element } => element.0 < id,
        _ => true,
    }
}

/// Every node id stored in `node` is at least `lo`.
pub open spec fn children_from(node: Node, lo: int) -> bool {
    match node {
        Node::Struct { fields } => forall|i: int|
            0 <= i < fields@.len() ==> lo <= (#[trigger] fields@[i]).child.0,
        Node::Array { element, .. } => lo <= element.0,
        Node::ParameterBlock { element, .. } => lo <= element.0,
        Node::Resource { element } => match element {
            Some(e) => lo <= e.0,
            None => true,
        },
        Node::ConstantBuffer { element } => lo <= element.0,
        _ => true,
    }
}

/// The nodes from `lo` on refer only to nodes from `lo` on.
pub open spec fn new_nodes_from(nodes: Seq<Node>, lo: int) -> bool {
    forall|k: int| lo <= k < nodes.len() ==> children_from(#[trigger] nodes[k], lo)
}

/// A node whose children are at least `lo2` has them at least any `lo1`
/// below it.
proof fn lemma_children_from_lower(node: Node, lo1: int, lo2: int)
    requires
        lo1 <= lo2,
        children_from(node, lo2),
    ensures
        children_from(node, lo1),
{
}

/// Every node's children come before it.
pub open spec fn arena_wf(nodes: Seq<Node>) -> bool {
    forall|i: int| 0 <= i < nodes.len() ==> children_before(#[trigger] nodes[i], i)
}

/// Node `id` of `nodes` and the nodes below it represent `ty`: same shape,
/// counts, strides, offsets and names.
pub open spec fn tree_node_matches(nodes: Seq<Node>, id: int, ty: TypeLayout) -> bool
    decreases ty,
{
    &&& 0 <= id < nodes.len()
    &&& match ty.ty {
        Type::Struct(s) => match nodes[id] {
            Node::Struct { fields } => {
                &&& fields@.len() == s.fields@.len()
                &&& forall|i: int|
                    0 <= i < s.fields@.len() ==> {
                        &&& (#[trigger] fields@[i]).name@ == name_or_empty(s.fields@[i].name)
                        &&& fields@[i].offset == var_base(s.fields@[i])
                        &&& fields@[i].child.0 < id
                        &&& tree_node_matches(nodes, fields@[i].child.0 as int, s.fields@[i].value)
                    }
            },
            _ => false,
        },
        Type::Array(a) => match nodes[id] {
            Node::Array {
                count,
                stride_bytes,
                stride_binding_range,
                stride_varying_input,
                element,
            } => {
                &&& count == a.count
                &&& stride_bytes == ty.stride.bytes
                &&& stride_binding_range == ty.stride.binding_range
                &&& stride_varying_input == varying_stride(a.element.size)
                &&& element.0 < id
                &&& tree_node_matches(nodes, element.0 as int, *a.element)
            },
            _ => false,
        },
        Type::ParameterBlock(pb) => match nodes[id] {
            Node::ParameterBlock { descriptor_set, element } => {
                &&& same_block_layout(descriptor_set, pb.layout)
                &&& element.0 < id
                &&& tree_node_matches(nodes, element.0 as int, *pb.element)
            },
            _ => false,
        },
        Type::ConstantBuffer(inner) => match nodes[id] {
            Node::ConstantBuffer { element } => {
                &&& element.0 < id
                &&& tree_node_matches(nodes, element.0 as int, *inner)
            },
            _ => false,
        },
        Type::Resource(r) => match nodes[id] {
            Node::Resource { element } => match (r.element, element) {
                (None, None) => true,
                (Some(e), Some(n)) => n.0 < id && tree_node_matches(nodes, n.0 as int, *e),
                _ => false,
            },
            _ => false,
        },
        Type::SamplerState(_) => nodes[id] is Sampler,
        Type::SamplerComparisonState(_) => nodes[id] is Sampler,
        Type::Unknown(_, _) => false,
        _ => nodes[id] is ScalarLike,
    }
}

/// What `tree_node_matches` says of a node still holds once more nodes are
/// appended after it.
pub proof fn lemma_tree_node_matches_extend(
    nodes: Seq<Node>,
    more: Seq<Node>,
    id: int,
    ty: TypeLayout,
)
    requires
        tree_node_matches(nodes, id, ty),
        more.subrange(0, nodes.len() as int) == nodes,
        nodes.len() <= more.len(),
    ensures
        tree_node_matches(more, id, ty),
    decreases ty,
{
    assert(more[id] == nodes[id]);
    match ty.ty {
        Type::Struct(s) => {
            if let Node::Struct { fields } = nodes[id] {
                assert forall|i: int| 0 <= i < s.fields@.len() implies tree_node_matches(
                    more,
                    (#[trigger] fields@[i]).child.0 as int,
                    s.fields@[i].value,
                ) by {
                    assert(decreases_to!(ty => ty.ty));
                    lemma_tree_node_matches_extend(
                        nodes,
                        more,
                        fields@[i].child.0 as int,
                        s.fields@[i].value,
                    );
                }
            }
        },
        Type::Array(a) => {
            if let Node::Array { element, .. } = nodes[id] {
                lemma_tree_node_matches_extend(nodes, more, element.0 as int, *a.element);
            }
        },
        Type::ParameterBlock(pb) => {
            if let Node::ParameterBlock { element, .. } = nodes[id] {
                lemma_tree_node_matches_extend(nodes, more, element.0 as int, *pb.element);
            }
        },
        Type::ConstantBuffer(inner) => {
            if let Node::ConstantBuffer { element } = nodes[id] {
                lemma_tree_node_matches_extend(nodes, more, element.0 as int, *inner);
            }
        },
        Type::Resource(r) => {
            if let Node::Resource { element } = nodes[id] {
                if let (Some(e), Some(n)) = (r.element, element) {
                    lemma_tree_node_matches_extend(nodes, more, n.0 as int, *e);
                }
            }
        },
        _ => {},
    }
}

/// `subtree` is the root of variable `var` in `nodes`.
pub open spec fn subtree_matches(nodes: Seq<Node>, subtree: SubTree, var: VarLayout) -> bool {
    &&& subtree.base == var_base(var)
    &&& tree_node_matches(nodes, subtree.node.0 as int, var.value)
}

/// `tree` is the flattening of `layout`: its arena is well formed, and it
/// holds the roots of the globals and of the entry points that have
/// parameters, in order.
pub open spec fn shader_tree_matches(tree: ShaderTree, layout: ShaderLayout) -> bool {
    &&& arena_wf(tree.nodes@)
    &&& match (layout.globals, tree.global) {
        (None, None) => true,
        (Some(g), Some(root)) => subtree_matches(tree.nodes@, root, *g),
        _ => false,
    }
    &&& tree.entrypoints@.len() == with_params(layout.entrypoints@).len()
    &&& forall|i: int|
        0 <= i < tree.entrypoints@.len() ==> {
            let ep = with_params(layout.entrypoints@)[i];
            &&& (#[trigger] tree.entrypoints@[i]).name@ == ep.name@
            &&& tree.entrypoints@[i].stage == ep.stage
            &&& subtree_matches(tree.nodes@, tree.entrypoints@[i].subtree, *ep.params.unwrap())
        }
}

/// Flattens layout trees into a node arena, children before parents.
struct LayoutIndexer {
    nodes: Vec<Node>,
}

impl LayoutIndexer {
    /// Flattens `layout`: the globals first, then each entry point that has
    /// parameters, in order.
    fn build(layout: &ShaderLayout) -> (r: Result<ShaderTree, ShaderTreeError>)
        ensures
            match r {
                Ok(tree) => layout_first_unknown(*layout) is None && shader_tree_matches(
                    tree,
                    *layout,
                ),
                Err(ShaderTreeError::UnknownType(k, n)) => layout_first_unknown(*layout) == Some(
                    (k@, n@),
                ),
                Err(_) => false,
            },
    {
        let mut b = LayoutIndexer { nodes: Vec::new() };
        let global = match &layout.globals {
            None => None,
            Some(g) => match b.root_from_var(g) {
                Err(e) => return Err(e),
                Ok(root) => Some(root),
            },
        };
        let eps = &layout.entrypoints;
        let mut entrypoints: Vec<EntrypointRoot> = Vec::with_capacity(eps.len());
        let mut i: usize = 0;
        proof {
            assert(eps@.skip(0) =~= eps@);
            assert(eps@.take(0) =~= Seq::<crate::slang::layout::EntrypointLayout>::empty());
        }
        while i < eps.len()
            invariant
                eps == &layout.entrypoints,
                i <= eps@.len(),
                arena_wf(b.nodes@),
                layout_first_unknown(*layout) == entrypoints_first_unknown(eps@.skip(i as int)),
                match (layout.globals, global) {
                    (None, None) => true,
                    (Some(g), Some(root)) => subtree_matches(b.nodes@, root, *g),
                    _ => false,
                },
                entrypoints@.len() == with_params(eps@.take(i as int)).len(),
                forall|k: int|
                    0 <= k < entrypoints@.len() ==> {
                        let ep = with_params(eps@.take(i as int))[k];
                        &&& (#[trigger] entrypoints@[k]).name@ == ep.name@
                        &&& entrypoints@[k].stage == ep.stage
                        &&& subtree_matches(b.nodes@, entrypoints@[k].subtree, *ep.params.unwrap())
                    },
            decreases eps.len() - i,
        {
            let ep = &eps[i];
            proof {
                let rest = eps@.skip(i as int);
                assert(rest[0] == eps@[i as int]);
                assert(rest.drop_first() =~= eps@.skip(i as int + 1));
                assert(eps@.take(i as int + 1).drop_last() =~= eps@.take(i as int));
                assert(eps@.take(i as int + 1).last() == eps@[i as int]);
            }
            let ghost before = b.nodes@;
            match &ep.params {
                None => {},
                Some(params) => {
                    let subtree = match b.root_from_var(params) {
                        Err(e) => return Err(e),
                        Ok(root) => root,
                    };
                    proof {
                        if let (Some(g), Some(groot)) = (&layout.globals, global) {
                            lemma_tree_node_matches_extend(
                                before,
                                b.nodes@,
                                groot.node.0 as int,
                                g.value,
                            );
                        }
                        assert forall|k: int| 0 <= k < entrypoints@.len() implies subtree_matches(
                            b.nodes@,
                            (#[trigger] entrypoints@[k]).subtree,
                            *with_params(eps@.take(i as int))[k].params.unwrap(),
                        ) by {
                            lemma_tree_node_matches_extend(
                                before,
                                b.nodes@,
                                entrypoints@[k].subtree.node.0 as int,
                                with_params(eps@.take(i as int))[k].params.unwrap().value,
                            );
                        }
                    }
                    entrypoints.push(
                        EntrypointRoot { name: ep.name.clone(), stage: ep.stage, subtree },
                    );
                },
            }
            i = i + 1;
        }
        proof {
            assert(eps@.take(i as int) =~= eps@);
        }
        Ok(ShaderTree { nodes: b.nodes, global, entrypoints })
    }

    /// Appends the nodes of a variable's type and gives its root.
    fn root_from_var(&mut self, var: &VarLayout) -> (r: Result<SubTree, ShaderTreeError>)
        requires
            arena_wf(old(self).nodes@),
        ensures
            arena_wf(final(self).nodes@),
            old(self).nodes@.len() <= final(self).nodes@.len(),
            final(self).nodes@.subrange(0, old(self).nodes@.len() as int) == old(self).nodes@,
            match r {
                Ok(root) => first_unknown(var.value) is None && subtree_matches(
                    final(self).nodes@,
                    root,
                    *var,
                ),
                Err(ShaderTreeError::UnknownType(k, n)) => first_unknown(var.value) == Some(
                    (k@, n@),
                ),
                Err(_) => false,
            },
    {
        let node = match self.intern_type(&var.value) {
            Err(e) => return Err(e),
            Ok(node) => node,
        };
        let varying_input = match &var.varying {
            Some(varying) => varying.offset_input,
            None => 0,
        };
        Ok(
            SubTree {
                node,
                base: ShaderOffset {
                    bytes: var.offset_bytes,
                    set: var.offset_set,
                    binding_range: var.offset_binding_range,
                    array_index: 0,
                    varying_input,
                },
            },
        )
    }

    /// Appends the nodes of `ty` and returns the id of its root, which is
    /// the last node appended.
    fn intern_type(&mut self, ty: &TypeLayout) -> (r: Result<NodeId, ShaderTreeError>)
        requires
            arena_wf(old(self).nodes@),
        ensures
            arena_wf(final(self).nodes@),
            old(self).nodes@.len() <= final(self).nodes@.len(),
            final(self).nodes@.subrange(0, old(self).nodes@.len() as int) == old(self).nodes@,
            r is Ok ==> new_nodes_from(final(self).nodes@, old(self).nodes@.len() as int),
            r matches Ok(id) ==> old(self).nodes@.len() <= id.0,
            match r {
                Ok(id) => {
                    &&& first_unknown(*ty) is None
                    &&& id.0 + 1 == final(self).nodes@.len()
                    &&& tree_node_matches(final(self).nodes@, id.0 as int, *ty)
                },
                Err(ShaderTreeError::UnknownType(k, n)) => first_unknown(*ty) == Some((k@, n@)),
                Err(_) => false,
            },
        decreases ty,
    {
        let ghost start = self.nodes@;
        let node = match &ty.ty {
            Type::Struct(s) => {
                let mut fields: Vec<FieldEdge> = Vec::with_capacity(s.fields.len());
                let mut i: usize = 0;
                proof {
                    assert(s.fields@.skip(0) =~= s.fields@);
                }
                while i < s.fields.len()
                    invariant
                        ty.ty == Type::Struct(*s),
                        start == old(self).nodes@,
                        arena_wf(self.nodes@),
                        i <= s.fields@.len(),
                        fields@.len() == i,
                        start.len() <= self.nodes@.len(),
                        self.nodes@.subrange(0, start.len() as int) == start,
                        new_nodes_from(self.nodes@, start.len() as int),
                        forall|k: int| 0 <= k < i ==> start.len() <= (#[trigger] fields@[k]).child.0,
                        first_unknown_in_fields(s.fields@) == first_unknown_in_fields(
                            s.fields@.skip(i as int),
                        ),
                        forall|k: int|
                            0 <= k < i ==> {
                                &&& (#[trigger] fields@[k]).name@ == name_or_empty(
                                    s.fields@[k].name,
                                )
                                &&& fields@[k].offset == var_base(s.fields@[k])
                                &&& fields@[k].child.0 < self.nodes@.len()
                                &&& tree_node_matches(
                                    self.nodes@,
                                    fields@[k].child.0 as int,
                                    s.fields@[k].value,
                                )
                            },
                    decreases s.fields.len() - i,
                {
                    let f = &s.fields[i];
                    proof {
                        let rest = s.fields@.skip(i as int);
                        assert(rest[0] == s.fields@[i as int]);
                        assert(rest.drop_first() =~= s.fields@.skip(i as int + 1));
                        assert(decreases_to!(*ty => ty.ty));
                        assert(decreases_to!(ty.ty => (ty.ty)->Struct_0));
                        assert(decreases_to!((ty.ty)->Struct_0 => s.fields));
                        assert(decreases_to!(s.fields => s.fields@));
                        assert(decreases_to!(s.fields@ => s.fields@[i as int]));
                        assert(decreases_to!(s.fields@[i as int] => s.fields@[i as int].value));
                    }
                    let ghost before = self.nodes@;
                    let interned = self.intern_type(&f.value);
                    proof {
                        assert(self.nodes@.subrange(0, start.len() as int) =~= start) by {
                            assert(self.nodes@.subrange(0, before.len() as int) == before);
                            assert forall|j: int| 0 <= j < start.len() implies self.nodes@[j]
                                == start[j] by {
                                assert(self.nodes@.subrange(0, before.len() as int)[j]
                                    == self.nodes@[j]);
                                assert(before.subrange(0, start.len() as int)[j] == before[j]);
                            }
                        }
                    }
                    let child = match interned {
                        Err(e) => return Err(e),
                        Ok(child) => child,
                    };
                    proof {
                        assert forall|k: int| start.len() <= k < self.nodes@.len() implies children_from(
                            #[trigger] self.nodes@[k],
                            start.len() as int,
                        ) by {
                            if k < before.len() {
                                assert(self.nodes@.subrange(0, before.len() as int)[k] == self.nodes@[k]);
                                assert(children_from(before[k], start.len() as int));
                            } else {
                                assert(children_from(self.nodes@[k], before.len() as int));
                                lemma_children_from_lower(self.nodes@[k], start.len() as int, before.len() as int);
                            }
                        }
                    }
                    proof {
                        assert forall|k: int| 0 <= k < i implies tree_node_matches(
                            self.nodes@,
                            (#[trigger] fields@[k]).child.0 as int,
                            s.fields@[k].value,
                        ) by {
                            lemma_tree_node_matches_extend(
                                before,
                                self.nodes@,
                                fields@[k].child.0 as int,
                                s.fields@[k].value,
                            );
                        }
                    }
                    let name = match &f.name {
                        Some(name) => name.clone(),
                        None => String::new(),
                    };
                    let varying_input = match &f.varying {
                        Some(varying) => varying.offset_input,
                        None => 0,
                    };
                    fields.push(
                        FieldEdge {
                            name,
                            offset: ShaderOffset {
                                bytes: f.offset_bytes,
                                set: f.offset_set,
                                binding_range: f.offset_binding_range,
                                array_index: 0,
                                varying_input,
                            },
                            child,
                        },
                    );
                    i = i + 1;
                }
                proof {
                    assert(s.fields@.skip(i as int) =~= Seq::<VarLayout>::empty());
                }
                Node::Struct { fields }
            },
            Type::Array(a) => {
                let stride_varying_input = match &a.element.size {
                    Some(size) => match size.varying_input {
                        Some(v) => v,
                        None => 0,
                    },
                    None => 0,
                };
                let element = match self.intern_type(&a.element) {
                    Err(e) => return Err(e),
                    Ok(element) => element,
                };
                Node::Array {
                    count: a.count,
                    stride_bytes: ty.stride.bytes,
                    stride_binding_range: ty.stride.binding_range,
                    stride_varying_input,
                    element,
                }
            },
            Type::ParameterBlock(pb) => {
                let element = match self.intern_type(&pb.element) {
                    Err(e) => return Err(e),
                    Ok(element) => element,
                };
                Node::ParameterBlock { descriptor_set: pb.layout.duplicate(), element }
            },
            Type::ConstantBuffer(inner) => {
                let element = match self.intern_type(inner) {
                    Err(e) => return Err(e),
                    Ok(element) => element,
                };
                Node::ConstantBuffer { element }
            },
            Type::Resource(r) => {
                let element = match &r.element {
                    None => None,
                    Some(e) => match self.intern_type(e) {
                        Err(err) => return Err(err),
                        Ok(element) => Some(element),
                    },
                };
                Node::Resource { element }
            },
            Type::SamplerState(_) => Node::Sampler,
            Type::SamplerComparisonState(_) => Node::Sampler,
            Type::Unknown(k, n) => {
                return Err(ShaderTreeError::UnknownType(k.clone(), n.clone()));
            },
            _ => Node::ScalarLike,
        };
        let ghost before = self.nodes@;
        let id = NodeId(self.nodes.len());
        self.nodes.push(node);
        proof {
            assert(self.nodes@.subrange(0, before.len() as int) =~= before);
            assert(self.nodes@.subrange(0, start.len() as int) =~= start);
            assert(new_nodes_from(before, start.len() as int));
            assert(children_from(self.nodes@[id.0 as int], start.len() as int));
            assert forall|k: int| start.len() <= k < self.nodes@.len() implies children_from(
                #[trigger] self.nodes@[k],
                start.len() as int,
            ) by {
                if k < before.len() {
                    assert(self.nodes@[k] == before[k]);
                }
            }
            assert forall|j: int| 0 <= j < self.nodes@.len() implies children_before(
                #[trigger] self.nodes@[j],
                j,
            ) by {
                if j < before.len() {
                    assert(self.nodes@[j] == before[j]);
                }
            }
            match &ty.ty {
                Type::Struct(s) => {
                    if let Node::Struct { fields } = self.nodes@[id.0 as int] {
                        assert forall|k: int| 0 <= k < s.fields@.len() implies tree_node_matches(
                            self.nodes@,
                            (#[trigger] fields@[k]).child.0 as int,
                            s.fields@[k].value,
                        ) by {
                            lemma_tree_node_matches_extend(
                                before,
                                self.nodes@,
                                fields@[k].child.0 as int,
                                s.fields@[k].value,
                            );
                        }
                    }
                },
                Type::Array(a) => {
                    if let Node::Array { element, .. } = self.nodes@[id.0 as int] {
                        lemma_tree_node_matches_extend(
                            before,
                            self.nodes@,
                            element.0 as int,
                            *a.element,
                        );
                    }
                },
                Type::ParameterBlock(pb) => {
                    if let Node::ParameterBlock { element, .. } = self.nodes@[id.0 as int] {
                        lemma_tree_node_matches_extend(
                            before,
                            self.nodes@,
                            element.0 as int,
                            *pb.element,
                        );
                    }
                },
                Type::ConstantBuffer(inner) => {
                    if let Node::ConstantBuffer { element } = self.nodes@[id.0 as int] {
                        lemma_tree_node_matches_extend(before, self.nodes@, element.0 as int, **inner);
                    }
                },
                Type::Resource(r) => {
                    if let Node::Resource { element } = self.nodes@[id.0 as int] {
                        if let (Some(e), Some(n)) = (&r.element, element) {
                            lemma_tree_node_matches_extend(before, self.nodes@, n.0 as int, **e);
                        }
                    }
                },
                _ => {},
            }
        }
        Ok(id)
    }
}

/// The kind of a node.
pub open spec fn kind_of(node: Node) -> LayoutKind {
    match node {
        Node::Struct { .. } => LayoutKind::Struct,
        Node::Array { .. } => LayoutKind::Array,
        Node::ParameterBlock { .. } => LayoutKind::ParameterBlock,
        Node::Resource { .. } => LayoutKind::Resource,
        Node::Sampler => LayoutKind::Sampler,
        Node::ConstantBuffer { .. } => LayoutKind::ConstantBuffer,
        Node::ScalarLike => LayoutKind::ScalarLike,
    }
}

/// The node that holds the element layout of a node, where it has one:
/// arrays, parameter blocks, constant buffers and resources with an element.
pub open spec fn element_of(node: Node) -> Option<NodeId> {
    match node {
        Node::Array { element, .. } => Some(element),
        Node::ParameterBlock { element, .. } => Some(element),
        Node::Resource { element } => element,
        Node::ConstantBuffer { element } => Some(element),
        _ => None,
    }
}

impl ShaderTree {
    /// Flattens `layout` into a shader tree; fails on the first type that
    /// reflection could not classify.
    pub fn new(layout: ShaderLayout) -> (r: Result<Arc<ShaderTree>, ShaderTreeError>)
        ensures
            match r {
                Ok(tree) => layout_first_unknown(layout) is None && shader_tree_matches(
                    *tree,
                    layout,
                ),
                Err(ShaderTreeError::UnknownType(k, n)) => layout_first_unknown(layout) == Some(
                    (k@, n@),
                ),
                Err(_) => false,
            },
    {
        match LayoutIndexer::build(&layout) {
            Ok(tree) => Ok(Arc::new(tree)),
            Err(e) => Err(e),
        }
    }

    /// A cursor at the root of the globals.
    pub fn globals(self: &Arc<Self>) -> (r: Result<LayoutCursor, ShaderTreeError>)
        ensures
            match self.global {
                Some(root) => r == Ok::<LayoutCursor, ShaderTreeError>(
                    LayoutCursor { tree: *self, node: root.node, base: root.base },
                ),
                None => r == Err::<LayoutCursor, ShaderTreeError>(ShaderTreeError::NoGlobals),
            },
    {
        match &self.global {
            Some(root) => Ok(LayoutCursor::from_subtree(share(self), root)),
            None => Err(ShaderTreeError::NoGlobals),
        }
    }

    /// A cursor at the parameters of the first entry point of stage `stage`
    /// named `name`.
    pub fn entrypoint(self: &Arc<Self>, stage: SlangShaderStage, name: &str) -> (r: Result<
        LayoutCursor,
        ShaderTreeError,
    >)
        ensures
            match r {
                Ok(cursor) => exists|i: int|
                    0 <= i < self.entrypoints@.len() && self.entrypoints@[i].stage == stage
                        && self.entrypoints@[i].name@ == name@ && cursor == (LayoutCursor {
                        tree: *self,
                        node: self.entrypoints@[i].subtree.node,
                        base: self.entrypoints@[i].subtree.base,
                    }) && forall|j: int|
                        0 <= j < i ==> !((#[trigger] self.entrypoints@[j]).stage == stage
                            && self.entrypoints@[j].name@ == name@),
                Err(e) => e == ShaderTreeError::EntrypointNotFound && forall|j: int|
                    0 <= j < self.entrypoints@.len() ==> !((#[trigger] self.entrypoints@[j]).stage
                        == stage && self.entrypoints@[j].name@ == name@),
            },
    {
        let mut i: usize = 0;
        while i < self.entrypoints.len()
            invariant
                i <= self.entrypoints@.len(),
                forall|j: int|
                    0 <= j < i ==> !((#[trigger] self.entrypoints@[j]).stage == stage
                        && self.entrypoints@[j].name@ == name@),
            decreases self.entrypoints.len() - i,
        {
            let ep = &self.entrypoints[i];
            if ep.stage == stage && str_eq(ep.name.as_str(), name) {
                return Ok(LayoutCursor::from_subtree(share(self), &ep.subtree));
            }
            i = i + 1;
        }
        Err(ShaderTreeError::EntrypointNotFound)
    }

    /// The node `node`, if the arena holds it.
    pub fn node(&self, node: NodeId) -> (r: Option<&Node>)
        ensures
            match r {
                Some(n) => node.0 < self.nodes@.len() && *n == self.nodes@[node.0 as int],
                None => node.0 >= self.nodes@.len(),
            },
    {
        if node.0 < self.nodes.len() {
            Some(&self.nodes[node.0])
        } else {
            None
        }
    }
}

/// A position in a shader tree: a node and the offset accumulated on the way
/// to it.
#[derive(Clone, Debug)]
pub struct LayoutCursor {
    pub tree: Arc<ShaderTree>,
    pub node: NodeId,
    pub base: ShaderOffset,
}

/// Following a field at offset `offset` from `base` fits every unit's range.
pub open spec fn field_fits(base: ShaderOffset, offset: ShaderOffset) -> bool {
    &&& base.bytes + offset.bytes <= usize::MAX
    &&& base.set + offset.set <= usize::MAX
    &&& i64::MIN <= base.binding_range + offset.binding_range <= i64::MAX
    &&& base.varying_input + offset.varying_input <= usize::MAX
}

/// The offset reached by following a field at `offset` from `base`; the
/// array index is kept.
pub open spec fn field_offset(base: ShaderOffset, offset: ShaderOffset) -> ShaderOffset {
    ShaderOffset {
        bytes: (base.bytes + offset.bytes) as usize,
        set: (base.set + offset.set) as usize,
        binding_range: (base.binding_range + offset.binding_range) as i64,
        array_index: base.array_index,
        varying_input: (base.varying_input + offset.varying_input) as usize,
    }
}

/// The first field of `fields` named `name`, if any.
pub open spec fn first_field_named(fields: Seq<FieldEdge>, name: Seq<char>) -> Option<int> {
    if exists|i: int| 0 <= i < fields.len() && (#[trigger] fields[i]).name@ == name {
        Some(
            choose|i: int|
                0 <= i < fields.len() && (#[trigger] fields[i]).name@ == name && forall|j: int|
                    0 <= j < i ==> (#[trigger] fields[j]).name@ != name,
        )
    } else {
        None
    }
}

/// Stepping to element `index` of an array fits every unit's range.
pub open spec fn index_fits(
    base: ShaderOffset,
    count: ElementCount,
    stride_bytes: usize,
    stride_binding_range: i64,
    stride_varying_input: usize,
    index: usize,
) -> bool {
    &&& element_array_index(count, base.array_index, index) <= usize::MAX
    &&& base.bytes + index * stride_bytes <= usize::MAX
    &&& i64::MIN <= (index as i64) * stride_binding_range <= i64::MAX
    &&& i64::MIN <= base.binding_range + (index as i64) * stride_binding_range <= i64::MAX
    &&& base.varying_input + index * stride_varying_input <= usize::MAX
}

/// What stepping to element `index` of the array node `node` from `base`
/// gives: the element's node and offset, unless `index` is past the end of a
/// bounded array.
pub open spec fn index_step(node: Node, base: ShaderOffset, index: usize) -> Result<
    (NodeId, ShaderOffset),
    ShaderTreeError,
> {
    match node {
        Node::Array { count, stride_bytes, stride_binding_range, stride_varying_input, element } => {
            if count matches ElementCount::Bounded(c) && index >= c {
                Err(ShaderTreeError::IndexOutOfBounds)
            } else {
                Ok(
                    (
                        element,
                        ShaderOffset {
                            bytes: (base.bytes + index * stride_bytes) as usize,
                            set: base.set,
                            binding_range: (base.binding_range + (index as i64)
                                * stride_binding_range) as i64,
                            array_index: element_array_index(
                                count,
                                base.array_index,
                                index,
                            ) as usize,
                            varying_input: (base.varying_input + index * stride_varying_input) as usize,
                        },
                    ),
                )
            }
        },
        _ => Err(ShaderTreeError::NotAnArray),
    }
}

impl LayoutCursor {
    /// The cursor is at a node of a well-formed tree.
    pub open spec fn valid(&self) -> bool {
        &&& arena_wf(self.tree.nodes@)
        &&& self.node.0 < self.tree.nodes@.len()
    }

    /// The cursor at `subtree`.
    fn from_subtree(tree: Arc<ShaderTree>, subtree: &SubTree) -> (r: Self)
        ensures
            r == (LayoutCursor { tree, node: subtree.node, base: subtree.base }),
    {
        LayoutCursor { tree, node: subtree.node, base: subtree.base }
    }

    /// The cursor reached by following `edge`.
    fn apply_field(&self, edge: &FieldEdge) -> (r: Self)
        requires
            field_fits(self.base, edge.offset),
        ensures
            r == (LayoutCursor {
                tree: self.tree,
                node: edge.child,
                base: field_offset(self.base, edge.offset),
            }),
    {
        LayoutCursor {
            tree: share(&self.tree),
            node: edge.child,
            base: ShaderOffset {
                bytes: self.base.bytes + edge.offset.bytes,
                set: self.base.set + edge.offset.set,
                binding_range: self.base.binding_range + edge.offset.binding_range,
                array_index: self.base.array_index,
                varying_input: self.base.varying_input + edge.offset.varying_input,
            },
        }
    }

    /// The kind of node the cursor is at, which must be in the tree.
    pub fn kind(&self) -> (r: LayoutKind)
        requires
            self.node.0 < self.tree.nodes@.len(),
        ensures
            r == kind_of(self.tree.nodes@[self.node.0 as int]),
    {
        match &self.tree.nodes[self.node.0] {
            Node::Struct { .. } => LayoutKind::Struct,
            Node::Array { .. } => LayoutKind::Array,
            Node::ParameterBlock { .. } => LayoutKind::ParameterBlock,
            Node::Resource { .. } => LayoutKind::Resource,
            Node::Sampler => LayoutKind::Sampler,
            Node::ConstantBuffer { .. } => LayoutKind::ConstantBuffer,
            Node::ScalarLike => LayoutKind::ScalarLike,
        }
    }

    /// The offset the cursor has accumulated.
    pub fn offset(&self) -> (r: ShaderOffset)
        ensures
            r == self.base,
    {
        self.base
    }

    /// A cursor at the element layout of the node, at the same offset; the
    /// node must be in the tree.
    pub fn element_layout(&self) -> (r: Result<LayoutCursor, ShaderTreeError>)
        requires
            self.node.0 < self.tree.nodes@.len(),
        ensures
            match element_of(self.tree.nodes@[self.node.0 as int]) {
                Some(e) => r == Ok::<LayoutCursor, ShaderTreeError>(
                    LayoutCursor { tree: self.tree, node: e, base: self.base },
                ),
                None => r == Err::<LayoutCursor, ShaderTreeError>(ShaderTreeError::NoElementLayout),
            },
            self.valid() ==> (r matches Ok(c) ==> c.valid()),
    {
        let element = match &self.tree.nodes[self.node.0] {
            Node::Array { element, .. } => Some(*element),
            Node::ParameterBlock { element, .. } => Some(*element),
            Node::Resource { element } => *element,
            Node::ConstantBuffer { element } => Some(*element),
            _ => None,
        };
        proof {
            if self.valid() {
                assert(children_before(self.tree.nodes@[self.node.0 as int], self.node.0 as int));
            }
        }
        match element {
            Some(element) => Ok(LayoutCursor { tree: share(&self.tree), node: element, base: self.base }),
            None => Err(ShaderTreeError::NoElementLayout),
        }
    }

    /// The descriptor set layout of the parameter block the cursor is at;
    /// the node must be in the tree.
    pub fn descriptor_set_layout(&self) -> (r: Result<&ParameterBlockLayout, ShaderTreeError>)
        requires
            self.node.0 < self.tree.nodes@.len(),
        ensures
            match self.tree.nodes@[self.node.0 as int] {
                Node::ParameterBlock { descriptor_set, .. } => r == Ok::<
                    &ParameterBlockLayout,
                    ShaderTreeError,
                >(&descriptor_set),
                _ => r == Err::<&ParameterBlockLayout, ShaderTreeError>(
                    ShaderTreeError::NotAParameterBlock,
                ),
            },
    {
        match &self.tree.nodes[self.node.0] {
            Node::ParameterBlock { descriptor_set, .. } => Ok(descriptor_set),
            _ => Err(ShaderTreeError::NotAParameterBlock),
        }
    }

    /// A cursor at the first field named `name` of the struct the cursor is
    /// at.
    pub fn field(&self, name: &str) -> (r: Result<Self, ShaderTreeError>)
        requires
            self.node.0 < self.tree.nodes@.len() ==> match self.tree.nodes@[self.node.0 as int] {
                Node::Struct { fields } => forall|i: int|
                    0 <= i < fields@.len() && (#[trigger] fields@[i]).name@ == name@ ==> field_fits(
                        self.base,
                        fields@[i].offset,
                    ),
                _ => true,
            },
        ensures
            self.node.0 >= self.tree.nodes@.len() ==> r == Err::<Self, ShaderTreeError>(
                ShaderTreeError::NodeNotFound,
            ),
            self.node.0 < self.tree.nodes@.len() ==> match self.tree.nodes@[self.node.0 as int] {
                Node::Struct { fields } => match first_field_named(fields@, name@) {
                    Some(i) => r == Ok::<Self, ShaderTreeError>(
                        LayoutCursor {
                            tree: self.tree,
                            node: fields@[i].child,
                            base: field_offset(self.base, fields@[i].offset),
                        },
                    ),
                    None => r == Err::<Self, ShaderTreeError>(ShaderTreeError::FieldNotFound),
                },
                _ => r == Err::<Self, ShaderTreeError>(ShaderTreeError::NotAStruct),
            },
            self.valid() ==> (r matches Ok(c) ==> c.valid()),
    {
        let node = match self.tree.node(self.node) {
            Some(node) => node,
            None => return Err(ShaderTreeError::NodeNotFound),
        };
        let fields = match node {
            Node::Struct { fields } => fields,
            _ => return Err(ShaderTreeError::NotAStruct),
        };
        let ghost here = self.node.0 as int;
        let mut i: usize = 0;
        while i < fields.len()
            invariant
                i <= fields@.len(),
                here < self.tree.nodes@.len(),
                self.tree.nodes@[here] == (Node::Struct { fields: *fields }),
                here == self.node.0,
                forall|j: int|
                    0 <= j < fields@.len() && (#[trigger] fields@[j]).name@ == name@ ==> field_fits(
                        self.base,
                        fields@[j].offset,
                    ),
                forall|j: int| 0 <= j < i ==> (#[trigger] fields@[j]).name@ != name@,
            decreases fields.len() - i,
        {
            if str_eq(fields[i].name.as_str(), name) {
                proof {
                    assert(fields@[i as int].name@ == name@);
                    let k = first_field_named(fields@, name@)->0;
                    assert(0 <= k < fields@.len() && fields@[k].name@ == name@);
                    if k < i {
                    } else if k > i {
                    }
                    assert(k == i);
                    if self.valid() {
                        assert(children_before(self.tree.nodes@[here], here));
                    }
                }
                return Ok(self.apply_field(&fields[i]));
            }
            i = i + 1;
        }
        Err(ShaderTreeError::FieldNotFound)
    }

    /// A cursor at element `index` of the array the cursor is at.
    pub fn index(&self, index: usize) -> (r: Result<Self, ShaderTreeError>)
        requires
            self.node.0 < self.tree.nodes@.len() ==> match self.tree.nodes@[self.node.0 as int] {
                Node::Array {
                    count,
                    stride_bytes,
                    stride_binding_range,
                    stride_varying_input,
                    ..
                } => !(count matches ElementCount::Bounded(c) && index >= c) ==> index_fits(
                    self.base,
                    count,
                    stride_bytes,
                    stride_binding_range,
                    stride_varying_input,
                    index,
                ),
                _ => true,
            },
        ensures
            self.node.0 >= self.tree.nodes@.len() ==> r == Err::<Self, ShaderTreeError>(
                ShaderTreeError::NodeNotFound,
            ),
            self.node.0 < self.tree.nodes@.len() ==> match index_step(
                self.tree.nodes@[self.node.0 as int],
                self.base,
                index,
            ) {
                Ok((element, base)) => r == Ok::<Self, ShaderTreeError>(
                    LayoutCursor { tree: self.tree, node: element, base },
                ),
                Err(e) => r == Err::<Self, ShaderTreeError>(e),
            },
            self.valid() ==> (r matches Ok(c) ==> c.valid()),
    {
        let node = match self.tree.node(self.node) {
            Some(node) => node,
            None => return Err(ShaderTreeError::NodeNotFound),
        };
        proof {
            if self.valid() {
                assert(children_before(self.tree.nodes@[self.node.0 as int], self.node.0 as int));
            }
        }
        match node {
            Node::Array {
                count,
                stride_bytes,
                stride_binding_range,
                stride_varying_input,
                element,
            } => {
                let array_index = match count {
                    ElementCount::Bounded(c) => {
                        if index >= *c {
                            return Err(ShaderTreeError::IndexOutOfBounds);
                        }
                        self.base.array_index * *c + index
                    },
                    ElementCount::Runtime => self.base.array_index + index,
                };
                let steps = index as i64;
                proof {
                    assert(index * *stride_bytes <= usize::MAX) by (nonlinear_arith)
                        requires
                            self.base.bytes + index * *stride_bytes <= usize::MAX,
                    ;
                    assert(index * *stride_varying_input <= usize::MAX) by (nonlinear_arith)
                        requires
                            self.base.varying_input + index * *stride_varying_input <= usize::MAX,
                    ;
                }
                Ok(
                    LayoutCursor {
                        tree: share(&self.tree),
                        node: *element,
                        base: ShaderOffset {
                            bytes: self.base.bytes + index * *stride_bytes,
                            set: self.base.set,
                            binding_range: self.base.binding_range + steps * *stride_binding_range,
                            array_index,
                            varying_input: self.base.varying_input + index * *stride_varying_input,
                        },
                    },
                )
            },
            _ => Err(ShaderTreeError::NotAnArray),
        }
    }
}

} // verus!
