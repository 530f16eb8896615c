//! What may be bound where a cursor points: the target node of a binding,
//! and whether a descriptor fits it.

use vstd::prelude::*;
use crate::slang::cursor_layout::{CursorLayout, NodeId, NodeKind};

verus! {

/// The kind of resource a descriptor refers to.
#[derive(Clone, Copy, Debug, Eq, PartialEq, Structural)]
pub enum DescriptorClass {
    UniformBuffer,
    StorageBuffer,
    SampledImage,
    StorageImage,
    Sampler,
    AccelerationStructure,
}

/// What a descriptor is: its class and whether it may be written.
#[derive(Clone, Copy, Debug, Eq, PartialEq, Structural)]
pub struct DescriptorProfile {
    pub class: DescriptorClass,
    pub writable: bool,
}

/// Where a binding lands: the node a bound buffer's contents are laid out
/// by, if any, and the class of descriptor the node expects, if it expects one.
#[derive(Clone, Copy, Debug, Eq, PartialEq, Structural)]
pub struct BindTarget {
    pub resolved_node: Option<NodeId>,
    pub expected_class: Option<DescriptorClass>,
}

/// Why a binding is refused.
#[derive(Clone, Copy, Debug, Eq, PartialEq, Structural)]
pub enum BindError {
    /// The cursor's node is not in the layout.
    InvalidNode,
    /// The cursor's node is not a resource, constant buffer or parameter block.
    NotBindable,
    /// The descriptor's class is not the one the node expects.
    ClassMismatch { expected: DescriptorClass, got: DescriptorClass },
    /// Resolving a binding needs a buffer descriptor.
    NotABuffer(DescriptorClass),
}

/// The binding target of node `node`: a resource with an element resolves
/// to it and expects a storage buffer; one without expects nothing; a
/// constant buffer resolves to its element and expects a uniform buffer; a
/// parameter block resolves to its element and expects nothing.
pub open spec fn bind_target_spec(layout: CursorLayout, node: NodeId) -> Result<BindTarget, BindError> {
    if node.0 >= layout.nodes@.len() {
        Err(BindError::InvalidNode)
    } else {
        match layout.nodes@[node.0 as int].kind {
            NodeKind::Resource { element } => Ok(
                BindTarget {
                    resolved_node: element,
                    expected_class: if element is Some {
                        Some(DescriptorClass::StorageBuffer)
                    } else {
                        None
                    },
                },
            ),
            NodeKind::ConstantBuffer { element } => Ok(
                BindTarget {
                    resolved_node: Some(element),
                    expected_class: Some(DescriptorClass::UniformBuffer),
                },
            ),
            NodeKind::ParameterBlock { element, .. } => Ok(
                BindTarget { resolved_node: Some(element), expected_class: None },
            ),
            _ => Err(BindError::NotBindable),
        }
    }
}

/// The binding target of node `node` of `layout`.
pub fn bind_target(layout: &CursorLayout, node: NodeId) -> (r: Result<BindTarget, BindError>)
    ensures
        r == bind_target_spec(*layout, node),
{
    let n = match layout.node(node) {
        Some(n) => n,
        None => return Err(BindError::InvalidNode),
    };
    match &n.kind {
        NodeKind::Resource { element } => Ok(
            BindTarget {
                resolved_node: *element,
                expected_class: if element.is_some() {
                    Some(DescriptorClass::StorageBuffer)
                } else {
                    None
                },
            },
        ),
        NodeKind::ConstantBuffer { element } => Ok(
            BindTarget {
                resolved_node: Some(*element),
                expected_class: Some(DescriptorClass::UniformBuffer),
            },
        ),
        NodeKind::ParameterBlock { element, .. } => Ok(
            BindTarget { resolved_node: Some(*element), expected_class: None },
        ),
        _ => Err(BindError::NotBindable),
    }
}

/// A descriptor fits a target: its class is the expected one, when one is
/// expected; and, when the binding is to be resolved, it is a buffer.
pub open spec fn profile_check(
    target: BindTarget,
    profile: DescriptorProfile,
    require_resolve_compatible: bool,
) -> Result<(), BindError> {
    match target.expected_class {
        Some(expected) if profile.class != expected => Err(
            BindError::ClassMismatch { expected, got: profile.class },
        ),
        _ => if require_resolve_compatible && profile.class != DescriptorClass::UniformBuffer
            && profile.class != DescriptorClass::StorageBuffer {
            Err(BindError::NotABuffer(profile.class))
        } else {
            Ok(())
        },
    }
}

/// Whether a descriptor of `profile` fits `target`.
pub fn validate_descriptor_profile(
    target: BindTarget,
    profile: DescriptorProfile,
    require_resolve_compatible: bool,
) -> (r: Result<(), BindError>)
    ensures
        r == profile_check(target, profile, require_resolve_compatible),
{
    if let Some(expected) = target.expected_class {
        if profile.class != expected {
            return Err(BindError::ClassMismatch { expected, got: profile.class });
        }
    }
    if require_resolve_compatible && !(profile.class == DescriptorClass::UniformBuffer
        || profile.class == DescriptorClass::StorageBuffer) {
        return Err(BindError::NotABuffer(profile.class));
    }
    Ok(())
}

} // verus!
