//! The state a reflection printout carries down a layout: the stage of the
//! entry point being walked and the descriptor set the current variable
//! starts at, with set numbers shifted past the bindless set.

use vstd::prelude::*;
use crate::slang::builder::{descriptor_type_of, map_descriptor_type, LayoutBuildError};
use crate::slang::compiler::SlangShaderStage;
use crate::slang::enums::SlangBindingType;

verus! {

/// Why a reflected binding has no Vulkan descriptor type.
#[derive(Debug, Clone, Copy, PartialEq, Eq, Structural)]
pub enum ReflectError {
    /// Push constants are not bound through descriptors.
    PushConstantNotDescriptor,
    /// A binding type that has no descriptor.
    UnsupportedBindingType(SlangBindingType),
}

/// The Vulkan set of reflected set `index`: sets at or after the bindless
/// set move up by one to make room for it, then the base is added.
pub open spec fn corrected_set(base_set: i64, bindless_space_index: Option<i32>, index: i64) -> int {
    base_set + match bindless_space_index {
        Some(space) => if index >= space {
            index + 1
        } else {
            index as int
        },
        None => index as int,
    }
}

/// The state of a walk over a reflected layout.
#[derive(Debug, Clone, Copy, PartialEq, Eq, Structural)]
pub struct ReflectState {
    pub bindless_space_index: Option<i32>,
    pub base_stage: Option<SlangShaderStage>,
    pub base_set: i64,
}

impl ReflectState {
    /// The state at the root: no stage yet, sets counted from zero.
    pub fn new(bindless_space_index: Option<i32>) -> (r: Self)
        ensures
            r == (ReflectState { bindless_space_index, base_stage: None, base_set: 0 }),
    {
        ReflectState { bindless_space_index, base_stage: None, base_set: 0 }
    }

    /// The Vulkan set of reflected set `index`.
    pub fn set(&self, index: i64) -> (r: i64)
        requires
            i64::MIN <= corrected_set(self.base_set, self.bindless_space_index, index) <= i64::MAX,
            index < i64::MAX,
        ensures
            r == corrected_set(self.base_set, self.bindless_space_index, index),
    {
        let corrected = match self.bindless_space_index {
            Some(space_index) => {
                if index >= space_index as i64 {
                    index + 1
                } else {
                    index
                }
            },
            None => index,
        };
        self.base_set + corrected
    }

    /// Enters the parameters of an entry point of `stage`.
    pub fn set_stage(&mut self, stage: SlangShaderStage)
        ensures
            *final(self) == (ReflectState { base_stage: Some(stage), ..*old(self) }),
    {
        self.base_stage = Some(stage);
    }

    /// Moves the base set by `value`, as a variable's register-space offset
    /// does.
    pub fn increment_set(&mut self, value: i64)
        requires
            i64::MIN <= old(self).base_set + value <= i64::MAX,
        ensures
            *final(self) == (ReflectState { base_set: (old(self).base_set + value) as i64, ..*old(self) }),
    {
        self.base_set = self.base_set + value;
    }
}

/// The Vulkan descriptor type of a reflected binding type, for a printout:
/// push constants and binding types without a descriptor are refused.
pub open spec fn printed_descriptor_type(binding_type: SlangBindingType) -> Result<i32, ReflectError> {
    match descriptor_type_of(binding_type) {
        Ok(Some(ty)) => Ok(ty),
        Ok(None) => Err(ReflectError::PushConstantNotDescriptor),
        Err(_) => Err(ReflectError::UnsupportedBindingType(binding_type)),
    }
}

/// The Vulkan descriptor type of a reflected binding type, for a printout.
pub fn reflect_descriptor_type(binding_type: SlangBindingType) -> (r: Result<i32, ReflectError>)
    ensures
        r == printed_descriptor_type(binding_type),
{
    match map_descriptor_type(binding_type) {
        Ok(Some(ty)) => Ok(ty),
        Ok(None) => Err(ReflectError::PushConstantNotDescriptor),
        Err(LayoutBuildError::UnsupportedBindingType(_)) => Err(ReflectError::UnsupportedBindingType(binding_type)),
    }
}

} // verus!
