use vstd::prelude::*;

verus! {

/// Identifier of a Vulkan queue family.
#[derive(Debug, Clone, Copy, PartialEq, Eq, PartialOrd, Ord, Hash, Structural)]
pub struct QueueFamilyId(pub u32);

impl QueueFamilyId {
    /// A family id from its Vulkan family index.
    pub fn from_u32(value: u32) -> (r: Self)
        ensures
            r.0 == value,
    {
        QueueFamilyId(value)
    }

    /// A family id from a `usize` index; the index is truncated to 32 bits.
    pub fn from_usize(value: usize) -> (r: Self)
        ensures
            r.0 == value as u32,
    {
        QueueFamilyId(value as u32)
    }

    /// The Vulkan family index.
    pub fn into_u32(self) -> (r: u32)
        ensures
            r == self.0,
    {
        self.0
    }
}

/// A queue, named by its family and its index inside the family.
#[derive(Debug, Clone, Copy, PartialEq, Eq, Hash, PartialOrd, Ord, Structural)]
pub struct QueueId {
    pub family: QueueFamilyId,
    pub index: u32,
}

/// Identifier of a queue group (at most 256 groups).
#[derive(Debug, Clone, Copy, PartialEq, Eq, PartialOrd, Ord, Hash, Structural)]
pub struct QueueGroupId(pub u8);

/// Why a `u32` is not a queue group id.
#[derive(Debug, Clone, Copy, PartialEq, Eq, Structural)]
pub enum QueueGroupIdError {
    OutOfRange,
}

impl QueueGroupId {
    /// A group id from a `u8`.
    pub fn from_u8(value: u8) -> (r: Self)
        ensures
            r.0 == value,
    {
        QueueGroupId(value)
    }

    /// A group id from a `u32`; fails when the value does not fit in a `u8`.
    pub fn try_from_u32(value: u32) -> (r: Result<Self, QueueGroupIdError>)
        ensures
            value <= u8::MAX ==> r == Ok::<Self, QueueGroupIdError>(QueueGroupId(value as u8)),
            value > u8::MAX ==> r == Err::<Self, QueueGroupIdError>(QueueGroupIdError::OutOfRange),
    {
        if value <= 255 {
            Ok(QueueGroupId(value as u8))
        } else {
            Err(QueueGroupIdError::OutOfRange)
        }
    }

    /// The id as a `u32`.
    pub fn into_u32(self) -> (r: u32)
        ensures
            r == self.0 as u32,
    {
        self.0 as u32
    }

    /// The id as a `u8`.
    pub fn into_u8(self) -> (r: u8)
        ensures
            r == self.0,
    {
        self.0
    }
}

/// Identifier of a physical device: its index in the enumeration order.
#[derive(Debug, Clone, Copy)]
pub struct DeviceId(pub usize);

impl DeviceId {
    pub fn from_usize(value: usize) -> (r: Self)
        ensures
            r.0 == value,
    {
        DeviceId(value)
    }

    pub fn into_usize(self) -> (r: usize)
        ensures
            r == self.0,
    {
        self.0
    }
}

/// The kind of a physical device.
#[derive(Debug, Clone, Copy, PartialEq, Eq, Structural)]
pub enum DeviceKind {
    Integrated,
    Discrete,
}

/// Optional Vulkan validation features.
#[derive(Default, Clone, Copy)]
pub struct ValidationFeatures {
    pub best_practices: bool,
    pub debug_printf: bool,
    pub gpu_assisted: bool,
    pub synchronization_validation: bool,
}

} // verus!
