use vstd::prelude::*;

verus! {

/// Bit of the graphics role.
pub const ROLE_GRAPHICS: u8 = 0b0001;
/// Bit of the compute role.
pub const ROLE_COMPUTE: u8 = 0b0010;
/// Bit of the transfer role.
pub const ROLE_TRANSFER: u8 = 0b0100;
/// Bit of the present role.
pub const ROLE_PRESENT: u8 = 0b1000;
/// All role bits.
pub const ROLE_ALL: u8 = 0b1111;

/// Vulkan's `VK_QUEUE_GRAPHICS_BIT`.
pub const VK_QUEUE_GRAPHICS: u32 = 0x1;
/// Vulkan's `VK_QUEUE_COMPUTE_BIT`.
pub const VK_QUEUE_COMPUTE: u32 = 0x2;
/// Vulkan's `VK_QUEUE_TRANSFER_BIT`.
pub const VK_QUEUE_TRANSFER: u32 = 0x4;

/// The roles a queue can play: a set of the four role bits.
#[derive(Debug, Default, Clone, Copy, PartialEq, Eq, Structural)]
pub struct QueueRoleFlags {
    pub bits: u8,
}

impl QueueRoleFlags {
    /// Flags are well formed when no bit outside the four roles is set.
    pub open spec fn wf(self) -> bool {
        self.bits & ROLE_ALL == self.bits
    }

    /// The set of roles named by the flags.
    pub open spec fn has(self, role: u8) -> bool {
        self.bits & role == role
    }

    pub fn empty() -> (r: Self)
        ensures
            r.bits == 0,
    {
        QueueRoleFlags { bits: 0 }
    }

    pub fn graphics() -> (r: Self)
        ensures
            r.bits == ROLE_GRAPHICS,
    {
        QueueRoleFlags { bits: ROLE_GRAPHICS }
    }

    pub fn compute() -> (r: Self)
        ensures
            r.bits == ROLE_COMPUTE,
    {
        QueueRoleFlags { bits: ROLE_COMPUTE }
    }

    pub fn transfer() -> (r: Self)
        ensures
            r.bits == ROLE_TRANSFER,
    {
        QueueRoleFlags { bits: ROLE_TRANSFER }
    }

    pub fn present() -> (r: Self)
        ensures
            r.bits == ROLE_PRESENT,
    {
        QueueRoleFlags { bits: ROLE_PRESENT }
    }

    /// Flags from raw bits, dropping bits that name no role.
    pub fn from_bits_truncate(bits: u8) -> (r: Self)
        ensures
            r.bits == bits & ROLE_ALL,
            r.wf(),
    {
        let b = bits & ROLE_ALL;
        assert(b & ROLE_ALL == b) by (bit_vector)
            requires
                b == bits & 0b1111u8,
        ;
        QueueRoleFlags { bits: b }
    }

    pub fn bits(self) -> (r: u8)
        ensures
            r == self.bits,
    {
        self.bits
    }

    pub fn is_empty(self) -> (r: bool)
        ensures
            r == (self.bits == 0),
    {
        self.bits == 0
    }

    /// True when every role of `other` is also a role of `self`.
    pub fn contains(self, other: Self) -> (r: bool)
        ensures
            r == (self.bits & other.bits == other.bits),
    {
        self.bits & other.bits == other.bits
    }

    /// The roles of either.
    pub fn union(self, other: Self) -> (r: Self)
        ensures
            r.bits == self.bits | other.bits,
    {
        QueueRoleFlags { bits: self.bits | other.bits }
    }

    /// The roles of both.
    pub fn intersection(self, other: Self) -> (r: Self)
        ensures
            r.bits == self.bits & other.bits,
    {
        QueueRoleFlags { bits: self.bits & other.bits }
    }

    /// The roles of `self` that `other` lacks.
    pub fn difference(self, other: Self) -> (r: Self)
        ensures
            r.bits == self.bits & !other.bits,
    {
        QueueRoleFlags { bits: self.bits & !other.bits }
    }

    /// The roles of a Vulkan queue family from its `VkQueueFlags` bits:
    /// graphics, compute and transfer carry over; every other bit is dropped.
    pub fn from_queue_flags(flags: u32) -> (r: Self)
        ensures
            r.bits as u32 == flags & 0b0111u32,
            r.wf(),
    {
        let g: u8 = if flags & VK_QUEUE_GRAPHICS == VK_QUEUE_GRAPHICS {
            ROLE_GRAPHICS
        } else {
            0
        };
        let c: u8 = if flags & VK_QUEUE_COMPUTE == VK_QUEUE_COMPUTE {
            ROLE_COMPUTE
        } else {
            0
        };
        let t: u8 = if flags & VK_QUEUE_TRANSFER == VK_QUEUE_TRANSFER {
            ROLE_TRANSFER
        } else {
            0
        };
        let b = g | c | t;
        assert(b as u32 == flags & 0b0111u32 && b & 0b1111u8 == b) by (bit_vector)
            requires
                g == (if flags & 1u32 == 1u32 { 1u8 } else { 0u8 }),
                c == (if flags & 2u32 == 2u32 { 2u8 } else { 0u8 }),
                t == (if flags & 4u32 == 4u32 { 4u8 } else { 0u8 }),
                b == g | c | t,
        ;
        let roles = QueueRoleFlags { bits: b };
        roles
    }

    /// The number of roles set.
    pub fn count(self) -> (r: u32)
        ensures
            r == role_count(self.bits),
    {
        let mut n: u32 = 0;
        if self.bits & ROLE_GRAPHICS != 0 {
            n = n + 1;
        }
        if self.bits & ROLE_COMPUTE != 0 {
            n = n + 1;
        }
        if self.bits & ROLE_TRANSFER != 0 {
            n = n + 1;
        }
        if self.bits & ROLE_PRESENT != 0 {
            n = n + 1;
        }
        n
    }
}

/// The number of role bits set among the four.
pub open spec fn role_count(bits: u8) -> nat {
    (if bits & ROLE_GRAPHICS != 0 { 1nat } else { 0nat }) + (if bits & ROLE_COMPUTE != 0 {
        1nat
    } else {
        0nat
    }) + (if bits & ROLE_TRANSFER != 0 { 1nat } else { 0nat }) + (if bits & ROLE_PRESENT != 0 {
        1nat
    } else {
        0nat
    })
}

} // verus!
