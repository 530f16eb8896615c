use vstd::prelude::*;
use crate::gpu::ids::QueueGroupId;

verus! {

/// Names one lane: a queue of a queue group. `offset` is the position of the
/// group's first lane among all lanes, `index` the lane inside the group.
#[derive(Debug, Clone, Copy, PartialEq, Eq, PartialOrd, Ord, Hash, Structural)]
pub struct LaneKey {
    pub offset: u16,
    pub group: u8,
    pub index: u8,
}

impl LaneKey {
    /// The group the lane belongs to.
    pub fn queue_group(&self) -> (r: QueueGroupId)
        ensures
            r.0 == self.group,
    {
        QueueGroupId(self.group)
    }

    /// The lane's index inside its group.
    pub fn index(&self) -> (r: usize)
        ensures
            r == self.index as usize,
    {
        self.index as usize
    }

    /// The key of lane `index` of `group`, with offset 0; the index keeps its
    /// low 8 bits.
    pub fn from_group_index(group: QueueGroupId, index: usize) -> (r: Self)
        ensures
            r.offset == 0,
            r.group == group.0,
            r.index == index as u8,
            r.index == index % 256,
    {
        let i = index as u8;
        assert(i == index % 256) by (bit_vector)
            requires
                i == index as u8,
        ;
        LaneKey { offset: 0, group: group.0, index: i }
    }

    /// The lane's position among all lanes: offset plus index.
    pub fn position(self) -> (r: u32)
        ensures
            r == self.offset as u32 + self.index as u32,
    {
        (self.offset as u32) + (self.index as u32)
    }
}

impl Default for LaneKey {
    /// The placeholder key: every field at its maximum.
    fn default() -> (r: Self)
        ensures
            r.offset == u16::MAX,
            r.group == u8::MAX,
            r.index == u8::MAX,
    {
        LaneKey { offset: u16::MAX, group: u8::MAX, index: u8::MAX }
    }
}

} // verus!
