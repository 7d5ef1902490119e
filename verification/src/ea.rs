//! Effective addresses: a segment and an offset into it.

use vstd::prelude::*;

verus! {

/// Identifies one segment of the program being disassembled.
#[derive(Clone, Copy, Debug, PartialEq, Eq, Structural, Hash, PartialOrd, Ord)]
pub struct SegId(pub u16);

/// An effective address: the segment it lies in and the offset inside that segment.
#[derive(Clone, Copy, Debug, PartialEq, Eq, Structural, Hash)]
pub struct EA {
    pub seg: SegId,
    pub offs: usize,
}

impl EA {
    /// The address at offset `offs` of segment `seg`.
    pub fn new(seg: SegId, offs: usize) -> (r: EA)
        ensures
            r.seg == seg,
            r.offs == offs,
    {
        EA { seg, offs }
    }

    /// The segment of this address.
    pub fn seg(&self) -> (r: SegId)
        ensures
            r == self.seg,
    {
        self.seg
    }

    /// The offset of this address inside its segment.
    pub fn offs(&self) -> (r: usize)
        ensures
            r == self.offs,
    {
        self.offs
    }
}

} // verus!
