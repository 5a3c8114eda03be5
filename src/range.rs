use vstd::prelude::*;

verus! {

/// How urgently the wallet wants a range of blocks scanned, lowest first.
#[derive(Clone, Copy, Debug, PartialEq, Eq, Structural)]
pub enum ScanPriority {
    /// Blocks the wallet has no interest in.
    Ignored,
    /// Blocks already scanned.
    Scanned,
    /// Blocks between the wallet birthday and the first known note.
    Historic,
    /// Blocks next to a range that has been scanned.
    OpenAdjacent,
    /// Blocks known to hold a note of the wallet.
    FoundNote,
    /// Blocks near the chain tip.
    ChainTip,
    /// Blocks that must be rescanned to confirm an earlier view of the chain.
    Verify,
}

/// Position of a priority in the order `Ignored < Scanned < ... < Verify`.
pub open spec fn rank(p: ScanPriority) -> nat {
    match p {
        ScanPriority::Ignored => 0,
        ScanPriority::Scanned => 1,
        ScanPriority::Historic => 2,
        ScanPriority::OpenAdjacent => 3,
        ScanPriority::FoundNote => 4,
        ScanPriority::ChainTip => 5,
        ScanPriority::Verify => 6,
    }
}

impl ScanPriority {
    /// Position of this priority in the priority order.
    pub fn rank(&self) -> (r: u8)
        ensures
            r as nat == rank(*self),
    {
        match self {
            ScanPriority::Ignored => 0,
            ScanPriority::Scanned => 1,
            ScanPriority::Historic => 2,
            ScanPriority::OpenAdjacent => 3,
            ScanPriority::FoundNote => 4,
            ScanPriority::ChainTip => 5,
            ScanPriority::Verify => 6,
        }
    }

    /// Whether this priority is strictly more urgent than `other`.
    pub fn outranks(&self, other: &ScanPriority) -> (r: bool)
        ensures
            r == (rank(*self) > rank(*other)),
    {
        self.rank() > other.rank()
    }
}

/// The half-open interval of block heights `[start, end)` that the wallet
/// wants scanned, with its priority. A range whose `start` is not below its
/// `end` holds no block.
#[derive(Clone, Copy, Debug, PartialEq, Eq, Structural)]
pub struct ScanRange {
    pub start: u32,
    pub end: u32,
    pub priority: ScanPriority,
}

impl ScanRange {
    /// Number of blocks in the range.
    pub open spec fn size(self) -> nat {
        if self.start < self.end {
            (self.end - self.start) as nat
        } else {
            0
        }
    }

    /// Whether `h` lies in the range.
    pub open spec fn holds(self, h: int) -> bool {
        self.start <= h < self.end
    }

    /// The range `[start, end)` with the given priority.
    pub fn from_parts(start: u32, end: u32, priority: ScanPriority) -> (r: ScanRange)
        ensures
            r == (ScanRange { start, end, priority }),
    {
        ScanRange { start, end, priority }
    }

    /// Number of blocks in the range.
    pub fn len(&self) -> (r: u32)
        ensures
            r as nat == self.size(),
    {
        if self.start < self.end {
            self.end - self.start
        } else {
            0
        }
    }

    /// Whether the range holds no block.
    pub fn is_empty(&self) -> (r: bool)
        ensures
            r == (self.size() == 0),
    {
        self.start >= self.end
    }
}

} // verus!
