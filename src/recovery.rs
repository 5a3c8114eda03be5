use vstd::prelude::*;

use crate::range::{rank, ScanPriority, ScanRange};

verus! {

/// Number of blocks to rewind below the height at which a continuity error
/// was found.
pub const REWIND_MARGIN: u32 = 10;

/// The height to rewind to after a continuity error at `at_height`:
/// `margin` blocks lower, but not below zero.
pub open spec fn rewind_target(at_height: u32, margin: u32) -> u32 {
    if at_height >= margin {
        (at_height - margin) as u32
    } else {
        0
    }
}

/// How far to rewind the wallet and the block cache after a continuity error.
#[derive(Clone, Copy, Debug, PartialEq, Eq, Structural)]
pub struct RewindPolicy {
    pub margin: u32,
}

impl RewindPolicy {
    /// A policy that rewinds `margin` blocks below the failing height; the
    /// margin is at least one block, so the rewind goes strictly before it.
    pub fn with_margin(margin: u32) -> (r: RewindPolicy)
        requires
            margin > 0,
        ensures
            r.margin == margin,
    {
        RewindPolicy { margin }
    }

    /// The usual policy: rewind `REWIND_MARGIN` blocks.
    pub fn standard() -> (r: RewindPolicy)
        ensures
            r.margin == REWIND_MARGIN,
    {
        RewindPolicy { margin: REWIND_MARGIN }
    }

    /// The height to rewind to after a continuity error at `at_height`.
    pub fn target(&self, at_height: u32) -> (r: u32)
        ensures
            r == rewind_target(at_height, self.margin),
            r <= at_height,
            self.margin > 0 && at_height > 0 ==> r < at_height,
    {
        if at_height >= self.margin {
            at_height - self.margin
        } else {
            0
        }
    }
}

/// Why a synchronisation pass stopped without reaching the chain tip.
#[derive(Clone, Copy, Debug, PartialEq, Eq, Structural)]
pub enum SyncError {
    /// The service reported a tip height that is not a block height.
    InvalidTipHeight { reported: u64 },
    /// An outcome was reported that the current step does not wait for.
    OutOfOrder,
}

/// What a completed synchronisation pass reports.
#[derive(Clone, Copy, Debug, PartialEq, Eq, Structural)]
pub struct SyncResult {
    pub tip_height: u32,
}

/// Reads the tip height reported by the service as a block height.
pub fn tip_height_from(reported: u64) -> (r: Result<u32, SyncError>)
    ensures
        reported <= u32::MAX ==> r == Ok::<u32, SyncError>(reported as u32),
        reported > u32::MAX ==> r == Err::<u32, SyncError>(SyncError::InvalidTipHeight { reported }),
{
    if reported <= u32::MAX as u64 {
        Ok(reported as u32)
    } else {
        Err(SyncError::InvalidTipHeight { reported })
    }
}

/// Whether a clean scan of a range of priority `scanned` changed the wallet's
/// suggestions materially: the first range it now suggests is more urgent.
pub open spec fn ranges_changed(scanned: ScanPriority, after: Seq<ScanRange>) -> bool {
    after.len() > 0 && rank(after[0].priority) > rank(scanned)
}

/// Whether the suggestions `after` a clean scan of a range of priority
/// `scanned` put more urgent work first.
pub fn suggestions_changed(scanned: ScanPriority, after: &Vec<ScanRange>) -> (r: bool)
    ensures
        r == ranges_changed(scanned, after@),
{
    if after.len() == 0 {
        false
    } else {
        after[0].priority.outranks(&scanned)
    }
}

} // verus!
