use vstd::prelude::*;

use crate::batch::{batches, plan_batches, Batches};
use crate::range::{ScanPriority, ScanRange};
use crate::recovery::{
    ranges_changed, rewind_target, suggestions_changed, tip_height_from, RewindPolicy,
    SyncError, SyncResult,
};

verus! {

/// Where a synchronisation pass stands: the outcome it waits for next.
#[derive(Clone, Copy, Debug, PartialEq, Eq, Structural)]
pub enum Phase {
    /// Waiting for the subtree roots to be stored in the wallet.
    Bootstrapping,
    /// Waiting for the service's chain tip.
    AwaitingTip,
    /// Waiting for the wallet's suggestions, to resolve a verification range.
    AwaitingVerifyRanges { tip: u32 },
    /// Waiting for the scan of a verification range.
    Verifying { tip: u32, range: ScanRange },
    /// Waiting for the wallet's suggestions, to plan the main pass.
    AwaitingMainRanges { tip: u32 },
    /// Waiting for the scan of one batch of the main pass.
    Scanning { tip: u32, batch: ScanRange },
    /// Waiting for the wallet and the block cache to be rewound; `reverify`
    /// tells whether the rewind interrupted verification.
    Rewinding { tip: u32, reverify: bool },
    /// The wallet has caught up with `tip`.
    Converged { tip: u32 },
}

/// The work the caller performs next, then reports back.
#[derive(Clone, Copy, Debug, PartialEq, Eq, Structural)]
pub enum Action {
    /// Fetch the commitment-tree subtree roots and store them in the wallet.
    FetchSubtreeRoots,
    /// Ask the service for its chain tip.
    FetchTip,
    /// Hand the tip to the wallet, then report its suggested ranges.
    UpdateChainTip(u32),
    /// Report the wallet's suggested ranges.
    SuggestRanges,
    /// Download the blocks of the range into the cache, scan them, drop them
    /// from the cache, and report the outcome of the scan.
    Scan(ScanRange),
    /// Truncate the wallet and the block cache together to this height.
    Rewind(u32),
    /// The pass is over.
    Finish(SyncResult),
}

/// The abstract state of a synchronisation pass: its phase, the batches
/// planned for the rest of the main pass, and its settings.
pub struct SyncModel {
    pub phase: Phase,
    pub pending: Seq<ScanRange>,
    pub batch_size: u32,
    pub margin: u32,
}

/// `m` with a new phase and a new plan.
pub open spec fn moved(m: SyncModel, phase: Phase, pending: Seq<ScanRange>) -> SyncModel {
    SyncModel { phase, pending, batch_size: m.batch_size, margin: m.margin }
}

/// A reported outcome that the phase of `m` does not wait for.
pub open spec fn out_of_order(m: SyncModel) -> (SyncModel, Result<Action, SyncError>) {
    (m, Err(SyncError::OutOfOrder))
}

/// The state before anything is done.
pub open spec fn initial(batch_size: u32, margin: u32) -> SyncModel {
    SyncModel { phase: Phase::Bootstrapping, pending: seq![], batch_size, margin }
}

/// Hands out the next planned batch, or ends the pass at `tip` when none is
/// left.
pub open spec fn advance(m: SyncModel, tip: u32) -> (SyncModel, Result<Action, SyncError>) {
    if m.pending.len() == 0 {
        (
            moved(m, Phase::Converged { tip }, seq![]),
            Ok(Action::Finish(SyncResult { tip_height: tip })),
        )
    } else {
        (
            moved(m, Phase::Scanning { tip, batch: m.pending[0] }, m.pending.drop_first()),
            Ok(Action::Scan(m.pending[0])),
        )
    }
}

/// The subtree roots are stored: fetch the tip.
pub open spec fn roots_stored_step(m: SyncModel) -> (SyncModel, Result<Action, SyncError>) {
    match m.phase {
        Phase::Bootstrapping => (moved(m, Phase::AwaitingTip, seq![]), Ok(Action::FetchTip)),
        _ => out_of_order(m),
    }
}

/// The service reported its tip: hand it to the wallet if it is a height.
pub open spec fn tip_step(m: SyncModel, reported: u64) -> (SyncModel, Result<Action, SyncError>) {
    match m.phase {
        Phase::AwaitingTip => if reported <= u32::MAX {
            (
                moved(m, Phase::AwaitingVerifyRanges { tip: reported as u32 }, seq![]),
                Ok(Action::UpdateChainTip(reported as u32)),
            )
        } else {
            (m, Err(SyncError::InvalidTipHeight { reported }))
        },
        _ => out_of_order(m),
    }
}

/// Whether the first of the suggestions `rs` is a verification range.
pub open spec fn verify_first(rs: Seq<ScanRange>) -> bool {
    rs.len() > 0 && rs[0].priority == ScanPriority::Verify
}

/// The wallet reported its suggestions `rs`: scan a verification range that
/// comes first; otherwise, when resolving verification, ask again for the
/// main pass, and when planning the main pass, plan it from `rs`.
pub open spec fn ranges_step(m: SyncModel, rs: Seq<ScanRange>) -> (
    SyncModel,
    Result<Action, SyncError>,
) {
    match m.phase {
        Phase::AwaitingVerifyRanges { tip } => if verify_first(rs) {
            (moved(m, Phase::Verifying { tip, range: rs[0] }, seq![]), Ok(Action::Scan(rs[0])))
        } else {
            (moved(m, Phase::AwaitingMainRanges { tip }, seq![]), Ok(Action::SuggestRanges))
        },
        Phase::AwaitingMainRanges { tip } => if verify_first(rs) {
            (moved(m, Phase::Verifying { tip, range: rs[0] }, seq![]), Ok(Action::Scan(rs[0])))
        } else {
            advance(moved(m, m.phase, plan_batches(rs, m.batch_size)), tip)
        },
        _ => out_of_order(m),
    }
}

/// A scan ended cleanly and the wallet now suggests `after`.
pub open spec fn scanned_step(m: SyncModel, after: Seq<ScanRange>) -> (
    SyncModel,
    Result<Action, SyncError>,
) {
    match m.phase {
        Phase::Verifying { tip, range } => if ranges_changed(range.priority, after) {
            (moved(m, Phase::AwaitingVerifyRanges { tip }, seq![]), Ok(Action::SuggestRanges))
        } else {
            (moved(m, Phase::AwaitingMainRanges { tip }, seq![]), Ok(Action::SuggestRanges))
        },
        Phase::Scanning { tip, batch } => if ranges_changed(batch.priority, after) {
            (moved(m, Phase::AwaitingTip, seq![]), Ok(Action::FetchTip))
        } else {
            advance(m, tip)
        },
        _ => out_of_order(m),
    }
}

/// A scan found the chain inconsistent with the wallet at `at_height`:
/// rewind both stores and drop the plan.
pub open spec fn continuity_step(m: SyncModel, at_height: u32) -> (
    SyncModel,
    Result<Action, SyncError>,
) {
    match m.phase {
        Phase::Verifying { tip, .. } => (
            moved(m, Phase::Rewinding { tip, reverify: true }, seq![]),
            Ok(Action::Rewind(rewind_target(at_height, m.margin))),
        ),
        Phase::Scanning { tip, .. } => (
            moved(m, Phase::Rewinding { tip, reverify: false }, seq![]),
            Ok(Action::Rewind(rewind_target(at_height, m.margin))),
        ),
        _ => out_of_order(m),
    }
}

/// The stores are rewound: ask the wallet again, from verification if the
/// rewind interrupted it, else from the tip.
pub open spec fn rewound_step(m: SyncModel) -> (SyncModel, Result<Action, SyncError>) {
    match m.phase {
        Phase::Rewinding { tip, reverify } => if reverify {
            (moved(m, Phase::AwaitingVerifyRanges { tip }, seq![]), Ok(Action::SuggestRanges))
        } else {
            (moved(m, Phase::AwaitingTip, seq![]), Ok(Action::FetchTip))
        },
        _ => out_of_order(m),
    }
}

/// Decides, one outcome at a time, what a synchronisation pass does next.
pub struct SyncOrchestrator {
    phase: Phase,
    batch_size: u32,
    policy: RewindPolicy,
    ranges: Vec<ScanRange>,
    next: usize,
    batches: Batches,
}

/// `plan_batches` of a suffix is the batches of its first range followed by
/// those of the next suffix.
proof fn lemma_plan_skip(rs: Seq<ScanRange>, k: int, size: u32)
    requires
        0 <= k < rs.len(),
    ensures
        plan_batches(rs.skip(k), size) == batches(rs[k], size) + plan_batches(
            rs.skip(k + 1),
            size,
        ),
{
    assert(rs.skip(k).drop_first() =~= rs.skip(k + 1));
    assert(rs.skip(k)[0] == rs[k]);
}

impl SyncOrchestrator {
    /// The abstract state: the phase, the batches still planned (those left
    /// of the current range, then those of the ranges not yet opened), and
    /// the settings.
    pub closed spec fn view(&self) -> SyncModel {
        SyncModel {
            phase: self.phase,
            pending: self.batches.remaining() + plan_batches(
                self.ranges@.skip(self.next as int),
                self.batch_size,
            ),
            batch_size: self.batch_size,
            margin: self.policy.margin,
        }
    }

    /// The index of the next range to open lies within the plan, batches
    /// hold at least one block and a rewind goes at least one block back.
    pub closed spec fn wf(&self) -> bool {
        &&& self.next <= self.ranges.len()
        &&& self.batch_size > 0
        &&& self.policy.margin > 0
    }

    /// A pass that splits ranges into batches of at most `batch_size`
    /// blocks and rewinds as `policy` says, with the action to perform first.
    pub fn start(batch_size: u32, policy: RewindPolicy) -> (r: (SyncOrchestrator, Action))
        requires
            batch_size > 0,
            policy.margin > 0,
        ensures
            r.0.wf(),
            r.0@ == initial(batch_size, policy.margin),
            r.1 == Action::FetchSubtreeRoots,
    {
        let s = SyncOrchestrator {
            phase: Phase::Bootstrapping,
            batch_size,
            policy,
            ranges: Vec::new(),
            next: 0,
            batches: Batches::new(ScanRange::from_parts(0, 0, ScanPriority::Ignored), batch_size),
        };
        proof {
            assert(s.ranges@.skip(0) =~= Seq::<ScanRange>::empty());
            assert(s@.pending =~= seq![]);
        }
        (s, Action::FetchSubtreeRoots)
    }

    /// The phase the pass is in.
    pub fn phase(&self) -> (r: Phase)
        ensures
            r == self@.phase,
    {
        self.phase
    }

    /// Replaces the plan of the main pass by the batches of `ranges`.
    fn set_plan(&mut self, ranges: Vec<ScanRange>)
        requires
            old(self).wf(),
        ensures
            final(self).wf(),
            final(self)@ == moved(old(self)@, old(self)@.phase, plan_batches(ranges@, old(self)@.batch_size)),
    {
        self.ranges = ranges;
        self.next = 0;
        self.batches = Batches::new(ScanRange::from_parts(0, 0, ScanPriority::Ignored), self.batch_size);
        proof {
            assert(self.ranges@.skip(0) =~= self.ranges@);
            assert(self@.pending =~= plan_batches(ranges@, self.batch_size));
        }
    }

    /// Drops what is left of the plan of the main pass.
    fn clear_plan(&mut self)
        requires
            old(self).wf(),
        ensures
            final(self).wf(),
            final(self)@ == moved(old(self)@, old(self)@.phase, seq![]),
    {
        self.set_plan(Vec::new());
        proof {
            assert(plan_batches(Seq::<ScanRange>::empty(), self.batch_size) == Seq::<ScanRange>::empty());
        }
    }

    /// Takes the next planned batch, if one is left.
    fn next_planned(&mut self) -> (r: Option<ScanRange>)
        requires
            old(self).wf(),
        ensures
            final(self).wf(),
            final(self)@.phase == old(self)@.phase,
            final(self)@.batch_size == old(self)@.batch_size,
            final(self)@.margin == old(self)@.margin,
            old(self)@.pending.len() == 0 ==> r is None && final(self)@.pending.len() == 0,
            old(self)@.pending.len() > 0 ==> r == Some(old(self)@.pending[0])
                && final(self)@.pending == old(self)@.pending.drop_first(),
    {
        loop
            invariant
                self.wf(),
                self@ == old(self)@,
            decreases self.ranges.len() - self.next,
        {
            let ghost rest = self.batches.remaining();
            let ghost later = plan_batches(self.ranges@.skip(self.next as int), self.batch_size);
            match self.batches.next_batch() {
                Some(b) => {
                    proof {
                        assert(self@.pending =~= (rest + later).drop_first());
                    }
                    return Some(b);
                },
                None => {
                    if self.next < self.ranges.len() {
                        proof {
                            lemma_plan_skip(self.ranges@, self.next as int, self.batch_size);
                        }
                        self.batches = Batches::new(self.ranges[self.next], self.batch_size);
                        self.next = self.next + 1;
                        proof {
                            assert(self@.pending =~= old(self)@.pending);
                        }
                    } else {
                        proof {
                            assert(self.ranges@.skip(self.next as int) =~= Seq::<ScanRange>::empty());
                        }
                        return None;
                    }
                },
            }
        }
    }

    /// Hands out the next planned batch, or ends the pass at `tip`.
    fn advance_plan(&mut self, tip: u32) -> (r: Result<Action, SyncError>)
        requires
            old(self).wf(),
        ensures
            final(self).wf(),
            (final(self)@, r) == advance(old(self)@, tip),
    {
        match self.next_planned() {
            Some(b) => {
                self.phase = Phase::Scanning { tip, batch: b };
                Ok(Action::Scan(b))
            },
            None => {
                self.clear_plan();
                self.phase = Phase::Converged { tip };
                Ok(Action::Finish(SyncResult { tip_height: tip }))
            },
        }
    }

    /// The subtree roots are stored in the wallet.
    pub fn on_subtree_roots_stored(&mut self) -> (r: Result<Action, SyncError>)
        requires
            old(self).wf(),
        ensures
            final(self).wf(),
            (final(self)@, r) == roots_stored_step(old(self)@),
    {
        match self.phase {
            Phase::Bootstrapping => {
                self.clear_plan();
                self.phase = Phase::AwaitingTip;
                Ok(Action::FetchTip)
            },
            _ => Err(SyncError::OutOfOrder),
        }
    }

    /// The service reported `reported` as its chain tip.
    pub fn on_tip_reported(&mut self, reported: u64) -> (r: Result<Action, SyncError>)
        requires
            old(self).wf(),
        ensures
            final(self).wf(),
            (final(self)@, r) == tip_step(old(self)@, reported),
    {
        match self.phase {
            Phase::AwaitingTip => match tip_height_from(reported) {
                Ok(tip) => {
                    self.clear_plan();
                    self.phase = Phase::AwaitingVerifyRanges { tip };
                    Ok(Action::UpdateChainTip(tip))
                },
                Err(e) => Err(e),
            },
            _ => Err(SyncError::OutOfOrder),
        }
    }

    /// The wallet suggested `ranges`, most urgent first.
    pub fn on_ranges(&mut self, ranges: Vec<ScanRange>) -> (r: Result<Action, SyncError>)
        requires
            old(self).wf(),
        ensures
            final(self).wf(),
            (final(self)@, r) == ranges_step(old(self)@, ranges@),
    {
        match self.phase {
            Phase::AwaitingVerifyRanges { tip } => {
                self.clear_plan();
                if ranges.len() > 0 && ranges[0].priority == ScanPriority::Verify {
                    let range = ranges[0];
                    self.phase = Phase::Verifying { tip, range };
                    Ok(Action::Scan(range))
                } else {
                    self.phase = Phase::AwaitingMainRanges { tip };
                    Ok(Action::SuggestRanges)
                }
            },
            Phase::AwaitingMainRanges { tip } => {
                if ranges.len() > 0 && ranges[0].priority == ScanPriority::Verify {
                    self.clear_plan();
                    let range = ranges[0];
                    self.phase = Phase::Verifying { tip, range };
                    Ok(Action::Scan(range))
                } else {
                    self.set_plan(ranges);
                    self.advance_plan(tip)
                }
            },
            _ => Err(SyncError::OutOfOrder),
        }
    }

    /// The scan asked for ended cleanly, and the wallet now suggests `after`.
    pub fn on_scanned(&mut self, after: &Vec<ScanRange>) -> (r: Result<Action, SyncError>)
        requires
            old(self).wf(),
        ensures
            final(self).wf(),
            (final(self)@, r) == scanned_step(old(self)@, after@),
    {
        match self.phase {
            Phase::Verifying { tip, range } => {
                self.clear_plan();
                if suggestions_changed(range.priority, after) {
                    self.phase = Phase::AwaitingVerifyRanges { tip };
                } else {
                    self.phase = Phase::AwaitingMainRanges { tip };
                }
                Ok(Action::SuggestRanges)
            },
            Phase::Scanning { tip, batch } => {
                if suggestions_changed(batch.priority, after) {
                    self.clear_plan();
                    self.phase = Phase::AwaitingTip;
                    Ok(Action::FetchTip)
                } else {
                    self.advance_plan(tip)
                }
            },
            _ => Err(SyncError::OutOfOrder),
        }
    }

    /// The scan asked for found the chain inconsistent with the wallet at
    /// `at_height`.
    pub fn on_continuity_error(&mut self, at_height: u32) -> (r: Result<Action, SyncError>)
        requires
            old(self).wf(),
        ensures
            final(self).wf(),
            (final(self)@, r) == continuity_step(old(self)@, at_height),
    {
        let (tip, reverify) = match self.phase {
            Phase::Verifying { tip, .. } => (tip, true),
            Phase::Scanning { tip, .. } => (tip, false),
            _ => {
                return Err(SyncError::OutOfOrder);
            },
        };
        let target = self.policy.target(at_height);
        self.clear_plan();
        self.phase = Phase::Rewinding { tip, reverify };
        Ok(Action::Rewind(target))
    }

    /// The wallet and the block cache have been rewound.
    pub fn on_rewound(&mut self) -> (r: Result<Action, SyncError>)
        requires
            old(self).wf(),
        ensures
            final(self).wf(),
            (final(self)@, r) == rewound_step(old(self)@),
    {
        match self.phase {
            Phase::Rewinding { tip, reverify } => {
                self.clear_plan();
                if reverify {
                    self.phase = Phase::AwaitingVerifyRanges { tip };
                    Ok(Action::SuggestRanges)
                } else {
                    self.phase = Phase::AwaitingTip;
                    Ok(Action::FetchTip)
                }
            },
            _ => Err(SyncError::OutOfOrder),
        }
    }
}

} // verus!
