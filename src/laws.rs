use vstd::prelude::*;

use crate::batch::{batch_end, batches, lemma_batches_cover, plan_batches};
use crate::orchestrator::{
    continuity_step, initial, ranges_step, rewound_step, roots_stored_step, scanned_step,
    tip_step, verify_first, Action, Phase, SyncModel,
};
use crate::range::ScanRange;
use crate::recovery::{ranges_changed, rewind_target, SyncError, SyncResult};

verus! {

/// A pass over a wallet that has nothing left to scan (no suggested range
/// holds a block, and none is a verification range first) stores the
/// subtree roots, reads the tip, asks the wallet twice and finishes at that
/// tip: it never scans or rewinds, so running it again against the same tip
/// does the same and reports the same height.
pub proof fn lemma_caught_up_pass(
    batch_size: u32,
    margin: u32,
    tip: u32,
    rs1: Seq<ScanRange>,
    rs2: Seq<ScanRange>,
)
    requires
        !verify_first(rs1),
        !verify_first(rs2),
        forall|i: int| 0 <= i < rs2.len() ==> (#[trigger] rs2[i]).start >= rs2[i].end,
    ensures
        ({
            let (m1, a1) = roots_stored_step(initial(batch_size, margin));
            let (m2, a2) = tip_step(m1, tip as u64);
            let (m3, a3) = ranges_step(m2, rs1);
            let (m4, a4) = ranges_step(m3, rs2);
            &&& a1 == Ok::<Action, SyncError>(Action::FetchTip)
            &&& a2 == Ok::<Action, SyncError>(Action::UpdateChainTip(tip))
            &&& a3 == Ok::<Action, SyncError>(Action::SuggestRanges)
            &&& a4 == Ok::<Action, SyncError>(Action::Finish(SyncResult { tip_height: tip }))
            &&& m4.phase == Phase::Converged { tip }
        }),
{
    lemma_plan_of_empty_ranges(rs2, batch_size);
}

/// Ranges that hold no block plan no batch.
proof fn lemma_plan_of_empty_ranges(rs: Seq<ScanRange>, size: u32)
    requires
        forall|i: int| 0 <= i < rs.len() ==> (#[trigger] rs[i]).start >= rs[i].end,
    ensures
        plan_batches(rs, size).len() == 0,
    decreases rs.len(),
{
    if rs.len() > 0 {
        let t = rs.drop_first();
        assert forall|i: int| 0 <= i < t.len() implies (#[trigger] t[i]).start >= t[i].end by {
            assert(t[i] == rs[i + 1]);
        }
        lemma_plan_of_empty_ranges(t, size);
        assert(rs[0].start >= rs[0].end);
    }
}

/// While the wallet's suggestions put a verification range first, that
/// range is scanned before anything else, whether the suggestions were asked
/// for to resolve verification or to plan the main pass; the main pass is
/// planned only once the first suggestion is not a verification range.
pub proof fn lemma_verify_first(m: SyncModel, rs: Seq<ScanRange>)
    requires
        m.phase is AwaitingVerifyRanges || m.phase is AwaitingMainRanges,
    ensures
        verify_first(rs) ==> ranges_step(m, rs).1 == Ok::<Action, SyncError>(Action::Scan(rs[0]))
            && ranges_step(m, rs).0.phase == (Phase::Verifying { tip: phase_tip(m.phase), range: rs[0] })
            && ranges_step(m, rs).0.pending.len() == 0,
        verify_first(rs) <==> ranges_step(m, rs).0.phase is Verifying,
        m.phase is AwaitingVerifyRanges ==> (ranges_step(m, rs).0.phase is AwaitingMainRanges
            <==> !verify_first(rs)),
{
}

/// The tip that a phase waiting for suggestions was started with.
pub open spec fn phase_tip(p: Phase) -> u32 {
    match p {
        Phase::AwaitingVerifyRanges { tip } => tip,
        Phase::AwaitingMainRanges { tip } => tip,
        _ => 0,
    }
}

/// Whatever comes of the scan of a verification range, the next step asks
/// the wallet afresh (directly, or after a rewind that resumes
/// verification): no batch of the main pass is scanned on the strength of
/// suggestions made before the verification.
pub proof fn lemma_verification_resolves(m: SyncModel, after: Seq<ScanRange>, at_height: u32)
    requires
        m.phase is Verifying,
    ensures
        scanned_step(m, after).1 == Ok::<Action, SyncError>(Action::SuggestRanges),
        scanned_step(m, after).0.phase is AwaitingVerifyRanges || scanned_step(m, after).0.phase is AwaitingMainRanges,
        scanned_step(m, after).0.pending.len() == 0,
        continuity_step(m, at_height).0.phase == (Phase::Rewinding {
            tip: m.phase->Verifying_tip,
            reverify: true,
        }),
        rewound_step(continuity_step(m, at_height).0).1 == Ok::<Action, SyncError>(
            Action::SuggestRanges,
        ),
        rewound_step(continuity_step(m, at_height).0).0.phase == (Phase::AwaitingVerifyRanges {
            tip: m.phase->Verifying_tip,
        }),
{
}

/// A continuity error found at `at_height` while scanning rewinds the wallet
/// and the block cache in one action to `max(0, at_height - margin)`, and
/// drops every planned batch; once rewound, the next step asks the wallet
/// (or the service) afresh, so the next batch scanned comes from
/// suggestions made after the rewind.
pub proof fn lemma_rewind(m: SyncModel, at_height: u32)
    requires
        m.phase is Verifying || m.phase is Scanning,
    ensures
        continuity_step(m, at_height).1 == Ok::<Action, SyncError>(
            Action::Rewind(rewind_target(at_height, m.margin)),
        ),
        rewind_target(at_height, m.margin) as int == if at_height >= m.margin {
            at_height - m.margin
        } else {
            0
        },
        continuity_step(m, at_height).0.phase is Rewinding,
        continuity_step(m, at_height).0.pending.len() == 0,
        rewound_step(continuity_step(m, at_height).0).1 == Ok::<Action, SyncError>(
            Action::SuggestRanges,
        ) || rewound_step(continuity_step(m, at_height).0).1 == Ok::<
            Action,
            SyncError,
        >(Action::FetchTip),
        rewound_step(continuity_step(m, at_height).0).0.pending.len() == 0,
{
}

/// The state reached from `m` after `n` clean scans, each followed by the
/// suggestions `after`.
pub open spec fn after_clean_scans(m: SyncModel, after: Seq<ScanRange>, n: nat) -> SyncModel
    decreases n,
{
    if n == 0 {
        m
    } else {
        scanned_step(after_clean_scans(m, after, (n - 1) as nat), after).0
    }
}

/// One main pass, planned from the suggestions `rs`, in which every scan
/// ends cleanly without surfacing more urgent work, scans the batches of
/// the ranges of `rs` one by one in order and then finishes at the tip
/// read at the start of the pass.
pub proof fn lemma_main_pass(m: SyncModel, rs: Seq<ScanRange>, after: Seq<ScanRange>)
    requires
        m.phase is AwaitingMainRanges,
        !verify_first(rs),
        forall|i: int|
            0 <= i < plan_batches(rs, m.batch_size).len() ==> !ranges_changed(
                #[trigger] plan_batches(rs, m.batch_size)[i].priority,
                after,
            ),
    ensures
        ({
            let tip = m.phase->AwaitingMainRanges_tip;
            let p = plan_batches(rs, m.batch_size);
            let (m1, a1) = ranges_step(m, rs);
            &&& p.len() == 0 ==> a1 == Ok::<Action, SyncError>(
                Action::Finish(SyncResult { tip_height: tip }),
            ) && m1.phase == (Phase::Converged { tip })
            &&& p.len() > 0 ==> a1 == Ok::<Action, SyncError>(Action::Scan(p[0]))
            &&& forall|n: nat|
                n < p.len() ==> (#[trigger] after_clean_scans(m1, after, n)).phase == (
                Phase::Scanning { tip, batch: p[n as int] })
            &&& forall|n: nat|
                n + 1 < p.len() ==> scanned_step(#[trigger] after_clean_scans(m1, after, n), after).1
                    == Ok::<Action, SyncError>(Action::Scan(p[n as int + 1]))
            &&& p.len() > 0 ==> scanned_step(after_clean_scans(m1, after, (p.len() - 1) as nat), after)
                == (
            SyncModel {
                phase: Phase::Converged { tip },
                pending: seq![],
                batch_size: m.batch_size,
                margin: m.margin,
            },
            Ok::<Action, SyncError>(Action::Finish(SyncResult { tip_height: tip })),
            )
        }),
{
    let tip = m.phase->AwaitingMainRanges_tip;
    let p = plan_batches(rs, m.batch_size);
    let m1 = ranges_step(m, rs).0;
    assert forall|n: nat| n < p.len() implies after_clean_scans(m1, after, n) == (SyncModel {
        phase: Phase::Scanning { tip, batch: p[n as int] },
        pending: p.skip(n as int + 1),
        batch_size: m.batch_size,
        margin: m.margin,
    }) by {
        lemma_clean_scan_state(m, rs, after, n);
    }
    assert forall|n: nat|
        n + 1 < p.len() implies scanned_step(#[trigger] after_clean_scans(m1, after, n), after).1
        == Ok::<Action, SyncError>(Action::Scan(p[n as int + 1])) by {
        lemma_clean_scan_state(m, rs, after, n);
        assert(p.skip(n as int + 1)[0] == p[n as int + 1]);
    }
    if p.len() > 0 {
        lemma_clean_scan_state(m, rs, after, (p.len() - 1) as nat);
        assert(p.skip(p.len() as int) =~= Seq::<ScanRange>::empty());
    }
}

/// The state after `n` clean scans of a main pass planned from `rs`.
proof fn lemma_clean_scan_state(m: SyncModel, rs: Seq<ScanRange>, after: Seq<ScanRange>, n: nat)
    requires
        m.phase is AwaitingMainRanges,
        !verify_first(rs),
        forall|i: int|
            0 <= i < plan_batches(rs, m.batch_size).len() ==> !ranges_changed(
                #[trigger] plan_batches(rs, m.batch_size)[i].priority,
                after,
            ),
        n < plan_batches(rs, m.batch_size).len(),
    ensures
        after_clean_scans(ranges_step(m, rs).0, after, n) == (SyncModel {
            phase: Phase::Scanning {
                tip: m.phase->AwaitingMainRanges_tip,
                batch: plan_batches(rs, m.batch_size)[n as int],
            },
            pending: plan_batches(rs, m.batch_size).skip(n as int + 1),
            batch_size: m.batch_size,
            margin: m.margin,
        }),
    decreases n,
{
    let p = plan_batches(rs, m.batch_size);
    if n == 0 {
        assert(p.drop_first() =~= p.skip(1));
    } else {
        lemma_clean_scan_state(m, rs, after, (n - 1) as nat);
        let prev = after_clean_scans(ranges_step(m, rs).0, after, (n - 1) as nat);
        assert(prev.phase->Scanning_batch == p[n - 1]);
        assert(!ranges_changed(p[n - 1].priority, after));
        assert(p.skip(n as int)[0] == p[n as int]);
        assert(p.skip(n as int).drop_first() =~= p.skip(n as int + 1));
    }
}

/// Planning a main pass loses no height of the suggested ranges and adds
/// none: a height lies in one of the ranges of `rs` exactly when it lies in
/// one of the planned batches.
pub proof fn lemma_plan_cover(rs: Seq<ScanRange>, size: u32, h: int)
    requires
        size > 0,
    ensures
        (exists|j: int| 0 <= j < rs.len() && #[trigger] rs[j].holds(h)) <==> (exists|i: int|
            0 <= i < plan_batches(rs, size).len() && #[trigger] plan_batches(rs, size)[i].holds(h)),
    decreases rs.len(),
{
    if rs.len() > 0 {
        let b = batches(rs[0], size);
        let t = rs.drop_first();
        let p = plan_batches(rs, size);
        let q = plan_batches(t, size);
        lemma_plan_cover(t, size, h);
        lemma_batches_cover(rs[0], size);
        assert(p == b + q);
        if exists|j: int| 0 <= j < rs.len() && #[trigger] rs[j].holds(h) {
            let j = choose|j: int| 0 <= j < rs.len() && #[trigger] rs[j].holds(h);
            if j == 0 {
                let i = choose|i: int| 0 <= i < b.len() && #[trigger] b[i].holds(h);
                assert(p[i] == b[i]);
            } else {
                assert(t[j - 1].holds(h));
                let i = choose|i: int| 0 <= i < q.len() && #[trigger] q[i].holds(h);
                assert(p[b.len() + i] == q[i]);
            }
        }
        if exists|i: int| 0 <= i < p.len() && #[trigger] p[i].holds(h) {
            let i = choose|i: int| 0 <= i < p.len() && #[trigger] p[i].holds(h);
            if i < b.len() {
                assert(b[i].holds(h));
                assert(rs[0].holds(h));
            } else {
                assert(q[i - b.len()].holds(h));
                let j = choose|j: int| 0 <= j < t.len() && #[trigger] t[j].holds(h);
                assert(rs[j + 1].holds(h));
            }
        }
    }
}

/// No height lies in two ranges of `s`.
pub open spec fn disjoint(s: Seq<ScanRange>) -> bool {
    forall|i: int, j: int, h: int|
        0 <= i < j < s.len() && #[trigger] s[i].holds(h) ==> !#[trigger] s[j].holds(h)
}

/// The batches of one range do not overlap.
proof fn lemma_batches_disjoint(r: ScanRange, size: u32)
    ensures
        disjoint(batches(r, size)),
    decreases r.end - r.start,
{
    let s = batches(r, size);
    if r.start < r.end {
        let cut = batch_end(r.start, r.end, size);
        let first = ScanRange { start: r.start, end: cut, priority: r.priority };
        let rest = ScanRange { start: cut, end: r.end, priority: r.priority };
        lemma_batches_disjoint(rest, size);
        let t = batches(rest, size);
        assert(s == seq![first] + t);
        assert forall|k: int, h: int| 0 <= k < t.len() && #[trigger] t[k].holds(h) implies h >= cut by {
            lemma_batch_within(rest, size, k, h);
        }
        assert forall|i: int, j: int, h: int|
            0 <= i < j < s.len() && #[trigger] s[i].holds(h) implies !#[trigger] s[j].holds(h) by {
            assert(s[j] == t[j - 1]);
            if i == 0 {
                if t[j - 1].holds(h) {
                    assert(h >= cut);
                }
            } else {
                assert(s[i] == t[i - 1]);
            }
        }
    }
}

/// Each batch of `r` lies within `r`.
proof fn lemma_batch_within(r: ScanRange, size: u32, k: int, h: int)
    requires
        0 <= k < batches(r, size).len(),
        batches(r, size)[k].holds(h),
    ensures
        r.holds(h),
    decreases r.end - r.start,
{
    if r.start < r.end {
        let cut = batch_end(r.start, r.end, size);
        let first = ScanRange { start: r.start, end: cut, priority: r.priority };
        let rest = ScanRange { start: cut, end: r.end, priority: r.priority };
        let t = batches(rest, size);
        assert(batches(r, size) == seq![first] + t);
        if k > 0 {
            assert(batches(r, size)[k] == t[k - 1]);
            lemma_batch_within(rest, size, k - 1, h);
        }
    }
}

/// Each planned batch lies within one of the suggested ranges.
proof fn lemma_plan_within(rs: Seq<ScanRange>, size: u32, k: int, h: int) -> (j: int)
    requires
        0 <= k < plan_batches(rs, size).len(),
        plan_batches(rs, size)[k].holds(h),
    ensures
        0 <= j < rs.len(),
        rs[j].holds(h),
        k < batches(rs[0], size).len() ==> j == 0,
        k >= batches(rs[0], size).len() ==> j > 0,
    decreases rs.len(),
{
    let b = batches(rs[0], size);
    let q = plan_batches(rs.drop_first(), size);
    assert(plan_batches(rs, size) == b + q);
    if k < b.len() {
        lemma_batch_within(rs[0], size, k, h);
        0
    } else {
        assert(plan_batches(rs, size)[k] == q[k - b.len()]);
        let j = lemma_plan_within(rs.drop_first(), size, k - b.len(), h);
        j + 1
    }
}

/// Planning a main pass from suggestions that do not overlap gives batches
/// that do not overlap: a pass whose scans all end cleanly scans each
/// suggested height exactly once.
pub proof fn lemma_plan_disjoint(rs: Seq<ScanRange>, size: u32)
    requires
        disjoint(rs),
    ensures
        disjoint(plan_batches(rs, size)),
    decreases rs.len(),
{
    if rs.len() > 0 {
        let b = batches(rs[0], size);
        let t = rs.drop_first();
        let q = plan_batches(t, size);
        let p = plan_batches(rs, size);
        assert(p == b + q);
        assert(disjoint(t)) by {
            assert forall|i: int, j: int, h: int|
                0 <= i < j < t.len() && #[trigger] t[i].holds(h) implies !#[trigger] t[j].holds(h) by {
                assert(rs[i + 1].holds(h));
                if t[j].holds(h) {
                    assert(rs[j + 1].holds(h));
                }
            }
        }
        lemma_plan_disjoint(t, size);
        lemma_batches_disjoint(rs[0], size);
        assert forall|i: int, j: int, h: int|
            0 <= i < j < p.len() && #[trigger] p[i].holds(h) implies !#[trigger] p[j].holds(h) by {
            if j < b.len() {
                assert(p[i] == b[i] && p[j] == b[j]);
            } else if i >= b.len() {
                assert(p[i] == q[i - b.len()] && p[j] == q[j - b.len()]);
            } else if p[j].holds(h) {
                let a = lemma_plan_within(rs, size, i, h);
                let c = lemma_plan_within(rs, size, j, h);
                assert(a == 0 && c > 0);
                assert(rs[0].holds(h));
            }
        }
    }
}

} // verus!
