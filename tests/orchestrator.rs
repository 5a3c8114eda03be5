use wallet_sync::orchestrator::{Action, Phase, SyncOrchestrator};
use wallet_sync::range::{ScanPriority, ScanRange};
use wallet_sync::recovery::{RewindPolicy, SyncError, SyncResult};

fn r(start: u32, end: u32, priority: ScanPriority) -> ScanRange {
    ScanRange::from_parts(start, end, priority)
}

fn ok(a: Result<Action, SyncError>) -> Action {
    a.expect("step refused")
}

/// Drives a fresh pass up to the point where the wallet's suggestions for
/// the verification step are asked for.
fn up_to_tip(batch_size: u32, tip: u64) -> SyncOrchestrator {
    let (mut s, first) = SyncOrchestrator::start(batch_size, RewindPolicy::standard());
    assert_eq!(first, Action::FetchSubtreeRoots);
    assert_eq!(ok(s.on_subtree_roots_stored()), Action::FetchTip);
    assert_eq!(ok(s.on_tip_reported(tip)), Action::UpdateChainTip(tip as u32));
    s
}

#[test]
fn tip_within_one_batch_is_scanned_in_one_call() {
    let mut s = up_to_tip(10_000, 1000);
    let suggested = vec![r(900, 1000, ScanPriority::ChainTip)];
    assert_eq!(ok(s.on_ranges(suggested.clone())), Action::SuggestRanges);
    assert_eq!(ok(s.on_ranges(suggested)), Action::Scan(r(900, 1000, ScanPriority::ChainTip)));
    assert_eq!(ok(s.on_scanned(&vec![])), Action::Finish(SyncResult { tip_height: 1000 }));
    assert_eq!(s.phase(), Phase::Converged { tip: 1000 });
}

#[test]
fn continuity_error_rewinds_margin_blocks_and_restarts_there() {
    let mut s = up_to_tip(10_000, 1000);
    let suggested = vec![r(400, 1000, ScanPriority::Historic)];
    assert_eq!(ok(s.on_ranges(suggested.clone())), Action::SuggestRanges);
    assert_eq!(ok(s.on_ranges(suggested)), Action::Scan(r(400, 1000, ScanPriority::Historic)));
    assert_eq!(ok(s.on_continuity_error(500)), Action::Rewind(490));
    assert_eq!(s.phase(), Phase::Rewinding { tip: 1000, reverify: false });
    assert_eq!(ok(s.on_rewound()), Action::FetchTip);
    assert_eq!(ok(s.on_tip_reported(1000)), Action::UpdateChainTip(1000));
    let suggested = vec![r(490, 1000, ScanPriority::Historic)];
    assert_eq!(ok(s.on_ranges(suggested.clone())), Action::SuggestRanges);
    match ok(s.on_ranges(suggested)) {
        Action::Scan(b) => assert_eq!(b.start, 490),
        other => panic!("expected a scan, got {:?}", other),
    }
}

#[test]
fn verification_range_is_scanned_first() {
    let mut s = up_to_tip(10, 200);
    let verify = r(150, 160, ScanPriority::Verify);
    let suggested = vec![verify, r(160, 200, ScanPriority::ChainTip), r(0, 150, ScanPriority::Historic)];
    assert_eq!(ok(s.on_ranges(suggested)), Action::Scan(verify));
    assert_eq!(s.phase(), Phase::Verifying { tip: 200, range: verify });
    assert_eq!(ok(s.on_scanned(&vec![r(160, 200, ScanPriority::ChainTip)])), Action::SuggestRanges);
    assert_eq!(s.phase(), Phase::AwaitingMainRanges { tip: 200 });
    assert_eq!(
        ok(s.on_ranges(vec![r(160, 200, ScanPriority::ChainTip)])),
        Action::Scan(r(160, 170, ScanPriority::ChainTip))
    );
}

#[test]
fn verification_range_still_first_is_scanned_again_before_main_pass() {
    let mut s = up_to_tip(10, 200);
    let verify = r(150, 160, ScanPriority::Verify);
    let rest = r(160, 200, ScanPriority::ChainTip);
    assert_eq!(ok(s.on_ranges(vec![verify, rest])), Action::Scan(verify));
    assert_eq!(ok(s.on_scanned(&vec![verify, rest])), Action::SuggestRanges);
    assert_eq!(ok(s.on_ranges(vec![verify, rest])), Action::Scan(verify));
    assert_eq!(s.phase(), Phase::Verifying { tip: 200, range: verify });
    assert_eq!(ok(s.on_scanned(&vec![rest])), Action::SuggestRanges);
    assert_eq!(ok(s.on_ranges(vec![rest])), Action::Scan(r(160, 170, ScanPriority::ChainTip)));
}

#[test]
fn continuity_error_during_verification_verifies_again() {
    let mut s = up_to_tip(10, 200);
    let verify = r(150, 160, ScanPriority::Verify);
    assert_eq!(ok(s.on_ranges(vec![verify])), Action::Scan(verify));
    assert_eq!(ok(s.on_continuity_error(155)), Action::Rewind(145));
    assert_eq!(ok(s.on_rewound()), Action::SuggestRanges);
    assert_eq!(s.phase(), Phase::AwaitingVerifyRanges { tip: 200 });
    let verify = r(145, 160, ScanPriority::Verify);
    assert_eq!(ok(s.on_ranges(vec![verify])), Action::Scan(verify));
}

#[test]
fn more_urgent_work_restarts_from_the_tip() {
    let mut s = up_to_tip(10, 100);
    let suggested = vec![r(0, 30, ScanPriority::Historic)];
    assert_eq!(ok(s.on_ranges(suggested.clone())), Action::SuggestRanges);
    assert_eq!(ok(s.on_ranges(suggested)), Action::Scan(r(0, 10, ScanPriority::Historic)));
    let after = vec![r(90, 100, ScanPriority::FoundNote), r(10, 30, ScanPriority::Historic)];
    assert_eq!(ok(s.on_scanned(&after)), Action::FetchTip);
    assert_eq!(s.phase(), Phase::AwaitingTip);
}

#[test]
fn batches_follow_range_order_and_skip_empty_ranges() {
    let mut s = up_to_tip(10, 100);
    let suggested = vec![
        r(90, 100, ScanPriority::ChainTip),
        r(50, 50, ScanPriority::Historic),
        r(0, 15, ScanPriority::Historic),
    ];
    assert_eq!(ok(s.on_ranges(suggested.clone())), Action::SuggestRanges);
    assert_eq!(ok(s.on_ranges(suggested)), Action::Scan(r(90, 100, ScanPriority::ChainTip)));
    assert_eq!(ok(s.on_scanned(&vec![])), Action::Scan(r(0, 10, ScanPriority::Historic)));
    assert_eq!(ok(s.on_scanned(&vec![])), Action::Scan(r(10, 15, ScanPriority::Historic)));
    assert_eq!(ok(s.on_scanned(&vec![])), Action::Finish(SyncResult { tip_height: 100 }));
}

#[test]
fn invalid_tip_height_is_an_error() {
    let (mut s, _) = SyncOrchestrator::start(10, RewindPolicy::standard());
    assert_eq!(ok(s.on_subtree_roots_stored()), Action::FetchTip);
    let reported = u32::MAX as u64 + 7;
    assert_eq!(s.on_tip_reported(reported), Err(SyncError::InvalidTipHeight { reported }));
    assert_eq!(s.phase(), Phase::AwaitingTip);
}

#[test]
fn outcome_out_of_order_is_refused() {
    let (mut s, _) = SyncOrchestrator::start(10, RewindPolicy::standard());
    assert_eq!(s.on_scanned(&vec![]), Err(SyncError::OutOfOrder));
    assert_eq!(s.on_tip_reported(5), Err(SyncError::OutOfOrder));
    assert_eq!(s.on_continuity_error(5), Err(SyncError::OutOfOrder));
    assert_eq!(s.on_rewound(), Err(SyncError::OutOfOrder));
    assert_eq!(s.phase(), Phase::Bootstrapping);
    assert_eq!(ok(s.on_subtree_roots_stored()), Action::FetchTip);
    assert_eq!(s.on_subtree_roots_stored(), Err(SyncError::OutOfOrder));
}

/// A wallet over a static chain: it has scanned every height below
/// `scanned_to` and suggests the rest up to the tip it was told of.
struct SimWallet {
    birthday: u32,
    scanned_to: u32,
    tip: u32,
    scans: Vec<u32>,
    writes: usize,
    fail_once_at: Option<u32>,
}

impl SimWallet {
    fn suggest(&self) -> Vec<ScanRange> {
        if self.scanned_to < self.tip {
            vec![r(self.scanned_to, self.tip, ScanPriority::ChainTip)]
        } else {
            vec![]
        }
    }
}

/// Runs one pass against the wallet and a chain of height `chain_tip`;
/// returns the result and the actions issued.
fn run_pass(w: &mut SimWallet, chain_tip: u32, batch_size: u32) -> (SyncResult, Vec<Action>) {
    let (mut s, mut action) = SyncOrchestrator::start(batch_size, RewindPolicy::standard());
    let mut log = Vec::new();
    for _ in 0..10_000 {
        log.push(action);
        action = match action {
            Action::FetchSubtreeRoots => ok(s.on_subtree_roots_stored()),
            Action::FetchTip => ok(s.on_tip_reported(chain_tip as u64)),
            Action::UpdateChainTip(t) => {
                if w.tip != t {
                    w.tip = t;
                    w.writes += 1;
                }
                ok(s.on_ranges(w.suggest()))
            }
            Action::SuggestRanges => ok(s.on_ranges(w.suggest())),
            Action::Scan(b) => {
                assert_eq!(b.start, w.scanned_to);
                match w.fail_once_at.take() {
                    Some(h) if b.start == h => ok(s.on_continuity_error(h)),
                    other => {
                        w.fail_once_at = other;
                        w.scans.extend(b.start..b.end);
                        w.scanned_to = b.end;
                        w.writes += 1;
                        ok(s.on_scanned(&w.suggest()))
                    }
                }
            }
            Action::Rewind(h) => {
                w.scanned_to = w.scanned_to.min(h.max(w.birthday));
                w.scans.retain(|&x| x < w.scanned_to);
                w.writes += 1;
                ok(s.on_rewound())
            }
            Action::Finish(res) => return (res, log),
        };
    }
    panic!("pass did not end");
}

#[test]
fn pass_over_static_chain_scans_every_height_once() {
    let mut w = SimWallet { birthday: 1000, scanned_to: 1000, tip: 1000, scans: vec![], writes: 0, fail_once_at: None };
    let (res, log) = run_pass(&mut w, 1234, 100);
    assert_eq!(res, SyncResult { tip_height: 1234 });
    assert_eq!(w.scans, (1000..1234).collect::<Vec<u32>>());
    assert_eq!(log.iter().filter(|a| matches!(a, Action::Scan(_))).count(), 3);
}

#[test]
fn pass_with_a_reorg_still_converges() {
    let mut w = SimWallet { birthday: 0, scanned_to: 0, tip: 0, scans: vec![], writes: 0, fail_once_at: Some(500) };
    let (res, log) = run_pass(&mut w, 1000, 100);
    assert_eq!(res, SyncResult { tip_height: 1000 });
    assert_eq!(w.scans, (0..1000).collect::<Vec<u32>>());
    assert!(log.contains(&Action::Rewind(490)));
    let after = log.iter().position(|a| *a == Action::Rewind(490)).unwrap();
    let next_scan = log[after..].iter().find_map(|a| match a {
        Action::Scan(b) => Some(b.start),
        _ => None,
    });
    assert_eq!(next_scan, Some(490));
}

#[test]
fn second_pass_without_new_blocks_changes_nothing() {
    let mut w = SimWallet { birthday: 0, scanned_to: 0, tip: 0, scans: vec![], writes: 0, fail_once_at: None };
    let (first, _) = run_pass(&mut w, 777, 50);
    let writes = w.writes;
    let (second, log) = run_pass(&mut w, 777, 50);
    assert_eq!(first, second);
    assert_eq!(second.tip_height, 777);
    assert_eq!(w.writes, writes);
    assert!(!log.iter().any(|a| matches!(a, Action::Scan(_) | Action::Rewind(_))));
}
