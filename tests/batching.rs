use wallet_sync::batch::{split_into_batches, Batches};
use wallet_sync::range::{ScanPriority, ScanRange};

fn r(start: u32, end: u32, priority: ScanPriority) -> ScanRange {
    ScanRange::from_parts(start, end, priority)
}

#[test]
fn priority_order_puts_verify_highest() {
    assert_eq!(ScanPriority::Ignored.rank(), 0);
    assert_eq!(ScanPriority::Verify.rank(), 6);
    assert!(ScanPriority::Verify.outranks(&ScanPriority::ChainTip));
    assert!(ScanPriority::ChainTip.outranks(&ScanPriority::Historic));
    assert!(!ScanPriority::Historic.outranks(&ScanPriority::Historic));
    assert!(!ScanPriority::Scanned.outranks(&ScanPriority::FoundNote));
}

#[test]
fn range_length_and_emptiness() {
    assert_eq!(r(10, 25, ScanPriority::Historic).len(), 15);
    assert!(!r(10, 25, ScanPriority::Historic).is_empty());
    assert_eq!(r(7, 7, ScanPriority::Historic).len(), 0);
    assert!(r(7, 7, ScanPriority::Historic).is_empty());
    assert_eq!(r(9, 3, ScanPriority::Historic).len(), 0);
    assert!(r(9, 3, ScanPriority::Historic).is_empty());
}

#[test]
fn long_range_splits_into_full_batches_and_a_short_tail() {
    let got = split_into_batches(r(100, 25_100, ScanPriority::Historic), 10_000);
    assert_eq!(
        got,
        vec![
            r(100, 10_100, ScanPriority::Historic),
            r(10_100, 20_100, ScanPriority::Historic),
            r(20_100, 25_100, ScanPriority::Historic),
        ]
    );
}

#[test]
fn range_shorter_than_batch_is_one_batch() {
    let got = split_into_batches(r(0, 1000, ScanPriority::ChainTip), 10_000);
    assert_eq!(got, vec![r(0, 1000, ScanPriority::ChainTip)]);
}

#[test]
fn range_of_exactly_one_batch_is_not_split() {
    let got = split_into_batches(r(50, 60, ScanPriority::FoundNote), 10);
    assert_eq!(got, vec![r(50, 60, ScanPriority::FoundNote)]);
}

#[test]
fn empty_range_has_no_batch() {
    assert!(split_into_batches(r(40, 40, ScanPriority::Historic), 10).is_empty());
    assert!(split_into_batches(r(41, 40, ScanPriority::Historic), 10).is_empty());
}

#[test]
fn zero_batch_size_keeps_the_range_whole() {
    let got = split_into_batches(r(3, 30, ScanPriority::Historic), 0);
    assert_eq!(got, vec![r(3, 30, ScanPriority::Historic)]);
}

#[test]
fn batches_near_the_largest_height() {
    let got = split_into_batches(r(u32::MAX - 5, u32::MAX, ScanPriority::ChainTip), 10_000);
    assert_eq!(got, vec![r(u32::MAX - 5, u32::MAX, ScanPriority::ChainTip)]);
    let got = split_into_batches(r(0, u32::MAX, ScanPriority::Historic), 1 << 31);
    assert_eq!(
        got,
        vec![
            r(0, 1 << 31, ScanPriority::Historic),
            r(1 << 31, u32::MAX, ScanPriority::Historic),
        ]
    );
}

#[test]
fn batches_cover_range_without_gap_or_overlap() {
    for (start, end, size) in [(0u32, 1u32, 1u32), (5, 17, 4), (5, 17, 3), (1, 100, 7), (0, 10, 11)] {
        let got = split_into_batches(r(start, end, ScanPriority::OpenAdjacent), size);
        assert_eq!(got.first().unwrap().start, start);
        assert_eq!(got.last().unwrap().end, end);
        for (i, b) in got.iter().enumerate() {
            assert!(b.start < b.end);
            assert!(b.end - b.start <= size);
            assert_eq!(b.priority, ScanPriority::OpenAdjacent);
            if i + 1 < got.len() {
                assert_eq!(b.end, got[i + 1].start);
                assert_eq!(b.end - b.start, size);
            }
        }
    }
}

#[test]
fn batches_are_handed_out_one_at_a_time() {
    let mut it = Batches::new(r(0, 25, ScanPriority::Historic), 10);
    assert_eq!(it.next_batch(), Some(r(0, 10, ScanPriority::Historic)));
    assert_eq!(it.next_batch(), Some(r(10, 20, ScanPriority::Historic)));
    assert_eq!(it.next_batch(), Some(r(20, 25, ScanPriority::Historic)));
    assert_eq!(it.next_batch(), None);
    assert_eq!(it.next_batch(), None);
}
