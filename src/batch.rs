use vstd::prelude::*;

use crate::range::ScanRange;

verus! {

/// End of the first batch of `[start, end)` for batches of at most `size`
/// blocks. A `size` of zero puts the whole range in one batch.
pub open spec fn batch_end(start: u32, end: u32, size: u32) -> u32 {
    if size > 0 && end > start + size {
        (start + size) as u32
    } else {
        end
    }
}

/// The batches of `r`: consecutive sub-ranges of at most `size` blocks, in
/// ascending order, each with the priority of `r`.
pub open spec fn batches(r: ScanRange, size: u32) -> Seq<ScanRange>
    decreases r.end - r.start,
{
    if r.start >= r.end {
        seq![]
    } else {
        let cut = batch_end(r.start, r.end, size);
        seq![ScanRange { start: r.start, end: cut, priority: r.priority }] + batches(
            ScanRange { start: cut, end: r.end, priority: r.priority },
            size,
        )
    }
}

/// The batches of each range of `rs` in turn.
pub open spec fn plan_batches(rs: Seq<ScanRange>, size: u32) -> Seq<ScanRange>
    decreases rs.len(),
{
    if rs.len() == 0 {
        seq![]
    } else {
        batches(rs[0], size) + plan_batches(rs.drop_first(), size)
    }
}

/// Splits a scan range into batches one at a time, so that only one batch
/// is handed out at once.
pub struct Batches {
    rest: ScanRange,
    size: u32,
}

impl Batches {
    /// The batches still to be handed out.
    pub closed spec fn remaining(&self) -> Seq<ScanRange> {
        batches(self.rest, self.size)
    }

    /// Starts splitting `range` into batches of at most `size` blocks.
    pub fn new(range: ScanRange, size: u32) -> (b: Batches)
        ensures
            b.remaining() == batches(range, size),
    {
        Batches { rest: range, size }
    }

    /// Hands out the next batch, if any is left.
    pub fn next_batch(&mut self) -> (r: Option<ScanRange>)
        ensures
            old(self).remaining().len() == 0 ==> r is None && final(self).remaining()
                == old(self).remaining(),
            old(self).remaining().len() > 0 ==> r == Some(old(self).remaining()[0])
                && final(self).remaining() == old(self).remaining().drop_first(),
    {
        let r = self.rest;
        if r.start >= r.end {
            return None;
        }
        let cut: u32 = if self.size > 0 && r.end - r.start > self.size {
            r.start + self.size
        } else {
            r.end
        };
        let first = ScanRange { start: r.start, end: cut, priority: r.priority };
        self.rest = ScanRange { start: cut, end: r.end, priority: r.priority };
        proof {
            assert(batches(r, self.size) == seq![first] + batches(self.rest, self.size));
            assert((seq![first] + batches(self.rest, self.size)).drop_first() =~= batches(
                self.rest,
                self.size,
            ));
        }
        Some(first)
    }
}

/// All batches of `range` for batches of at most `size` blocks.
pub fn split_into_batches(range: ScanRange, size: u32) -> (r: Vec<ScanRange>)
    ensures
        r@ == batches(range, size),
{
    let mut out: Vec<ScanRange> = Vec::new();
    let mut it = Batches::new(range, size);
    loop
        invariant
            out@ + it.remaining() == batches(range, size),
        decreases it.remaining().len(),
    {
        let ghost before = it.remaining();
        match it.next_batch() {
            Some(b) => {
                proof {
                    assert(before == seq![b] + before.drop_first());
                    assert(out@.push(b) + it.remaining() =~= out@ + before);
                }
                out.push(b);
            },
            None => {
                assert(out@ + before =~= out@);
                return out;
            },
        }
    }
}

/// A height lies in `r` exactly when it lies in one of the batches of `r`.
proof fn lemma_batches_holds(r: ScanRange, size: u32)
    requires
        size > 0,
    ensures
        ({
            let s = batches(r, size);
            forall|h: int|
                r.holds(h) <==> exists|i: int| 0 <= i < s.len() && #[trigger] s[i].holds(h)
        }),
    decreases r.end - r.start,
{
    let s = batches(r, size);
    if r.start < r.end {
        let cut = batch_end(r.start, r.end, size);
        let first = ScanRange { start: r.start, end: cut, priority: r.priority };
        let rest = ScanRange { start: cut, end: r.end, priority: r.priority };
        lemma_batches_holds(rest, size);
        let t = batches(rest, size);
        assert(s == seq![first] + t);
        assert forall|h: int| r.holds(h) implies exists|i: int|
            0 <= i < s.len() && #[trigger] s[i].holds(h) by {
            if h < cut {
                assert(s[0].holds(h));
            } else {
                assert(rest.holds(h));
                let j = choose|j: int| 0 <= j < t.len() && #[trigger] t[j].holds(h);
                assert(s[j + 1] == t[j]);
                assert(s[j + 1].holds(h));
            }
        }
        assert forall|h: int| (exists|i: int| 0 <= i < s.len() && #[trigger] s[i].holds(h)) implies r.holds(h) by {
            let i = choose|i: int| 0 <= i < s.len() && #[trigger] s[i].holds(h);
            assert(r.start < cut <= r.end);
            if i > 0 {
                assert(s[i] == t[i - 1]);
                assert(t[i - 1].holds(h));
                assert(rest.holds(h));
            } else {
                assert(s[0] == first);
            }
        }
    }
}

/// Splitting `r` into batches of at most `size` blocks (with `size` not zero)
/// loses no height and adds none: the batches are non-empty, at most `size`
/// long, keep the priority of `r`, follow one another without gap or
/// overlap from the start of `r` to its end, and every batch but the last
/// is exactly `size` long.
pub proof fn lemma_batches_cover(r: ScanRange, size: u32)
    requires
        size > 0,
    ensures
        batches(r, size).len() == 0 <==> r.start >= r.end,
        batches(r, size).len() > 0 ==> batches(r, size)[0].start == r.start,
        batches(r, size).len() > 0 ==> batches(r, size).last().end == r.end,
        forall|i: int|
            #![trigger batches(r, size)[i]]
            0 <= i < batches(r, size).len() ==> {
                &&& batches(r, size)[i].start < batches(r, size)[i].end
                &&& batches(r, size)[i].end - batches(r, size)[i].start <= size
                &&& batches(r, size)[i].priority == r.priority
            },
        forall|i: int|
            #![trigger batches(r, size)[i], batches(r, size)[i + 1]]
            0 <= i < batches(r, size).len() - 1 ==> batches(r, size)[i].end == batches(
                r,
                size,
            )[i + 1].start,
        forall|i: int|
            #![trigger batches(r, size)[i]]
            0 <= i < batches(r, size).len() - 1 ==> batches(r, size)[i].end - batches(
                r,
                size,
            )[i].start == size,
        forall|h: int|
            r.holds(h) <==> exists|i: int|
                0 <= i < batches(r, size).len() && #[trigger] batches(r, size)[i].holds(h),
    decreases r.end - r.start,
{
    if r.start < r.end {
        let s = batches(r, size);
        let cut = batch_end(r.start, r.end, size);
        let first = ScanRange { start: r.start, end: cut, priority: r.priority };
        let rest = ScanRange { start: cut, end: r.end, priority: r.priority };
        assert(r.start < cut <= r.end);
        assert(cut < r.end ==> cut - r.start == size);
        lemma_batches_cover(rest, size);
        let t = batches(rest, size);
        assert(s == seq![first] + t);
        assert(s[0] == first);
        assert forall|i: int| 0 < i < s.len() implies s[i] == t[i - 1] by {}
        assert forall|i: int| #![trigger s[i]] 0 <= i < s.len() implies {
            &&& s[i].start < s[i].end
            &&& s[i].end - s[i].start <= size
            &&& s[i].priority == r.priority
        } by {
            if i > 0 {
                assert(s[i] == t[i - 1]);
            }
        }
        assert forall|i: int| #![trigger s[i], s[i + 1]] 0 <= i < s.len() - 1 implies s[i].end
            == s[i + 1].start && s[i].end - s[i].start == size by {
            assert(s[i + 1] == t[i]);
            if i > 0 {
                assert(s[i] == t[i - 1]);
                let j = i - 1;
                assert(t[j].end == t[j + 1].start);
            } else {
                assert(t.len() > 0);
                assert(t[0].start == cut);
            }
        }
        if t.len() > 0 {
            assert(s.last() == t.last());
        }
    }
    lemma_batches_holds(r, size);
}

} // verus!
