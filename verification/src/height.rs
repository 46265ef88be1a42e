//! The height allocator: assigns one increasing value per variant, strictly
//! in declaration order, and hands the next available start to the next
//! pass of a layered pipeline.

use vstd::prelude::*;

verus! {

/// The height of the variant at position `i` of a band that starts at
/// `start` with the given interval.
pub open spec fn band_value(start: int, interval: int, i: int) -> int {
    start + i * interval
}

/// The first height past a band of `count` variants.
pub open spec fn band_end(start: int, interval: int, count: int) -> int {
    start + count * interval
}

/// Assigns `count` heights starting at `start`, `interval` apart, and
/// returns them with the next available start.
pub fn allocate(count: usize, start: u64, interval: u64) -> (r: (Vec<u64>, u64))
    requires
        start + count * interval <= u64::MAX,
    ensures
        r.0@.len() == count,
        forall|i: int| 0 <= i < count ==> r.0@[i] == band_value(start as int, interval as int, i),
        r.1 == band_end(start as int, interval as int, count as int),
{
    let mut heights: Vec<u64> = Vec::new();
    let mut h: u64 = start;
    let mut i: usize = 0;
    while i < count
        invariant
            i <= count,
            start + count * interval <= u64::MAX,
            h == band_value(start as int, interval as int, i as int),
            heights@.len() == i,
            forall|j: int|
                0 <= j < i ==> heights@[j] == band_value(start as int, interval as int, j),
        decreases count - i,
    {
        heights.push(h);
        proof {
            assert((i + 1) * interval == i * interval + interval) by (nonlinear_arith);
            assert(i * interval <= count * interval && (i + 1) * interval <= count * interval) by (nonlinear_arith)
                requires
                    0 <= i as int + 1 <= count as int,
                    interval >= 0,
            ;
        }
        h = h + interval;
        i += 1;
    }
    (heights, h)
}

/// The heights of a whole band, in declaration order.
pub open spec fn band_seq(start: int, interval: int, count: nat) -> Seq<int> {
    Seq::new(count, |i: int| band_value(start, interval, i))
}

/// Every height of a band lies at or past the band's start and strictly
/// below the band's end.
pub proof fn lemma_band_value_range(start: int, interval: int, count: int, i: int)
    requires
        interval >= 1,
        0 <= i < count,
    ensures
        start <= band_value(start, interval, i),
        band_value(start, interval, i) + interval <= band_end(start, interval, count),
{
    assert(i * interval >= 0 && i * interval + interval <= count * interval) by (nonlinear_arith)
        requires
            interval >= 1,
            0 <= i < count,
    ;
}

/// Within one band, heights strictly increase in declaration order when
/// the interval is positive.
pub proof fn lemma_band_increasing(start: int, interval: int, i: int, j: int)
    requires
        interval >= 1,
        0 <= i < j,
    ensures
        band_value(start, interval, i) < band_value(start, interval, j),
{
    assert(i * interval < j * interval) by (nonlinear_arith)
        requires
            interval >= 1,
            0 <= i < j,
    ;
}

/// Across two passes, every height of the earlier band lies strictly below
/// every height of a later band that starts at or past the earlier band's
/// end: feeding the returned start forward never produces equal heights.
pub proof fn lemma_bands_disjoint(
    start1: int,
    count1: int,
    start2: int,
    count2: int,
    interval: int,
)
    requires
        interval >= 1,
        count1 >= 0,
        start2 >= band_end(start1, interval, count1),
    ensures
        forall|i: int, j: int|
            0 <= i < count1 && 0 <= j < count2 ==> band_value(start1, interval, i) < band_value(
                start2,
                interval,
                j,
            ),
{
    assert forall|i: int, j: int| 0 <= i < count1 && 0 <= j < count2 implies band_value(
        start1,
        interval,
        i,
    ) < band_value(start2, interval, j) by {
        assert(i * interval < count1 * interval) by (nonlinear_arith)
            requires
                interval >= 1,
                0 <= i < count1,
        ;
        assert(j * interval >= 0) by (nonlinear_arith)
            requires
                interval >= 1,
                j >= 0,
        ;
    }
}

} // verus!
