//! Sums and counts over the grey levels of an image.

use vstd::prelude::*;
use crate::seqs::{count_if, lemma_count_if_step};

verus! {

/// The sum of the grey levels.
pub open spec fn pixel_sum(p: Seq<u8>) -> int
    decreases p.len(),
{
    if p.len() == 0 {
        0
    } else {
        pixel_sum(p.drop_last()) + p.last() as int
    }
}

/// The sum of the products of the grey levels at the same positions.
pub open spec fn pixel_dot(p: Seq<u8>, q: Seq<u8>) -> int
    decreases p.len(),
{
    if p.len() == 0 || q.len() == 0 {
        0
    } else {
        pixel_dot(p.drop_last(), q.drop_last()) + (p.last() as int) * (q.last() as int)
    }
}

/// How many of the pixels have the grey level `level`.
pub open spec fn level_count(p: Seq<u8>, level: u8) -> nat {
    count_if(p, |x: u8| x == level)
}

/// The histogram of the grey levels: for each of the 256 levels, how
/// many pixels have it.
pub fn grey_histogram(p: &Vec<u8>) -> (h: Vec<u64>)
    ensures
        h@.len() == 256,
        forall|v: u8| h@[v as int] == #[trigger] level_count(p@, v),
{
    let mut h: Vec<u64> = Vec::new();
    let mut level: usize = 0;
    while level < 256
        invariant
            level <= 256,
            h@.len() == level,
            forall|k: int| 0 <= k < level ==> #[trigger] h@[k] == 0,
        decreases 256 - level,
    {
        h.push(0);
        level += 1;
    }
    assert(p@.take(0).len() == 0);
    let mut i: usize = 0;
    while i < p.len()
        invariant
            i <= p.len(),
            h@.len() == 256,
            forall|v: u8| h@[v as int] == #[trigger] level_count(p@.take(i as int), v),
        decreases p.len() - i,
    {
        let level = p[i] as usize;
        let ghost before = h@;
        proof {
            assert forall|v: u8| #[trigger]
                level_count(p@.take(i + 1), v) == level_count(p@.take(i as int), v) + (if v == p@[i as int] {
                    1nat
                } else {
                    0nat
                }) && level_count(p@.take(i as int), v) <= i by {
                lemma_count_if_step(p@, |x: u8| x == v, i as int);
            }
            assert(before[level as int] == level_count(p@.take(i as int), p@[i as int]));
            assert(level_count(p@.take(i + 1), p@[i as int]) <= i + 1);
        }
        let count: u64 = h[level];
        h.set(level, count + 1);
        assert forall|v: u8| h@[v as int] == #[trigger] level_count(p@.take(i + 1), v) by {
            assert(before[v as int] == level_count(p@.take(i as int), v));
        }
        i += 1;
    }
    assert(p@.take(p.len() as int) =~= p@);
    h
}

/// The sum of the grey levels.
pub fn sum_pixels(p: &Vec<u8>) -> (s: u64)
    requires
        p.len() <= 0x1_0000_0000,
    ensures
        s as int == pixel_sum(p@),
        s <= 255 * p.len(),
{
    let mut s: u64 = 0;
    let mut i: usize = 0;
    while i < p.len()
        invariant
            i <= p.len(),
            p.len() <= 0x1_0000_0000,
            s as int == pixel_sum(p@.take(i as int)),
            s <= 255 * i,
        decreases p.len() - i,
    {
        assert(p@.take(i + 1).drop_last() =~= p@.take(i as int));
        s = s + p[i] as u64;
        i += 1;
    }
    assert(p@.take(p.len() as int) =~= p@);
    s
}

/// The sum of the products of the grey levels at the same positions.
pub fn dot_pixels(p: &Vec<u8>, q: &Vec<u8>) -> (s: u64)
    requires
        p.len() == q.len(),
        p.len() <= 0x1_0000_0000,
    ensures
        s as int == pixel_dot(p@, q@),
        s <= 65025 * p.len(),
{
    let mut s: u64 = 0;
    let mut i: usize = 0;
    while i < p.len()
        invariant
            i <= p.len(),
            p.len() == q.len(),
            p.len() <= 0x1_0000_0000,
            s as int == pixel_dot(p@.take(i as int), q@.take(i as int)),
            s <= 65025 * i,
        decreases p.len() - i,
    {
        assert(p@.take(i + 1).drop_last() =~= p@.take(i as int));
        assert(q@.take(i + 1).drop_last() =~= q@.take(i as int));
        assert(p[i as int] as int * q[i as int] as int <= 65025) by (nonlinear_arith)
            requires
                0 <= p[i as int] as int <= 255,
                0 <= q[i as int] as int <= 255,
        ;
        s = s + (p[i] as u64) * (q[i] as u64);
        i += 1;
    }
    assert(p@.take(p.len() as int) =~= p@);
    assert(q@.take(q.len() as int) =~= q@);
    s
}

} // verus!
