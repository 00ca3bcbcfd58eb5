//! Channel blending policies for the frame buffer: overwrite, max-merge, and
//! saturating accumulate.

use vstd::prelude::*;
use vstd::pervasive::VecAdditionalExecFns;

verus! {

/// Saturating byte addition: the sum, capped at 255.
pub open spec fn sat_add8(a: u8, b: u8) -> u8 {
    if a + b > 255 {
        255u8
    } else {
        (a + b) as u8
    }
}

/// The larger of two bytes.
pub open spec fn max8(a: u8, b: u8) -> u8 {
    if b > a {
        b
    } else {
        a
    }
}

/// Overwrite: set channel `k` to `v` unconditionally.
pub fn put_at(buf: &mut Vec<u8>, k: usize, v: u8)
    requires
        k < old(buf)@.len(),
    ensures
        final(buf)@ == old(buf)@.update(k as int, v),
{
    buf.set(k, v);
}

/// Max-merge: set channel `k` to `v` only if `v` is strictly brighter, so
/// overlapping bright regions never darken each other.
pub fn max_merge_at(buf: &mut Vec<u8>, k: usize, v: u8)
    requires
        k < old(buf)@.len(),
    ensures
        final(buf)@ == old(buf)@.update(k as int, max8(old(buf)@[k as int], v)),
{
    let cur = buf[k];
    if v > cur {
        buf.set(k, v);
    } else {
        proof {
            assert(old(buf)@.update(k as int, cur) =~= old(buf)@);
        }
    }
}

/// Saturating accumulate: add `v` onto channel `k`, capping at 255, so
/// overlapping particles brighten without wrapping.
pub fn sat_add_at(buf: &mut Vec<u8>, k: usize, v: u8)
    requires
        k < old(buf)@.len(),
    ensures
        final(buf)@ == old(buf)@.update(k as int, sat_add8(old(buf)@[k as int], v)),
{
    let cur = buf[k];
    buf.set(k, cur.saturating_add(v));
}

/// The channel value after a whole sequence of saturating contributions.
pub open spec fn sat_add_fold(init: u8, cs: Seq<u8>) -> u8
    decreases cs.len(),
{
    if cs.len() == 0 {
        init
    } else {
        sat_add8(sat_add_fold(init, cs.drop_last()), cs.last())
    }
}

/// However many saturating contributions land on one channel, the result
/// never exceeds 255, never drops below the starting value, and in
/// particular never falls below zero.
pub proof fn lemma_sat_accumulate_bounded(init: u8, cs: Seq<u8>)
    ensures
        init <= sat_add_fold(init, cs) <= 255,
    decreases cs.len(),
{
    if cs.len() > 0 {
        lemma_sat_accumulate_bounded(init, cs.drop_last());
    }
}

} // verus!
