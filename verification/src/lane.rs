//! Fixed-width lanes of bytes and the lane-wise operations on them: range
//! mask, bit toggle and branchless select. No operation lets one byte of a
//! lane influence another.

use vstd::prelude::*;
use crate::case::{lower_of, lower_seq, upper_of, upper_seq, CASE_BIT};

verus! {

/// The number of bytes that one vector step consumes. A power of two.
pub const LANE_WIDTH: usize = 16;

/// The mask byte of a range test: all ones where `low <= b <= high`, all
/// zeros elsewhere.
pub open spec fn mask_of(b: u8, low: u8, high: u8) -> u8 {
    if low <= b <= high {
        0xff
    } else {
        0x00
    }
}

/// The byte that a select yields: `on` where the mask is all ones, `off`
/// where it is all zeros.
pub open spec fn select_of(mask: u8, on: u8, off: u8) -> u8 {
    (on & mask) | (off & !mask)
}

/// What the lane path computes for a byte when it upper-cases.
pub open spec fn lane_upper_of(b: u8) -> u8 {
    select_of(mask_of(b, 0x61, 0x7a), b ^ 0x20, b)
}

/// What the lane path computes for a byte when it lower-cases.
pub open spec fn lane_lower_of(b: u8) -> u8 {
    select_of(mask_of(b, 0x41, 0x5a), b ^ 0x20, b)
}

/// A select under an all-ones mask yields its first operand, and under an
/// all-zeros mask its second.
pub proof fn lemma_select(on: u8, off: u8)
    ensures
        select_of(0xff, on, off) == on,
        select_of(0x00, on, off) == off,
{
    assert((on & 0xff) | (off & !0xffu8) == on) by (bit_vector);
    assert((on & 0x00) | (off & !0x00u8) == off) by (bit_vector);
}

/// The mask-and-select form of a case conversion gives the same byte as the
/// byte-at-a-time form, for every byte.
pub proof fn lemma_lane_case_is_scalar_case(b: u8)
    ensures
        lane_upper_of(b) == upper_of(b),
        lane_lower_of(b) == lower_of(b),
{
    lemma_select(b ^ 0x20, b);
    crate::case::lemma_case_bit_toggle(b);
}

/// Copies the `LANE_WIDTH` bytes at `offset` out of the buffer.
pub fn load_lane(buffer: &[u8], offset: usize) -> (lane: [u8; LANE_WIDTH])
    requires
        offset + LANE_WIDTH <= buffer@.len(),
    ensures
        lane@ == buffer@.subrange(offset as int, offset + LANE_WIDTH),
{
    let n: usize = buffer.len();
    let mut lane: [u8; LANE_WIDTH] = [0u8; LANE_WIDTH];
    let mut k: usize = 0;
    while k < LANE_WIDTH
        invariant
            k <= LANE_WIDTH,
            offset + LANE_WIDTH <= n == buffer@.len(),
            forall|j: int| 0 <= j < k ==> lane@[j] == buffer@[offset + j],
        decreases LANE_WIDTH - k,
    {
        lane[k] = buffer[offset + k];
        k += 1;
    }
    assert(lane@ =~= buffer@.subrange(offset as int, offset + LANE_WIDTH));
    lane
}

/// Writes a lane back over the `LANE_WIDTH` bytes at `offset`, and over
/// nothing else.
pub fn store_lane(buffer: &mut [u8], offset: usize, lane: &[u8; LANE_WIDTH])
    requires
        offset + LANE_WIDTH <= old(buffer)@.len(),
    ensures
        final(buffer)@.len() == old(buffer)@.len(),
        forall|i: int| 0 <= i < offset ==> final(buffer)@[i] == old(buffer)@[i],
        forall|i: int| offset <= i < offset + LANE_WIDTH ==> final(buffer)@[i] == lane@[i - offset],
        forall|i: int|
            offset + LANE_WIDTH <= i < old(buffer)@.len() ==> final(buffer)@[i] == old(buffer)@[i],
{
    let n: usize = buffer.len();
    let mut k: usize = 0;
    while k < LANE_WIDTH
        invariant
            k <= LANE_WIDTH,
            offset + LANE_WIDTH <= n == buffer@.len(),
            buffer@.len() == old(buffer)@.len(),
            forall|i: int| 0 <= i < offset ==> buffer@[i] == old(buffer)@[i],
            forall|i: int| offset <= i < offset + k ==> buffer@[i] == lane@[i - offset],
            forall|i: int| offset + k <= i < buffer@.len() ==> buffer@[i] == old(buffer)@[i],
        decreases LANE_WIDTH - k,
    {
        buffer[offset + k] = lane[k];
        k += 1;
    }
}

/// Builds the mask of the bytes that lie in `low..=high`.
pub fn range_mask(lane: &[u8; LANE_WIDTH], low: u8, high: u8) -> (mask: [u8; LANE_WIDTH])
    ensures
        forall|k: int| 0 <= k < LANE_WIDTH ==> mask@[k] == mask_of(lane@[k], low, high),
{
    let mut mask: [u8; LANE_WIDTH] = [0u8; LANE_WIDTH];
    let mut k: usize = 0;
    while k < LANE_WIDTH
        invariant
            k <= LANE_WIDTH,
            forall|j: int| 0 <= j < k ==> mask@[j] == mask_of(lane@[j], low, high),
        decreases LANE_WIDTH - k,
    {
        let b: u8 = lane[k];
        mask[k] = if low <= b && b <= high {
            0xff
        } else {
            0x00
        };
        k += 1;
    }
    mask
}

/// Toggles the case bit of every byte of a lane.
pub fn toggle_case(lane: &[u8; LANE_WIDTH]) -> (toggled: [u8; LANE_WIDTH])
    ensures
        forall|k: int| 0 <= k < LANE_WIDTH ==> toggled@[k] == lane@[k] ^ 0x20,
{
    let mut toggled: [u8; LANE_WIDTH] = [0u8; LANE_WIDTH];
    let mut k: usize = 0;
    while k < LANE_WIDTH
        invariant
            k <= LANE_WIDTH,
            forall|j: int| 0 <= j < k ==> toggled@[j] == lane@[j] ^ 0x20,
        decreases LANE_WIDTH - k,
    {
        toggled[k] = lane[k] ^ CASE_BIT;
        k += 1;
    }
    toggled
}

/// Picks, byte by byte and without a branch, `on` where the mask is set and
/// `off` where it is clear.
pub fn select(mask: &[u8; LANE_WIDTH], on: &[u8; LANE_WIDTH], off: &[u8; LANE_WIDTH]) -> (out: [
    u8;
    LANE_WIDTH
])
    ensures
        forall|k: int| 0 <= k < LANE_WIDTH ==> out@[k] == select_of(mask@[k], on@[k], off@[k]),
{
    let mut out: [u8; LANE_WIDTH] = [0u8; LANE_WIDTH];
    let mut k: usize = 0;
    while k < LANE_WIDTH
        invariant
            k <= LANE_WIDTH,
            forall|j: int| 0 <= j < k ==> out@[j] == select_of(mask@[j], on@[j], off@[j]),
        decreases LANE_WIDTH - k,
    {
        out[k] = (on[k] & mask[k]) | (off[k] & !mask[k]);
        k += 1;
    }
    out
}

/// Upper-cases a lane: mask the letters `a` to `z`, toggle, select.
pub fn upper_lane(lane: &[u8; LANE_WIDTH]) -> (out: [u8; LANE_WIDTH])
    ensures
        out@ == upper_seq(lane@),
        forall|k: int| 0 <= k < LANE_WIDTH ==> out@[k] == lane_upper_of(lane@[k]),
{
    let mask = range_mask(lane, 0x61, 0x7a);
    let toggled = toggle_case(lane);
    let out = select(&mask, &toggled, lane);
    proof {
        assert forall|k: int| 0 <= k < LANE_WIDTH implies out@[k] == upper_of(lane@[k]) by {
            lemma_lane_case_is_scalar_case(lane@[k]);
        }
        assert(out@ =~= upper_seq(lane@));
    }
    out
}

/// Lower-cases a lane: mask the letters `A` to `Z`, toggle, select.
pub fn lower_lane(lane: &[u8; LANE_WIDTH]) -> (out: [u8; LANE_WIDTH])
    ensures
        out@ == lower_seq(lane@),
        forall|k: int| 0 <= k < LANE_WIDTH ==> out@[k] == lane_lower_of(lane@[k]),
{
    let mask = range_mask(lane, 0x41, 0x5a);
    let toggled = toggle_case(lane);
    let out = select(&mask, &toggled, lane);
    proof {
        assert forall|k: int| 0 <= k < LANE_WIDTH implies out@[k] == lower_of(lane@[k]) by {
            lemma_lane_case_is_scalar_case(lane@[k]);
        }
        assert(out@ =~= lower_seq(lane@));
    }
    out
}

/// True when every byte of the sequence is below `0x80`.
pub open spec fn all_ascii(s: Seq<u8>) -> bool {
    forall|k: int| 0 <= k < s.len() ==> s[k] < 0x80
}

/// Tells whether a lane holds ASCII only, by folding its bytes with `|` and
/// testing the top bit once.
pub fn lane_is_ascii(lane: &[u8; LANE_WIDTH]) -> (r: bool)
    ensures
        r == all_ascii(lane@),
{
    let mut acc: u8 = 0;
    let mut k: usize = 0;
    assert(0u8 & 0x80 == 0) by (bit_vector);
    while k < LANE_WIDTH
        invariant
            k <= LANE_WIDTH,
            (acc & 0x80 == 0) == (forall|j: int| 0 <= j < k ==> lane@[j] < 0x80),
        decreases LANE_WIDTH - k,
    {
        let b: u8 = lane[k];
        assert(((acc | b) & 0x80 == 0) == (acc & 0x80 == 0 && b < 0x80)) by (bit_vector);
        acc = acc | b;
        k += 1;
    }
    acc & 0x80 == 0
}

} // verus!
