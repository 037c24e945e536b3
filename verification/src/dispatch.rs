//! Choice of the execution path for a call, and the case conversions on
//! either path. Whatever is chosen, the bytes that come out are the same.

use vstd::prelude::*;
use crate::case::{
    lower_of, lower_seq, to_lower_scalar, to_lower_scalar_from, to_upper_scalar,
    to_upper_scalar_from, upper_of, upper_seq,
};
use crate::lane::{
    lane_lower_of, lane_upper_of, lemma_lane_case_is_scalar_case, load_lane, lower_lane,
    store_lane, upper_lane, LANE_WIDTH,
};

verus! {

/// Whether this build carries the lane path.
pub const VECTOR_ENABLED: bool = true;

/// The two ways in which a buffer can be worked through.
#[derive(Clone, Copy, Debug, PartialEq, Eq, Structural)]
pub enum ExecutionPath {
    /// One byte per step.
    Scalar,
    /// One lane per step, then the rest byte by byte.
    Vector,
}

/// How a buffer length divides into full lanes and a remainder.
#[derive(Clone, Copy, Debug, PartialEq, Eq, Structural)]
pub struct LaneSplit {
    /// The number of full lanes.
    pub lanes: usize,
    /// The number of bytes after the last full lane.
    pub tail: usize,
}

/// The path for a buffer of `len` bytes: the lane path where it is at hand
/// and the buffer fills at least one lane, the scalar path otherwise.
pub open spec fn path_for(len: usize, vector_available: bool) -> ExecutionPath {
    if vector_available && len >= LANE_WIDTH {
        ExecutionPath::Vector
    } else {
        ExecutionPath::Scalar
    }
}

/// Chooses the path for a buffer of `len` bytes.
pub fn select_path(len: usize, vector_available: bool) -> (path: ExecutionPath)
    ensures
        path == path_for(len, vector_available),
{
    if vector_available && len >= LANE_WIDTH {
        ExecutionPath::Vector
    } else {
        ExecutionPath::Scalar
    }
}

/// Divides a length into full lanes and the bytes left over.
pub fn split_lanes(len: usize) -> (split: LaneSplit)
    ensures
        split.lanes == len / LANE_WIDTH,
        split.tail == len % LANE_WIDTH,
        split.lanes * LANE_WIDTH + split.tail == len,
{
    LaneSplit { lanes: len / LANE_WIDTH, tail: len % LANE_WIDTH }
}

/// The index at which the full lanes of a buffer of `len` bytes end and its
/// remainder begins.
pub open spec fn lanes_end(len: nat) -> int {
    (len / LANE_WIDTH as nat) * LANE_WIDTH
}

/// What the lane path makes of a buffer when it upper-cases: mask and select
/// within the full lanes, the scalar mapping after them.
pub open spec fn vector_upper_seq(s: Seq<u8>) -> Seq<u8> {
    Seq::new(
        s.len(),
        |i: int|
            if i < lanes_end(s.len()) {
                lane_upper_of(s[i])
            } else {
                upper_of(s[i])
            },
    )
}

/// What the lane path makes of a buffer when it lower-cases: mask and select
/// within the full lanes, the scalar mapping after them.
pub open spec fn vector_lower_seq(s: Seq<u8>) -> Seq<u8> {
    Seq::new(
        s.len(),
        |i: int|
            if i < lanes_end(s.len()) {
                lane_lower_of(s[i])
            } else {
                lower_of(s[i])
            },
    )
}

/// The lane path and the scalar path give the same bytes, for every buffer
/// of every length.
pub proof fn lemma_paths_agree(s: Seq<u8>)
    ensures
        vector_upper_seq(s) == upper_seq(s),
        vector_lower_seq(s) == lower_seq(s),
{
    assert forall|i: int| 0 <= i < s.len() implies vector_upper_seq(s)[i] == upper_seq(s)[i]
        && vector_lower_seq(s)[i] == lower_seq(s)[i] by {
        lemma_lane_case_is_scalar_case(s[i]);
    }
    assert(vector_upper_seq(s) =~= upper_seq(s));
    assert(vector_lower_seq(s) =~= lower_seq(s));
}

/// Upper-cases a buffer lane by lane; the bytes after the last full lane go
/// through the scalar path.
pub fn to_upper_vector(buffer: &mut [u8])
    ensures
        final(buffer)@ == vector_upper_seq(old(buffer)@),
        final(buffer)@ == upper_seq(old(buffer)@),
{
    let n: usize = buffer.len();
    let split = split_lanes(n);
    let mut k: usize = 0;
    while k < split.lanes
        invariant
            k <= split.lanes,
            split.lanes * LANE_WIDTH + split.tail == n,
            n == buffer@.len(),
            buffer@.len() == old(buffer)@.len(),
            forall|j: int| 0 <= j < k * LANE_WIDTH ==> buffer@[j] == lane_upper_of(old(buffer)@[j]),
            forall|j: int| k * LANE_WIDTH <= j < n ==> buffer@[j] == old(buffer)@[j],
        decreases split.lanes - k,
    {
        let offset: usize = k * LANE_WIDTH;
        let lane = load_lane(buffer, offset);
        let converted = upper_lane(&lane);
        store_lane(buffer, offset, &converted);
        k += 1;
    }
    to_upper_scalar_from(buffer, split.lanes * LANE_WIDTH);
    proof {
        assert(buffer@ =~= vector_upper_seq(old(buffer)@));
        lemma_paths_agree(old(buffer)@);
    }
}

/// Lower-cases a buffer lane by lane; the bytes after the last full lane go
/// through the scalar path.
pub fn to_lower_vector(buffer: &mut [u8])
    ensures
        final(buffer)@ == vector_lower_seq(old(buffer)@),
        final(buffer)@ == lower_seq(old(buffer)@),
{
    let n: usize = buffer.len();
    let split = split_lanes(n);
    let mut k: usize = 0;
    while k < split.lanes
        invariant
            k <= split.lanes,
            split.lanes * LANE_WIDTH + split.tail == n,
            n == buffer@.len(),
            buffer@.len() == old(buffer)@.len(),
            forall|j: int| 0 <= j < k * LANE_WIDTH ==> buffer@[j] == lane_lower_of(old(buffer)@[j]),
            forall|j: int| k * LANE_WIDTH <= j < n ==> buffer@[j] == old(buffer)@[j],
        decreases split.lanes - k,
    {
        let offset: usize = k * LANE_WIDTH;
        let lane = load_lane(buffer, offset);
        let converted = lower_lane(&lane);
        store_lane(buffer, offset, &converted);
        k += 1;
    }
    to_lower_scalar_from(buffer, split.lanes * LANE_WIDTH);
    proof {
        assert(buffer@ =~= vector_lower_seq(old(buffer)@));
        lemma_paths_agree(old(buffer)@);
    }
}

/// Upper-cases a buffer on the path given. The result does not depend on the
/// path.
pub fn to_upper_with(buffer: &mut [u8], path: ExecutionPath)
    ensures
        final(buffer)@ == upper_seq(old(buffer)@),
{
    match path {
        ExecutionPath::Scalar => to_upper_scalar(buffer),
        ExecutionPath::Vector => to_upper_vector(buffer),
    }
}

/// Lower-cases a buffer on the path given. The result does not depend on the
/// path.
pub fn to_lower_with(buffer: &mut [u8], path: ExecutionPath)
    ensures
        final(buffer)@ == lower_seq(old(buffer)@),
{
    match path {
        ExecutionPath::Scalar => to_lower_scalar(buffer),
        ExecutionPath::Vector => to_lower_vector(buffer),
    }
}

/// Converts the ASCII letters `a` to `z` of the buffer to upper case, in
/// place. Every other byte, and the length, stay as they are.
pub fn to_upper_inplace(buffer: &mut [u8])
    ensures
        final(buffer)@ == upper_seq(old(buffer)@),
        final(buffer)@.len() == old(buffer)@.len(),
        forall|i: int|
            0 <= i < old(buffer)@.len() && old(buffer)@[i] >= 0x80 ==> final(buffer)@[i] == old(
                buffer,
            )@[i],
{
    let path = select_path(buffer.len(), VECTOR_ENABLED);
    to_upper_with(buffer, path);
}

/// Converts the ASCII letters `A` to `Z` of the buffer to lower case, in
/// place. Every other byte, and the length, stay as they are.
pub fn to_lower_inplace(buffer: &mut [u8])
    ensures
        final(buffer)@ == lower_seq(old(buffer)@),
        final(buffer)@.len() == old(buffer)@.len(),
        forall|i: int|
            0 <= i < old(buffer)@.len() && old(buffer)@[i] >= 0x80 ==> final(buffer)@[i] == old(
                buffer,
            )@[i],
{
    let path = select_path(buffer.len(), VECTOR_ENABLED);
    to_lower_with(buffer, path);
}

} // verus!
