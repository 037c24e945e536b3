//! The forward scan over a buffer: what the state machine has seen after any
//! number of bytes, why that agrees with the grammar, and the scan itself on
//! either execution path.

use vstd::prelude::*;
use crate::dispatch::{select_path, split_lanes, ExecutionPath, VECTOR_ENABLED};
use crate::error::StringOpsError;
use crate::lane::{all_ascii, lane_is_ascii, load_lane, LANE_WIDTH};
use crate::utf8::{
    count_from, is_continuation, is_utf8, lead_width, scalar_count, scalar_len, step, step_of,
    valid_from, ScanState,
};

verus! {

/// The state of the machine after the first `n` bytes of the buffer.
pub open spec fn state_after(s: Seq<u8>, n: int) -> ScanState
    decreases n,
{
    if n <= 0 {
        ScanState::ExpectLead
    } else {
        step_of(state_after(s, n - 1), s[n - 1])
    }
}

/// The number of sequences that the machine has seen end within the first
/// `n` bytes of the buffer.
pub open spec fn completed_after(s: Seq<u8>, n: int) -> nat
    decreases n,
{
    if n <= 0 {
        0
    } else if state_after(s, n) == ScanState::ExpectLead {
        completed_after(s, n - 1) + 1
    } else {
        completed_after(s, n - 1)
    }
}

/// Where the sequence began that the machine is inside of after `n` bytes;
/// `n` itself at a boundary.
pub open spec fn start_after(s: Seq<u8>, n: int) -> int
    decreases n,
{
    if n <= 0 {
        0
    } else if state_after(s, n) == ScanState::ExpectLead {
        n
    } else {
        start_after(s, n - 1)
    }
}

/// True when the buffer holds, from `n` on, the `remaining` bytes that a
/// sequence still owes: the first in `low..=high`, the others continuation
/// bytes.
pub open spec fn owed_bytes_follow(s: Seq<u8>, n: int, remaining: int, low: u8, high: u8) -> bool {
    &&& n + remaining <= s.len()
    &&& low <= s[n] <= high
    &&& (remaining >= 2 ==> is_continuation(s[n + 1]))
    &&& (remaining >= 3 ==> is_continuation(s[n + 2]))
}

/// How the machine after `n` bytes relates to the grammar: everything before
/// the sequence in progress is well-formed and counted, and the sequence in
/// progress is well-formed exactly if the bytes it still owes follow.
pub open spec fn agrees_with_grammar(s: Seq<u8>, n: int) -> bool {
    let p = start_after(s, n);
    let done = completed_after(s, n);
    match state_after(s, n) {
        ScanState::ExpectLead => {
            &&& p == n
            &&& valid_from(s, 0) == valid_from(s, n)
            &&& count_from(s, 0) == done + count_from(s, n)
        },
        ScanState::ExpectCont { remaining, low, high } => {
            &&& 0 <= p < n
            &&& 1 <= remaining <= 3
            &&& valid_from(s, 0) == valid_from(s, p)
            &&& count_from(s, 0) == done + count_from(s, p)
            &&& scalar_len(s, p) == if owed_bytes_follow(s, n, remaining as int, low, high) {
                n - p + remaining
            } else {
                0
            }
        },
        ScanState::Invalid => !valid_from(s, 0) && count_from(s, 0) == done,
    }
}

/// After any number of bytes the machine agrees with the grammar.
pub proof fn lemma_agrees_with_grammar(s: Seq<u8>, n: int)
    requires
        0 <= n <= s.len(),
    ensures
        agrees_with_grammar(s, n),
    decreases n,
{
    if n > 0 {
        lemma_agrees_with_grammar(s, n - 1);
        let b = s[n - 1];
        let p = start_after(s, n - 1);
        match state_after(s, n - 1) {
            ScanState::ExpectLead => {
                let w = lead_width(b);
                assert(p == n - 1);
                if w == 1 {
                    assert(scalar_len(s, p) == 1);
                } else if w == 0 {
                    assert(scalar_len(s, p) == 0);
                } else {
                    assert(start_after(s, n) == p);
                }
            },
            ScanState::ExpectCont { remaining, low, high } => {
                if !(low <= b <= high) {
                    assert(scalar_len(s, p) == 0);
                } else if remaining <= 1 {
                    assert(scalar_len(s, p) == n - p);
                } else {
                    assert(start_after(s, n) == p);
                }
            },
            ScanState::Invalid => {},
        }
    }
}

/// The machine ends at a boundary exactly on well-formed UTF-8, and the
/// sequences it has seen end are the well-formed sequences at the front of
/// the buffer.
pub proof fn lemma_machine_accepts_grammar(s: Seq<u8>)
    ensures
        (state_after(s, s.len() as int) == ScanState::ExpectLead) == is_utf8(s),
        completed_after(s, s.len() as int) == scalar_count(s),
{
    lemma_agrees_with_grammar(s, s.len() as int);
}

/// Once the machine has met an invalid byte, no later byte changes its state
/// or adds to what it has counted.
pub proof fn lemma_invalid_is_final(s: Seq<u8>, i: int, n: int)
    requires
        0 <= i <= n,
        state_after(s, i) == ScanState::Invalid,
    ensures
        state_after(s, n) == ScanState::Invalid,
        completed_after(s, n) == completed_after(s, i),
    decreases n - i,
{
    if i < n {
        lemma_invalid_is_final(s, i, n - 1);
    }
}

/// The machine sees at most one sequence end per byte.
pub proof fn lemma_completed_at_most_bytes(s: Seq<u8>, n: int)
    requires
        0 <= n,
    ensures
        completed_after(s, n) <= n,
    decreases n,
{
    if n > 0 {
        lemma_completed_at_most_bytes(s, n - 1);
    }
}

/// From a boundary, a run of `k` ASCII bytes leaves the machine at a boundary
/// and adds `k` to what it has counted.
pub proof fn lemma_ascii_run(s: Seq<u8>, i: int, k: int)
    requires
        0 <= i,
        0 <= k,
        i + k <= s.len(),
        state_after(s, i) == ScanState::ExpectLead,
        all_ascii(s.subrange(i, i + k)),
    ensures
        state_after(s, i + k) == ScanState::ExpectLead,
        completed_after(s, i + k) == completed_after(s, i) + k,
    decreases k,
{
    if k > 0 {
        assert forall|j: int| 0 <= j < k - 1 implies #[trigger] s.subrange(i, i + k - 1)[j]
            < 0x80 by {
            assert(s.subrange(i, i + k)[j] < 0x80);
        }
        lemma_ascii_run(s, i, k - 1);
        assert(s.subrange(i, i + k)[k - 1] < 0x80);
    }
}

/// What a scan has found: the state it ended in, and the number of sequences
/// it saw end.
#[derive(Clone, Copy, Debug, PartialEq, Eq, Structural)]
pub struct ScanOutcome {
    /// The state after the last byte.
    pub state: ScanState,
    /// The number of completed sequences.
    pub count: usize,
}

impl ScanOutcome {
    /// True when this is what the machine holds after the first `n` bytes of
    /// the buffer.
    pub open spec fn is_after(self, s: Seq<u8>, n: int) -> bool {
        self.state == state_after(s, n) && self.count == completed_after(s, n)
    }
}

/// Carries a scan that stands after `from` bytes on to `to`, one byte at a
/// time. After an invalid byte nothing more is read.
fn scan_span(bytes: &[u8], from: usize, to: usize, before: ScanOutcome) -> (after: ScanOutcome)
    requires
        from <= to <= bytes@.len(),
        before.is_after(bytes@, from as int),
    ensures
        after.is_after(bytes@, to as int),
{
    let mut state = before.state;
    let mut count: usize = before.count;
    let mut i: usize = from;
    proof {
        lemma_completed_at_most_bytes(bytes@, from as int);
    }
    while i < to && state != ScanState::Invalid
        invariant
            from <= i <= to <= bytes@.len(),
            state == state_after(bytes@, i as int),
            count == completed_after(bytes@, i as int),
            count <= i,
        decreases to - i,
    {
        state = step(state, bytes[i]);
        i += 1;
        if state == ScanState::ExpectLead {
            count += 1;
        }
    }
    proof {
        if i < to {
            lemma_invalid_is_final(bytes@, i as int, to as int);
        }
    }
    ScanOutcome { state, count }
}

/// Scans a whole buffer one byte at a time.
pub fn scan_scalar(bytes: &[u8]) -> (found: ScanOutcome)
    ensures
        found.is_after(bytes@, bytes@.len() as int),
{
    scan_span(bytes, 0, bytes.len(), ScanOutcome { state: ScanState::ExpectLead, count: 0 })
}

/// Scans a whole buffer lane by lane. A lane of ASCII met at a boundary is
/// passed over in one step; any other lane, and the bytes after the last full
/// lane, go through the machine byte by byte.
pub fn scan_vector(bytes: &[u8]) -> (found: ScanOutcome)
    ensures
        found.is_after(bytes@, bytes@.len() as int),
{
    let n: usize = bytes.len();
    let split = split_lanes(n);
    let mut found = ScanOutcome { state: ScanState::ExpectLead, count: 0 };
    let mut k: usize = 0;
    while k < split.lanes && found.state != ScanState::Invalid
        invariant
            k <= split.lanes,
            split.lanes * LANE_WIDTH + split.tail == n,
            n == bytes@.len(),
            found.is_after(bytes@, k * LANE_WIDTH),
        decreases split.lanes - k,
    {
        let offset: usize = k * LANE_WIDTH;
        let at_boundary = found.state == ScanState::ExpectLead;
        let lane = load_lane(bytes, offset);
        if at_boundary && lane_is_ascii(&lane) {
            proof {
                lemma_ascii_run(bytes@, offset as int, LANE_WIDTH as int);
                lemma_completed_at_most_bytes(bytes@, offset + LANE_WIDTH);
            }
            found = ScanOutcome { state: ScanState::ExpectLead, count: found.count + LANE_WIDTH };
        } else {
            found = scan_span(bytes, offset, offset + LANE_WIDTH, found);
        }
        k += 1;
    }
    proof {
        if found.state == ScanState::Invalid {
            lemma_invalid_is_final(bytes@, k * LANE_WIDTH, n as int);
        }
    }
    if found.state == ScanState::Invalid {
        found
    } else {
        scan_span(bytes, split.lanes * LANE_WIDTH, n, found)
    }
}

/// Scans a buffer on the path given. What is found does not depend on the
/// path.
pub fn scan_with(bytes: &[u8], path: ExecutionPath) -> (found: ScanOutcome)
    ensures
        found.is_after(bytes@, bytes@.len() as int),
        (found.state == ScanState::ExpectLead) == is_utf8(bytes@),
        found.count == scalar_count(bytes@),
{
    proof {
        lemma_machine_accepts_grammar(bytes@);
    }
    match path {
        ExecutionPath::Scalar => scan_scalar(bytes),
        ExecutionPath::Vector => scan_vector(bytes),
    }
}

/// Checks that a buffer is well-formed UTF-8: every sequence has the length
/// that its lead byte announces, no code point is written in more bytes than
/// it needs, none is a surrogate, and none lies beyond U+10FFFF.
pub fn utf8_validate(bytes: &[u8]) -> (checked: Result<(), StringOpsError>)
    ensures
        checked == if is_utf8(bytes@) {
            Ok::<(), StringOpsError>(())
        } else {
            Err::<(), StringOpsError>(StringOpsError::InvalidUtf8)
        },
{
    let found = scan_with(bytes, select_path(bytes.len(), VECTOR_ENABLED));
    if found.state == ScanState::ExpectLead {
        Ok(())
    } else {
        Err(StringOpsError::InvalidUtf8)
    }
}

/// Counts the characters of a buffer: one for each well-formed sequence,
/// whatever its length in bytes. On a buffer that is not well-formed UTF-8
/// the count stops before the first sequence that is malformed or cut short.
pub fn utf8_char_count(bytes: &[u8]) -> (count: usize)
    ensures
        count == scalar_count(bytes@),
{
    let found = scan_with(bytes, select_path(bytes.len(), VECTOR_ENABLED));
    found.count
}

} // verus!
