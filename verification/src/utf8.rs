//! Strict UTF-8: the grammar of well-formed byte sequences, the state
//! machine that scans for it in one forward pass, and the proof that the
//! machine accepts exactly the grammar.

use vstd::prelude::*;

verus! {

/// True for a continuation byte, `10xxxxxx`.
pub open spec fn is_continuation(b: u8) -> bool {
    0x80 <= b <= 0xbf
}

/// The number of bytes in the sequence that a lead byte opens, or 0 where the
/// byte can open none: a continuation byte, `0xc0` and `0xc1` (which could
/// only begin an overlong form), and `0xf5` and above (beyond U+10FFFF).
pub open spec fn lead_width(b: u8) -> int {
    if b <= 0x7f {
        1
    } else if 0xc2 <= b <= 0xdf {
        2
    } else if 0xe0 <= b <= 0xef {
        3
    } else if 0xf0 <= b <= 0xf4 {
        4
    } else {
        0
    }
}

/// The lowest byte that may follow a lead byte directly. It is raised after
/// `0xe0` and `0xf0`, which shuts out the overlong forms.
pub open spec fn second_low(lead: u8) -> u8 {
    if lead == 0xe0 {
        0xa0
    } else if lead == 0xf0 {
        0x90
    } else {
        0x80
    }
}

/// The highest byte that may follow a lead byte directly. It is lowered after
/// `0xed`, which shuts out the surrogates, and after `0xf4`, which shuts out
/// what lies beyond U+10FFFF.
pub open spec fn second_high(lead: u8) -> u8 {
    if lead == 0xed {
        0x9f
    } else if lead == 0xf4 {
        0x8f
    } else {
        0xbf
    }
}

/// The length of the well-formed sequence that starts at `i`, or 0 where
/// none starts there: the lead byte opens nothing, the buffer ends too
/// early, or a following byte is out of its range.
pub open spec fn scalar_len(s: Seq<u8>, i: int) -> int {
    let w = lead_width(s[i]);
    if 0 <= i < s.len() && 1 <= w && i + w <= s.len() && (w >= 2 ==> second_low(s[i]) <= s[i + 1]
        <= second_high(s[i])) && (w >= 3 ==> is_continuation(s[i + 2])) && (w >= 4
        ==> is_continuation(s[i + 3])) {
        w
    } else {
        0
    }
}

/// True when the bytes from `i` on are a run of well-formed sequences that
/// ends exactly at the end of the buffer.
pub open spec fn valid_from(s: Seq<u8>, i: int) -> bool
    decreases s.len() - i,
{
    if i >= s.len() {
        true
    } else {
        scalar_len(s, i) > 0 && valid_from(s, i + scalar_len(s, i))
    }
}

/// The number of well-formed sequences from `i` up to the first byte that
/// begins none, or to the end of the buffer.
pub open spec fn count_from(s: Seq<u8>, i: int) -> nat
    decreases s.len() - i,
{
    if i >= s.len() || scalar_len(s, i) <= 0 {
        0
    } else {
        1 + count_from(s, i + scalar_len(s, i))
    }
}

/// True when the buffer is well-formed UTF-8.
pub open spec fn is_utf8(s: Seq<u8>) -> bool {
    valid_from(s, 0)
}

/// The number of well-formed sequences at the front of the buffer. For
/// well-formed UTF-8 this is the number of characters.
pub open spec fn scalar_count(s: Seq<u8>) -> nat {
    count_from(s, 0)
}

/// What the high bits of a byte say about its place in a sequence.
#[derive(Clone, Copy, Debug, PartialEq, Eq, Structural)]
pub enum ByteClass {
    /// `0xxxxxxx`: a sequence of its own.
    Ascii,
    /// `10xxxxxx`: a continuation byte.
    Continuation,
    /// `110xxxxx`: opens a sequence of two bytes.
    Lead2,
    /// `1110xxxx`: opens a sequence of three bytes.
    Lead3,
    /// `11110xxx`: opens a sequence of four bytes.
    Lead4,
    /// `11111xxx`: has no place in UTF-8.
    Illegal,
}

/// The class of a byte, by its value.
pub open spec fn class_of(b: u8) -> ByteClass {
    if b <= 0x7f {
        ByteClass::Ascii
    } else if b <= 0xbf {
        ByteClass::Continuation
    } else if b <= 0xdf {
        ByteClass::Lead2
    } else if b <= 0xef {
        ByteClass::Lead3
    } else if b <= 0xf7 {
        ByteClass::Lead4
    } else {
        ByteClass::Illegal
    }
}

/// Classifies a byte by testing its high bits against the five patterns.
pub fn classify(b: u8) -> (class: ByteClass)
    ensures
        class == class_of(b),
{
    assert((b & 0x80 == 0x00) == (b <= 0x7f)) by (bit_vector);
    assert((b & 0xc0 == 0x80) == (0x80 <= b <= 0xbf)) by (bit_vector);
    assert((b & 0xe0 == 0xc0) == (0xc0 <= b <= 0xdf)) by (bit_vector);
    assert((b & 0xf0 == 0xe0) == (0xe0 <= b <= 0xef)) by (bit_vector);
    assert((b & 0xf8 == 0xf0) == (0xf0 <= b <= 0xf7)) by (bit_vector);
    if b & 0x80 == 0x00 {
        ByteClass::Ascii
    } else if b & 0xc0 == 0x80 {
        ByteClass::Continuation
    } else if b & 0xe0 == 0xc0 {
        ByteClass::Lead2
    } else if b & 0xf0 == 0xe0 {
        ByteClass::Lead3
    } else if b & 0xf8 == 0xf0 {
        ByteClass::Lead4
    } else {
        ByteClass::Illegal
    }
}

/// Where a scan stands between two bytes.
#[derive(Clone, Copy, Debug, PartialEq, Eq, Structural)]
pub enum ScanState {
    /// At a boundary between sequences: the next byte must be a lead byte.
    ExpectLead,
    /// Inside a sequence: `remaining` more bytes belong to it, and the next
    /// one must lie in `low..=high`.
    ExpectCont { remaining: u8, low: u8, high: u8 },
    /// A byte was met that no well-formed buffer holds at its place.
    Invalid,
}

impl ScanState {
    /// Inside a sequence between one and three bytes are owed, and the range
    /// for the next one lies within the continuation bytes.
    pub open spec fn wf(self) -> bool {
        match self {
            ScanState::ExpectCont { remaining, low, high } => 1 <= remaining <= 3 && 0x80 <= low
                <= high <= 0xbf,
            _ => true,
        }
    }
}

/// The state after a byte, from the state before it.
pub open spec fn step_of(state: ScanState, b: u8) -> ScanState {
    match state {
        ScanState::ExpectLead => {
            let w = lead_width(b);
            if w == 1 {
                ScanState::ExpectLead
            } else if w == 0 {
                ScanState::Invalid
            } else {
                ScanState::ExpectCont {
                    remaining: (w - 1) as u8,
                    low: second_low(b),
                    high: second_high(b),
                }
            }
        },
        ScanState::ExpectCont { remaining, low, high } => {
            if !(low <= b <= high) {
                ScanState::Invalid
            } else if remaining <= 1 {
                ScanState::ExpectLead
            } else {
                ScanState::ExpectCont { remaining: (remaining - 1) as u8, low: 0x80, high: 0xbf }
            }
        },
        ScanState::Invalid => ScanState::Invalid,
    }
}

/// The state in which a sequence of `width` bytes stands after its lead byte.
fn after_lead(lead: u8, width: u8) -> (state: ScanState)
    requires
        2 <= width <= 4,
        lead_width(lead) == width,
    ensures
        state == step_of(ScanState::ExpectLead, lead),
{
    let low: u8 = if lead == 0xe0 {
        0xa0
    } else if lead == 0xf0 {
        0x90
    } else {
        0x80
    };
    let high: u8 = if lead == 0xed {
        0x9f
    } else if lead == 0xf4 {
        0x8f
    } else {
        0xbf
    };
    ScanState::ExpectCont { remaining: width - 1, low, high }
}

/// Advances the scan by one byte.
pub fn step(state: ScanState, b: u8) -> (next: ScanState)
    ensures
        next == step_of(state, b),
        state.wf() ==> next.wf(),
{
    match state {
        ScanState::ExpectLead => match classify(b) {
            ByteClass::Ascii => ScanState::ExpectLead,
            ByteClass::Lead2 => if b >= 0xc2 {
                after_lead(b, 2)
            } else {
                ScanState::Invalid
            },
            ByteClass::Lead3 => after_lead(b, 3),
            ByteClass::Lead4 => if b <= 0xf4 {
                after_lead(b, 4)
            } else {
                ScanState::Invalid
            },
            ByteClass::Continuation | ByteClass::Illegal => ScanState::Invalid,
        },
        ScanState::ExpectCont { remaining, low, high } => {
            if b < low || b > high {
                ScanState::Invalid
            } else if remaining <= 1 {
                ScanState::ExpectLead
            } else {
                ScanState::ExpectCont { remaining: remaining - 1, low: 0x80, high: 0xbf }
            }
        },
        ScanState::Invalid => ScanState::Invalid,
    }
}

} // verus!
