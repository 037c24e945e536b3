//! ASCII case mapping: the mathematical model of both conversions and the
//! byte-at-a-time path that every other path is measured against.

use vstd::prelude::*;

verus! {

/// The bit that separates an ASCII letter from its other case.
pub const CASE_BIT: u8 = 0x20;

/// True for the bytes of the ASCII letters `a` to `z`.
pub open spec fn is_lower(b: u8) -> bool {
    0x61 <= b <= 0x7a
}

/// True for the bytes of the ASCII letters `A` to `Z`.
pub open spec fn is_upper(b: u8) -> bool {
    0x41 <= b <= 0x5a
}

/// The upper-case form of a byte: `a` to `z` move down by 32, every other
/// byte stays as it is.
pub open spec fn upper_of(b: u8) -> u8 {
    if is_lower(b) {
        (b - 0x20) as u8
    } else {
        b
    }
}

/// The lower-case form of a byte: `A` to `Z` move up by 32, every other byte
/// stays as it is.
pub open spec fn lower_of(b: u8) -> u8 {
    if is_upper(b) {
        (b + 0x20) as u8
    } else {
        b
    }
}

/// A buffer with every byte replaced by its upper-case form.
pub open spec fn upper_seq(s: Seq<u8>) -> Seq<u8> {
    s.map_values(|b: u8| upper_of(b))
}

/// A buffer with every byte replaced by its lower-case form.
pub open spec fn lower_seq(s: Seq<u8>) -> Seq<u8> {
    s.map_values(|b: u8| lower_of(b))
}

/// Toggling the case bit of a lower-case letter subtracts 32 from it, and
/// toggling it on an upper-case letter adds 32.
pub proof fn lemma_case_bit_toggle(b: u8)
    ensures
        is_lower(b) ==> b ^ 0x20 == (b - 0x20) as u8,
        is_upper(b) ==> b ^ 0x20 == (b + 0x20) as u8,
{
    assert(0x61 <= b <= 0x7a ==> b ^ 0x20 == (b - 0x20) as u8) by (bit_vector);
    assert(0x41 <= b <= 0x5a ==> b ^ 0x20 == (b + 0x20) as u8) by (bit_vector);
}

/// Upper-cases one byte.
pub fn upper_byte(b: u8) -> (r: u8)
    ensures
        r == upper_of(b),
{
    if 0x61 <= b && b <= 0x7a {
        proof {
            lemma_case_bit_toggle(b);
        }
        b ^ CASE_BIT
    } else {
        b
    }
}

/// Lower-cases one byte.
pub fn lower_byte(b: u8) -> (r: u8)
    ensures
        r == lower_of(b),
{
    if 0x41 <= b && b <= 0x5a {
        proof {
            lemma_case_bit_toggle(b);
        }
        b ^ CASE_BIT
    } else {
        b
    }
}

/// Upper-cases the bytes from `start` to the end of the buffer, one at a
/// time, and leaves the bytes before `start` alone.
pub fn to_upper_scalar_from(buffer: &mut [u8], start: usize)
    requires
        start <= old(buffer)@.len(),
    ensures
        final(buffer)@.len() == old(buffer)@.len(),
        forall|i: int| 0 <= i < start ==> final(buffer)@[i] == old(buffer)@[i],
        forall|i: int|
            start <= i < old(buffer)@.len() ==> final(buffer)@[i] == upper_of(old(buffer)@[i]),
{
    let n: usize = buffer.len();
    let mut i: usize = start;
    while i < n
        invariant
            start <= i <= n,
            n == buffer@.len(),
            buffer@.len() == old(buffer)@.len(),
            forall|j: int| 0 <= j < start ==> buffer@[j] == old(buffer)@[j],
            forall|j: int| start <= j < i ==> buffer@[j] == upper_of(old(buffer)@[j]),
            forall|j: int| i <= j < n ==> buffer@[j] == old(buffer)@[j],
        decreases n - i,
    {
        let b: u8 = buffer[i];
        buffer[i] = upper_byte(b);
        i += 1;
    }
}

/// Lower-cases the bytes from `start` to the end of the buffer, one at a
/// time, and leaves the bytes before `start` alone.
pub fn to_lower_scalar_from(buffer: &mut [u8], start: usize)
    requires
        start <= old(buffer)@.len(),
    ensures
        final(buffer)@.len() == old(buffer)@.len(),
        forall|i: int| 0 <= i < start ==> final(buffer)@[i] == old(buffer)@[i],
        forall|i: int|
            start <= i < old(buffer)@.len() ==> final(buffer)@[i] == lower_of(old(buffer)@[i]),
{
    let n: usize = buffer.len();
    let mut i: usize = start;
    while i < n
        invariant
            start <= i <= n,
            n == buffer@.len(),
            buffer@.len() == old(buffer)@.len(),
            forall|j: int| 0 <= j < start ==> buffer@[j] == old(buffer)@[j],
            forall|j: int| start <= j < i ==> buffer@[j] == lower_of(old(buffer)@[j]),
            forall|j: int| i <= j < n ==> buffer@[j] == old(buffer)@[j],
        decreases n - i,
    {
        let b: u8 = buffer[i];
        buffer[i] = lower_byte(b);
        i += 1;
    }
}

/// The byte-at-a-time upper-casing of a whole buffer.
pub fn to_upper_scalar(buffer: &mut [u8])
    ensures
        final(buffer)@ == upper_seq(old(buffer)@),
{
    to_upper_scalar_from(buffer, 0);
    assert(buffer@ =~= upper_seq(old(buffer)@));
}

/// The byte-at-a-time lower-casing of a whole buffer.
pub fn to_lower_scalar(buffer: &mut [u8])
    ensures
        final(buffer)@ == lower_seq(old(buffer)@),
{
    to_lower_scalar_from(buffer, 0);
    assert(buffer@ =~= lower_seq(old(buffer)@));
}

/// Lower-casing forgets an earlier upper-casing, and the other way round.
pub proof fn lemma_case_round_trip(s: Seq<u8>)
    ensures
        lower_seq(upper_seq(s)) == lower_seq(s),
        upper_seq(lower_seq(s)) == upper_seq(s),
{
    assert(lower_seq(upper_seq(s)) =~= lower_seq(s));
    assert(upper_seq(lower_seq(s)) =~= upper_seq(s));
}

/// Converting twice to the same case is the same as converting once.
pub proof fn lemma_case_idempotent(s: Seq<u8>)
    ensures
        upper_seq(upper_seq(s)) == upper_seq(s),
        lower_seq(lower_seq(s)) == lower_seq(s),
{
    assert(upper_seq(upper_seq(s)) =~= upper_seq(s));
    assert(lower_seq(lower_seq(s)) =~= lower_seq(s));
}

/// Neither conversion changes the length of a buffer, a byte outside the
/// ASCII range, or any byte that is not a letter of the case it removes.
pub proof fn lemma_case_touches_letters_only(s: Seq<u8>, i: int)
    requires
        0 <= i < s.len(),
    ensures
        upper_seq(s).len() == s.len(),
        lower_seq(s).len() == s.len(),
        !is_lower(s[i]) ==> upper_seq(s)[i] == s[i],
        !is_upper(s[i]) ==> lower_seq(s)[i] == s[i],
        s[i] >= 0x80 ==> upper_seq(s)[i] == s[i] && lower_seq(s)[i] == s[i],
        is_lower(s[i]) ==> upper_seq(s)[i] == s[i] - 0x20,
        is_upper(s[i]) ==> lower_seq(s)[i] == s[i] + 0x20,
{
}

} // verus!
