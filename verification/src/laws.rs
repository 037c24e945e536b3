//! What holds of well-formed UTF-8 whatever the buffer: which bytes it can
//! hold and where, that ASCII is always well-formed, and that the case
//! conversions neither break nor mend a buffer.

use vstd::prelude::*;
use crate::case::{lower_seq, upper_seq};
use crate::lane::all_ascii;
use crate::scan::{lemma_ascii_run, lemma_machine_accepts_grammar};
use crate::utf8::{
    count_from, is_continuation, is_utf8, lead_width, scalar_count, scalar_len, valid_from,
};

verus! {

/// The empty buffer is well-formed and holds no character, and both case
/// conversions leave it empty.
pub proof fn lemma_empty_buffer()
    ensures
        is_utf8(Seq::<u8>::empty()),
        scalar_count(Seq::<u8>::empty()) == 0,
        upper_seq(Seq::<u8>::empty()) == Seq::<u8>::empty(),
        lower_seq(Seq::<u8>::empty()) == Seq::<u8>::empty(),
{
    assert(upper_seq(Seq::<u8>::empty()) =~= Seq::<u8>::empty());
    assert(lower_seq(Seq::<u8>::empty()) =~= Seq::<u8>::empty());
}

/// A buffer of ASCII is well-formed, and holds one character per byte.
pub proof fn lemma_ascii_is_utf8(s: Seq<u8>)
    requires
        all_ascii(s),
    ensures
        is_utf8(s),
        scalar_count(s) == s.len(),
{
    assert(s.subrange(0, s.len() as int) =~= s);
    lemma_ascii_run(s, 0, s.len() as int);
    lemma_machine_accepts_grammar(s);
}

/// From a boundary of a well-formed buffer on, no byte is `0xc0`, `0xc1` or
/// above `0xf4`, and the last byte closes a sequence.
proof fn lemma_shape_from(s: Seq<u8>, p: int, i: int)
    requires
        0 <= p <= i < s.len(),
        valid_from(s, p),
    ensures
        s[i] != 0xc0,
        s[i] != 0xc1,
        s[i] <= 0xf4,
        lead_width(s[s.len() - 1]) <= 1,
    decreases s.len() - p,
{
    let w = scalar_len(s, p);
    if p + w < s.len() {
        if i >= p + w {
            lemma_shape_from(s, p + w, i);
        } else {
            lemma_shape_from(s, p + w, p + w);
        }
    }
}

/// In a well-formed buffer no byte is `0xc0`, `0xc1` or above `0xf4`, the
/// first byte is no continuation byte, and the last byte is ASCII or a
/// continuation byte: no sequence is cut short.
pub proof fn lemma_utf8_shape(s: Seq<u8>, i: int)
    requires
        is_utf8(s),
        0 <= i < s.len(),
    ensures
        s[i] != 0xc0,
        s[i] != 0xc1,
        s[i] <= 0xf4,
        !is_continuation(s[0]),
        lead_width(s[s.len() - 1]) <= 1,
{
    lemma_shape_from(s, 0, i);
}

/// True when `t` differs from `s` at most in what ASCII byte stands where.
pub open spec fn same_outside_ascii(s: Seq<u8>, t: Seq<u8>) -> bool {
    &&& s.len() == t.len()
    &&& forall|i: int| 0 <= i < s.len() ==> (s[i] >= 0x80 ==> #[trigger] t[i] == s[i])
    &&& forall|i: int| 0 <= i < s.len() ==> (s[i] < 0x80 ==> #[trigger] t[i] < 0x80)
}

/// Exchanging ASCII bytes for ASCII bytes changes neither where the
/// sequences of a buffer lie nor whether the buffer is well-formed.
proof fn lemma_ascii_changes_keep_grammar(s: Seq<u8>, t: Seq<u8>, i: int)
    requires
        same_outside_ascii(s, t),
        0 <= i <= s.len(),
    ensures
        valid_from(t, i) == valid_from(s, i),
        count_from(t, i) == count_from(s, i),
    decreases s.len() - i,
{
    if i < s.len() {
        assert(t[i] == s[i] || (t[i] < 0x80 && s[i] < 0x80));
        let w = lead_width(s[i]);
        assert(lead_width(t[i]) == w);
        if i + w <= s.len() && w >= 1 {
            if w >= 2 {
                assert(t[i + 1] == s[i + 1] || (t[i + 1] < 0x80 && s[i + 1] < 0x80));
            }
            if w >= 3 {
                assert(t[i + 2] == s[i + 2] || (t[i + 2] < 0x80 && s[i + 2] < 0x80));
            }
            if w >= 4 {
                assert(t[i + 3] == s[i + 3] || (t[i + 3] < 0x80 && s[i + 3] < 0x80));
            }
        }
        assert(scalar_len(t, i) == scalar_len(s, i));
        if scalar_len(s, i) > 0 {
            lemma_ascii_changes_keep_grammar(s, t, i + scalar_len(s, i));
        }
    }
}

/// A case conversion keeps a well-formed buffer well-formed and a malformed
/// one malformed, and does not change the number of characters.
pub proof fn lemma_case_keeps_utf8(s: Seq<u8>)
    ensures
        is_utf8(upper_seq(s)) == is_utf8(s),
        is_utf8(lower_seq(s)) == is_utf8(s),
        scalar_count(upper_seq(s)) == scalar_count(s),
        scalar_count(lower_seq(s)) == scalar_count(s),
{
    assert(same_outside_ascii(s, upper_seq(s)));
    assert(same_outside_ascii(s, lower_seq(s)));
    lemma_ascii_changes_keep_grammar(s, upper_seq(s), 0);
    lemma_ascii_changes_keep_grammar(s, lower_seq(s), 0);
}

} // verus!
