//! Agreement of this library's grammar, which is written over ranges of
//! bytes, with the definition of UTF-8 over code points that vstd gives.

use vstd::prelude::*;
use vstd::utf8::{
    codepoint_width_1, codepoint_width_2, codepoint_width_3, codepoint_width_4, decode_utf8,
    encode_utf8, length_of_first_scalar, pop_first_scalar, valid_first_scalar, valid_utf8,
};
use crate::utf8::{count_from, is_utf8, scalar_count, scalar_len, valid_from};

verus! {

/// A single byte below `0x80` stands for a code point below the surrogates.
proof fn lemma_one_byte(b0: u8)
    by (bit_vector)
    requires
        b0 <= 0x7f,
    ensures
        codepoint_width_1(b0) < 0xd800,
{
}

/// A sequence of two bytes is overlong exactly if its lead byte is `0xc0` or
/// `0xc1`, and never reaches the surrogates.
proof fn lemma_two_bytes(b0: u8, b1: u8)
    by (bit_vector)
    requires
        0xc0 <= b0 <= 0xdf,
        0x80 <= b1 <= 0xbf,
    ensures
        (0x80 <= codepoint_width_2(b0, b1)) == (0xc2 <= b0),
        codepoint_width_2(b0, b1) < 0xd800,
{
}

/// A sequence of three bytes is overlong exactly if it begins `0xe0` and goes
/// on below `0xa0`, and is a surrogate exactly if it begins `0xed` and goes
/// on from `0xa0`.
proof fn lemma_three_bytes(b0: u8, b1: u8, b2: u8)
    by (bit_vector)
    requires
        0xe0 <= b0 <= 0xef,
        0x80 <= b1 <= 0xbf,
        0x80 <= b2 <= 0xbf,
    ensures
        (0x800 <= codepoint_width_3(b0, b1, b2)) == !(b0 == 0xe0 && b1 < 0xa0),
        (0xd800 <= codepoint_width_3(b0, b1, b2) <= 0xdfff) == (b0 == 0xed && 0xa0 <= b1),
{
}

/// A sequence of four bytes stands for a code point from U+10000 to U+10FFFF
/// exactly if it begins `0xf0` and goes on from `0x90`, begins `0xf1` to
/// `0xf3`, or begins `0xf4` and goes on up to `0x8f`.
proof fn lemma_four_bytes(b0: u8, b1: u8, b2: u8, b3: u8)
    by (bit_vector)
    requires
        0xf0 <= b0 <= 0xf7,
        0x80 <= b1 <= 0xbf,
        0x80 <= b2 <= 0xbf,
        0x80 <= b3 <= 0xbf,
    ensures
        (0x10000 <= codepoint_width_4(b0, b1, b2, b3) <= 0x10ffff) == ((b0 == 0xf0 && 0x90 <= b1)
            || (0xf1 <= b0 <= 0xf3) || (b0 == 0xf4 && b1 <= 0x8f)),
        0x10000 <= codepoint_width_4(b0, b1, b2, b3) ==> !(0xd800 <= codepoint_width_4(
            b0,
            b1,
            b2,
            b3,
        ) <= 0xdfff),
{
}

/// A buffer begins with a well-formed sequence by the ranges of its bytes
/// exactly if it does so by the code point that the bytes stand for, and the
/// two give the sequence the same length.
pub proof fn lemma_first_sequence_is_standard(s: Seq<u8>)
    ensures
        (scalar_len(s, 0) > 0) == valid_first_scalar(s),
        scalar_len(s, 0) > 0 ==> scalar_len(s, 0) == length_of_first_scalar(s),
{
    if s.len() >= 1 {
        let b0 = s[0];
        if b0 <= 0x7f {
            lemma_one_byte(b0);
        } else if 0xc0 <= b0 <= 0xdf {
            if s.len() >= 2 && 0x80 <= s[1] <= 0xbf {
                lemma_two_bytes(b0, s[1]);
            }
        } else if 0xe0 <= b0 <= 0xef {
            if s.len() >= 3 && 0x80 <= s[1] <= 0xbf && 0x80 <= s[2] <= 0xbf {
                lemma_three_bytes(b0, s[1], s[2]);
            }
        } else if 0xf0 <= b0 <= 0xf7 {
            if s.len() >= 4 && 0x80 <= s[1] <= 0xbf && 0x80 <= s[2] <= 0xbf && 0x80 <= s[3]
                <= 0xbf {
                lemma_four_bytes(b0, s[1], s[2], s[3]);
            }
        }
    }
}

/// The sequence that starts at `i` is the first sequence of the buffer cut
/// off before `i`.
proof fn lemma_scalar_len_of_suffix(s: Seq<u8>, i: int)
    requires
        0 <= i <= s.len(),
    ensures
        scalar_len(s, i) == scalar_len(s.subrange(i, s.len() as int), 0),
{
}

/// From any boundary on, the two definitions accept the same buffers and
/// find the same number of characters in them.
proof fn lemma_suffix_is_standard(s: Seq<u8>, i: int)
    requires
        0 <= i <= s.len(),
    ensures
        valid_from(s, i) == valid_utf8(s.subrange(i, s.len() as int)),
        valid_from(s, i) ==> count_from(s, i) == decode_utf8(s.subrange(i, s.len() as int)).len(),
    decreases s.len() - i,
{
    let rest = s.subrange(i, s.len() as int);
    if i < s.len() {
        lemma_scalar_len_of_suffix(s, i);
        lemma_first_sequence_is_standard(rest);
        let w = scalar_len(s, i);
        if w > 0 {
            assert(pop_first_scalar(rest) =~= s.subrange(i + w, s.len() as int));
            lemma_suffix_is_standard(s, i + w);
        }
    }
}

/// The grammar of this library is the UTF-8 of vstd: both accept the same
/// buffers, and the count of sequences in a well-formed buffer is the length
/// of the text that it decodes to.
pub proof fn lemma_grammar_is_standard(s: Seq<u8>)
    ensures
        is_utf8(s) == valid_utf8(s),
        is_utf8(s) ==> scalar_count(s) == decode_utf8(s).len(),
{
    lemma_suffix_is_standard(s, 0);
    assert(s.subrange(0, s.len() as int) =~= s);
}

/// The bytes of any text are well-formed UTF-8, and hold as many sequences
/// as the text has characters.
pub proof fn lemma_text_is_utf8(text: Seq<char>)
    ensures
        is_utf8(encode_utf8(text)),
        scalar_count(encode_utf8(text)) == text.len(),
{
    vstd::utf8::encode_utf8_valid_utf8(text);
    vstd::utf8::encode_utf8_decode_utf8(text);
    lemma_grammar_is_standard(encode_utf8(text));
}

} // verus!
