//! What normalizing a field means for its characters: folding the bytes of
//! a field lowers its ASCII letters, and two fields have the same
//! normalized form exactly when they are the same text up to that.

use vstd::prelude::*;
use vstd::utf8::{encode_scalar, encode_utf8, has_width_1_encoding};
use crate::model::{fold_byte, norm_field};
use crate::text::{ascii_lowered, lemma_same_encoding, lower_char};

verus! {

/// The bytes of a text with every byte folded.
pub open spec fn folded(bytes: Seq<u8>) -> Seq<u8> {
    Seq::new(bytes.len(), |i: int| fold_byte(bytes[i]))
}

proof fn lemma_ascii_byte(v: u32)
    by (bit_vector)
    requires
        v <= 0x7F,
    ensures
        (v & 0x7F) as u8 == v as u8,
        (v as u8) as u32 == v,
{
}

proof fn lemma_high_bytes(v: u32)
    by (bit_vector)
    ensures
        0xC0u8 | ((v >> 6) & 0x1F) as u8 >= 0x80u8,
        0xE0u8 | ((v >> 12) & 0x0F) as u8 >= 0x80u8,
        0xF0u8 | ((v >> 18) & 0x7) as u8 >= 0x80u8,
        0x80u8 | (v & 0x3F) as u8 >= 0x80u8,
        0x80u8 | ((v >> 6) & 0x3F) as u8 >= 0x80u8,
        0x80u8 | ((v >> 12) & 0x3F) as u8 >= 0x80u8,
{
}

/// Folding the encoding of a character gives the encoding of the
/// character in lower case.
proof fn lemma_fold_scalar(c: char)
    ensures
        folded(encode_scalar(c as u32)) == encode_scalar(lower_char(c) as u32),
{
    let v = c as u32;
    if has_width_1_encoding(v) {
        lemma_ascii_byte(v);
        let w = lower_char(c) as u32;
        lemma_ascii_byte(w);
        assert(folded(encode_scalar(v)) =~= encode_scalar(w));
    } else {
        lemma_high_bytes(v);
        assert(lower_char(c) == c);
        assert(folded(encode_scalar(v)) =~= encode_scalar(v));
    }
}

/// Folding the encoding of a text gives the encoding of the text with its
/// ASCII letters lowered.
pub proof fn lemma_fold_lowers(text: Seq<char>)
    ensures
        folded(encode_utf8(text)) == encode_utf8(ascii_lowered(text)),
    decreases text.len(),
{
    if text.len() > 0 {
        let rest = text.drop_first();
        lemma_fold_lowers(rest);
        lemma_fold_scalar(text[0]);
        assert(ascii_lowered(text).drop_first() =~= ascii_lowered(rest));
        assert(folded(encode_utf8(text)) =~= folded(encode_scalar(text[0] as u32)) + folded(
            encode_utf8(rest),
        ));
    } else {
        assert(folded(encode_utf8(text)) =~= encode_utf8(ascii_lowered(text)));
    }
}

/// Key equality in terms of characters. Without folding, two fields have
/// the same normalized form exactly when they are the same text. With
/// folding, exactly when they are the same text once the ASCII letters
/// `A` to `Z` of both are lowered; no other character is touched.
pub proof fn law_field_match(a: Seq<char>, b: Seq<char>, fold: bool)
    ensures
        norm_field(a, fold) == norm_field(b, fold) <==> (if fold {
            ascii_lowered(a) == ascii_lowered(b)
        } else {
            a == b
        }),
{
    if fold {
        lemma_fold_lowers(a);
        lemma_fold_lowers(b);
        if norm_field(a, fold) == norm_field(b, fold) {
            lemma_same_encoding(ascii_lowered(a), ascii_lowered(b));
        }
    } else {
        if norm_field(a, fold) == norm_field(b, fold) {
            lemma_same_encoding(a, b);
        }
    }
}

} // verus!
