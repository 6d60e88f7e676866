//! Facts about the UTF-8 encoding of text, by which statements about the
//! characters of a text carry over to its bytes.

use vstd::prelude::*;
use vstd::utf8::{
    char_is_scalar, encode_scalar, encode_utf8, has_width_1_encoding, has_width_2_encoding,
    has_width_3_encoding, last_continuation_byte, leading_byte_width_1, leading_byte_width_2,
    leading_byte_width_3, leading_byte_width_4, second_last_continuation_byte,
    third_last_continuation_byte,
};

verus! {

/// An ASCII character is encoded as the one byte of its code, and that byte
/// occurs in the encoding of no other character.
pub proof fn lemma_ascii_byte_of_char(c: char, byte: u8)
    requires
        byte < 0x80,
    ensures
        c as u32 == byte as u32 ==> encode_scalar(c as u32) == seq![byte],
        c as u32 != byte as u32 ==> !encode_scalar(c as u32).contains(byte),
{
    let scalar = c as u32;
    let bytes = encode_scalar(scalar);
    char_is_scalar(c);
    if has_width_1_encoding(scalar) {
        assert(leading_byte_width_1(scalar) as u32 == scalar) by (bit_vector)
            requires
                has_width_1_encoding(scalar),
        ;
        assert(bytes =~= seq![leading_byte_width_1(scalar)]);
        if scalar != byte as u32 {
            assert forall|i: int| 0 <= i < bytes.len() implies bytes[i] != byte by {}
        }
    } else {
        assert(leading_byte_width_2(scalar) >= 0x80) by (bit_vector);
        assert(leading_byte_width_3(scalar) >= 0x80) by (bit_vector);
        assert(leading_byte_width_4(scalar) >= 0x80) by (bit_vector);
        assert(last_continuation_byte(scalar) >= 0x80) by (bit_vector);
        assert(second_last_continuation_byte(scalar) >= 0x80) by (bit_vector);
        assert(third_last_continuation_byte(scalar) >= 0x80) by (bit_vector);
        assert forall|i: int| 0 <= i < bytes.len() implies bytes[i] != byte by {
            if has_width_2_encoding(scalar) {
                assert(bytes[i] >= 0x80);
            } else if has_width_3_encoding(scalar) {
                assert(bytes[i] >= 0x80);
            } else {
                assert(bytes[i] >= 0x80);
            }
        }
    }
}

/// The encoding of a text with one more character at its end is the encoding
/// of the text with the bytes of that character at its end.
pub proof fn lemma_encode_push(text: Seq<char>, c: char)
    ensures
        encode_utf8(text.push(c)) == encode_utf8(text) + encode_scalar(c as u32),
    decreases text.len(),
{
    let longer = text.push(c);
    if text.len() == 0 {
        assert(longer.drop_first() =~= Seq::<char>::empty());
        assert(encode_utf8(longer.drop_first()) =~= Seq::<u8>::empty());
        assert(encode_utf8(longer) =~= encode_scalar(c as u32));
    } else {
        assert(longer.drop_first() =~= text.drop_first().push(c));
        lemma_encode_push(text.drop_first(), c);
        assert(encode_utf8(longer) =~= encode_utf8(text) + encode_scalar(c as u32));
    }
}

/// The encoding of two texts put together is their encodings put together.
pub proof fn lemma_encode_concat(first: Seq<char>, second: Seq<char>)
    ensures
        encode_utf8(first + second) == encode_utf8(first) + encode_utf8(second),
    decreases second.len(),
{
    if second.len() == 0 {
        assert(first + second =~= first);
        assert(encode_utf8(first) + encode_utf8(second) =~= encode_utf8(first));
    } else {
        let front = second.drop_last();
        let last = second.last();
        assert(second =~= front.push(last));
        assert(first + second =~= (first + front).push(last));
        lemma_encode_push(first + front, last);
        lemma_encode_push(front, last);
        lemma_encode_concat(first, front);
        assert(encode_utf8(first + second) =~= encode_utf8(first) + encode_utf8(second));
    }
}

/// An ASCII byte occurs in the encoding of a text only if the character of
/// that code occurs in the text.
pub proof fn lemma_ascii_byte_of_text(text: Seq<char>, byte: u8)
    requires
        byte < 0x80,
        forall|i: int| 0 <= i < text.len() ==> text[i] as u32 != byte as u32,
    ensures
        !encode_utf8(text).contains(byte),
    decreases text.len(),
{
    if text.len() > 0 {
        let front = text.drop_last();
        let last = text.last();
        assert(text =~= front.push(last));
        lemma_encode_push(front, last);
        lemma_ascii_byte_of_text(front, byte);
        lemma_ascii_byte_of_char(last, byte);
        let bytes = encode_utf8(text);
        let head = encode_utf8(front);
        let tail = encode_scalar(last as u32);
        assert forall|i: int| 0 <= i < bytes.len() implies bytes[i] != byte by {
            if i < head.len() {
                assert(head.contains(head[i]));
            } else {
                assert(tail.contains(tail[i - head.len()]));
            }
        }
    }
}

} // verus!
