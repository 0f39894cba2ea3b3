//! The order of texts by their bytes in UTF-8, which is the order of their
//! characters.

use vstd::prelude::*;
use vstd::utf8::{
    char_is_scalar, encode_scalar, encode_utf8, has_width_1_encoding, has_width_2_encoding,
    has_width_3_encoding, last_continuation_byte, leading_byte_width_1, leading_byte_width_2,
    leading_byte_width_3, leading_byte_width_4, second_last_continuation_byte,
    third_last_continuation_byte,
};

use crate::text_map::before;

verus! {

/// Whether `a` stands before `b` byte by byte.
pub open spec fn bytes_before(a: Seq<u8>, b: Seq<u8>) -> bool
    decreases a.len(),
{
    if b.len() == 0 {
        false
    } else if a.len() == 0 {
        true
    } else if a[0] != b[0] {
        a[0] < b[0]
    } else {
        bytes_before(a.skip(1), b.skip(1))
    }
}

/// Whether `a` and `b` differ at a place that both have, and `a` has the lesser byte
/// at the first one.
spec fn parts_below(a: Seq<u8>, b: Seq<u8>) -> bool
    decreases a.len(),
{
    a.len() > 0 && b.len() > 0 && if a[0] != b[0] {
        a[0] < b[0]
    } else {
        parts_below(a.skip(1), b.skip(1))
    }
}

proof fn lemma_parts_decide(a: Seq<u8>, b: Seq<u8>, x: Seq<u8>, y: Seq<u8>)
    requires
        parts_below(a, b),
    ensures
        bytes_before(a + x, b + y),
        !bytes_before(b + y, a + x),
    decreases a.len(),
{
    if a[0] == b[0] {
        lemma_parts_decide(a.skip(1), b.skip(1), x, y);
        assert((a + x).skip(1) =~= a.skip(1) + x);
        assert((b + y).skip(1) =~= b.skip(1) + y);
    }
}

proof fn lemma_same_front(front: Seq<u8>, x: Seq<u8>, y: Seq<u8>)
    ensures
        bytes_before(front + x, front + y) == bytes_before(x, y),
    decreases front.len(),
{
    if front.len() == 0 {
        assert(front + x =~= x);
        assert(front + y =~= y);
    } else {
        lemma_same_front(front.skip(1), x, y);
        assert((front + x).skip(1) =~= front.skip(1) + x);
        assert((front + y).skip(1) =~= front.skip(1) + y);
    }
}

proof fn lemma_byte_values(c: u32)
    ensures
        c < 0x80 ==> leading_byte_width_1(c) == c,
        c < 0x800 ==> leading_byte_width_2(c) == 0xC0 + c / 64,
        c < 0x10000 ==> leading_byte_width_3(c) == 0xE0 + c / 4096,
        c < 0x20_0000 ==> leading_byte_width_4(c) == 0xF0 + c / 262144,
        last_continuation_byte(c) == 0x80 + c % 64,
        second_last_continuation_byte(c) == 0x80 + (c / 64) % 64,
        third_last_continuation_byte(c) == 0x80 + (c / 4096) % 64,
{
    assert(c < 0x80 ==> (c & 0x7F) as u8 == c) by (bit_vector);
    assert(c < 0x800 ==> (0xC0u8 | ((c >> 6) & 0x1F) as u8) == 0xC0 + c / 64) by (bit_vector);
    assert(c < 0x10000 ==> (0xE0u8 | ((c >> 12) & 0x0F) as u8) == 0xE0 + c / 4096) by (bit_vector);
    assert(c < 0x20_0000 ==> (0xF0u8 | ((c >> 18) & 0x7) as u8) == 0xF0 + c / 262144)
        by (bit_vector);
    assert((0x80u8 | (c & 0x3F) as u8) == 0x80 + c % 64) by (bit_vector);
    assert((0x80u8 | ((c >> 6) & 0x3F) as u8) == 0x80 + (c / 64) % 64) by (bit_vector);
    assert((0x80u8 | ((c >> 12) & 0x3F) as u8) == 0x80 + (c / 4096) % 64) by (bit_vector);
}

proof fn lemma_lesser_scalar(c: u32, d: u32)
    requires
        c < d <= 0x10FFFF,
        vstd::utf8::is_scalar(c),
        vstd::utf8::is_scalar(d),
    ensures
        parts_below(encode_scalar(c), encode_scalar(d)),
{
    lemma_byte_values(c);
    lemma_byte_values(d);
    reveal_with_fuel(parts_below, 5);
    let a = encode_scalar(c);
    let b = encode_scalar(d);
    if a.len() == b.len() {
        if a.len() > 1 {
            assert(a.skip(1)[0] == a[1] && b.skip(1)[0] == b[1]);
        }
        if a.len() > 2 {
            assert(a.skip(1).skip(1)[0] == a[2] && b.skip(1).skip(1)[0] == b[2]);
        }
        if a.len() > 3 {
            assert(a.skip(1).skip(1).skip(1)[0] == a[3] && b.skip(1).skip(1).skip(1)[0] == b[3]);
        }
    }
}

proof fn lemma_code(p: char, q: char)
    ensures
        p as u32 == p as int,
        q as u32 == q as int,
        p as u32 == q as u32 ==> p == q,
{
}

/// Texts stand to each other as their bytes in UTF-8 do.
pub proof fn byte_order_is_text_order(a: Seq<char>, b: Seq<char>)
    ensures
        bytes_before(encode_utf8(a), encode_utf8(b)) == before(a, b),
    decreases a.len(),
{
    if a.len() > 0 {
        char_is_scalar(a[0]);
    }
    if b.len() > 0 {
        char_is_scalar(b[0]);
    }
    if a.len() > 0 && b.len() > 0 {
        let c = a[0] as u32;
        let d = b[0] as u32;
        lemma_code(a[0], b[0]);
        let x = encode_utf8(a.drop_first());
        let y = encode_utf8(b.drop_first());
        assert(a.drop_first() =~= a.skip(1));
        assert(b.drop_first() =~= b.skip(1));
        if c == d {
            byte_order_is_text_order(a.skip(1), b.skip(1));
            lemma_same_front(encode_scalar(c), x, y);
        } else if c < d {
            lemma_lesser_scalar(c, d);
            lemma_parts_decide(encode_scalar(c), encode_scalar(d), x, y);
        } else {
            lemma_lesser_scalar(d, c);
            lemma_parts_decide(encode_scalar(d), encode_scalar(c), y, x);
        }
    }
}

/// Texts whose bytes in UTF-8 are the same are the same.
pub proof fn bytes_tell_texts_apart(a: Seq<char>, b: Seq<char>)
    ensures
        encode_utf8(a) == encode_utf8(b) <==> a == b,
{
    vstd::utf8::encode_utf8_decode_utf8(a);
    vstd::utf8::encode_utf8_decode_utf8(b);
}

} // verus!
