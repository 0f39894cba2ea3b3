//! Base-128 varints, the integers of the wire format.

use vstd::prelude::*;

verus! {

/// The longest varint has ten bytes.
pub const MAX_VARINT_LEN: usize = 10;

/// The bytes that stand for `value`: seven bits to a byte, low bits first,
/// the high bit set on every byte but the last.
pub open spec fn varint_bytes(value: nat) -> Seq<u8>
    decreases value,
{
    if value < 128 {
        seq![value as u8]
    } else {
        seq![(value % 128 + 128) as u8] + varint_bytes(value / 128)
    }
}

/// The value of the varint at the start of `bytes` and the number of bytes it
/// takes, where it may take at most `room` of them. The last byte there is room
/// for adds a single bit.
pub open spec fn varint_within(bytes: Seq<u8>, room: nat) -> Option<(nat, nat)>
    decreases room,
{
    if room == 0 || bytes.len() == 0 {
        None
    } else if bytes[0] < 128 {
        if room == 1 && bytes[0] >= 2 {
            None
        } else {
            Some((bytes[0] as nat, 1))
        }
    } else {
        match varint_within(bytes.skip(1), (room - 1) as nat) {
            Some((high, taken)) => Some(((bytes[0] - 128 + 128 * high) as nat, taken + 1)),
            None => None,
        }
    }
}

/// The varint at the start of `bytes`, with what follows it.
pub open spec fn varint_at(bytes: Seq<u8>) -> Option<(nat, Seq<u8>)> {
    match varint_within(bytes, MAX_VARINT_LEN as nat) {
        Some((value, taken)) => Some((value, bytes.skip(taken as int))),
        None => None,
    }
}

/// Appends `value` to `out` by `prost::encoding::encode_varint`. Trusted: what
/// that function writes to a growing buffer is `varint_bytes(value)`.
#[verifier::external_body]
pub(crate) fn put_varint(value: u64, out: &mut Vec<u8>)
    ensures
        final(out)@ == old(out)@ + varint_bytes(value as nat),
{
    prost::encoding::encode_varint(value, out)
}

/// Reads a varint by `prost::encoding::decode_varint`. Trusted: that function
/// reads the varint of at most ten bytes at the start of the buffer and leaves
/// what follows it, and fails where the bytes end first, where ten bytes do not
/// end it, or where the tenth adds more than one bit.
#[verifier::external_body]
pub(crate) fn take_varint(bytes: &[u8]) -> (r: Option<(u64, &[u8])>)
    ensures
        match r {
            Some((value, rest)) => varint_at(bytes@) == Some((value as nat, rest@)),
            None => varint_at(bytes@) is None,
        },
{
    let mut rest = bytes;
    match prost::encoding::decode_varint(&mut rest) {
        Ok(value) => Some((value, rest)),
        Err(_) => None,
    }
}

/// One more than the largest value of a varint of at most `room` bytes.
spec fn varint_bound(room: nat) -> nat
    decreases room,
{
    if room <= 1 {
        2
    } else {
        128 * varint_bound((room - 1) as nat)
    }
}

proof fn lemma_varint_within(value: nat, room: nat, rest: Seq<u8>)
    requires
        room >= 1,
        value < varint_bound(room),
    ensures
        varint_within(varint_bytes(value) + rest, room) == Some((value, varint_bytes(value).len())),
    decreases room,
{
    let bytes = varint_bytes(value) + rest;
    if value < 128 {
        assert(bytes[0] == value as u8);
    } else {
        assert(room >= 2);
        let high = value / 128;
        assert(bytes[0] == (value % 128 + 128) as u8);
        assert(bytes.skip(1) =~= varint_bytes(high) + rest);
        lemma_varint_within(high, (room - 1) as nat, rest);
    }
}

/// A varint reads back as the value that was written, and leaves what was
/// written after it.
pub proof fn varint_reads_back(value: u64, rest: Seq<u8>)
    ensures
        varint_at(varint_bytes(value as nat) + rest) == Some((value as nat, rest)),
        varint_bytes(value as nat).len() >= 1,
{
    reveal_with_fuel(varint_bound, 11);
    lemma_varint_within(value as nat, MAX_VARINT_LEN as nat, rest);
    let bytes = varint_bytes(value as nat);
    assert((bytes + rest).skip(bytes.len() as int) =~= rest);
}

/// A varint takes between one and ten bytes of the input.
pub proof fn varint_is_prefix(bytes: Seq<u8>, room: nat)
    ensures
        varint_within(bytes, room) matches Some((_, taken)) ==> 1 <= taken <= room && taken
            <= bytes.len(),
    decreases room,
{
    if room > 0 && bytes.len() > 0 && bytes[0] >= 128 {
        varint_is_prefix(bytes.skip(1), (room - 1) as nat);
    }
}

} // verus!
