//! The wire format below the level of messages: wire types, field keys,
//! length-delimited runs of bytes and the skipping of unknown fields.

use vstd::prelude::*;

use crate::varint::{put_varint, take_varint};
use crate::varint::{varint_at, varint_bytes, varint_is_prefix, varint_reads_back};

verus! {

/// How the value behind a field key is laid out.
#[derive(Debug, Clone, Copy, PartialEq, Eq, Structural)]
pub enum WireType {
    Varint,
    SixtyFourBit,
    LengthDelimited,
    StartGroup,
    EndGroup,
    ThirtyTwoBit,
}

/// Why a message could not be decoded.
#[derive(Debug, Clone, Copy, PartialEq, Eq, Structural)]
pub enum DecodeErrorKind {
    InvalidVarint,
    RecursionLimitReached,
    InvalidWireType { value: u64 },
    InvalidKey { key: u64 },
    InvalidTag,
    UnexpectedWireType { actual: WireType, expected: WireType },
    BufferUnderflow,
    DelimitedLengthExceeded,
    UnexpectedEndGroupTag,
    InvalidString,
}

/// The largest field tag.
pub const MAX_TAG: u32 = 0x1fff_ffff;

impl WireType {
    /// The number of the wire type in a field key.
    pub open spec fn number(self) -> nat {
        match self {
            WireType::Varint => 0,
            WireType::SixtyFourBit => 1,
            WireType::LengthDelimited => 2,
            WireType::StartGroup => 3,
            WireType::EndGroup => 4,
            WireType::ThirtyTwoBit => 5,
        }
    }

    /// The wire type with the given number.
    pub open spec fn numbered(number: nat) -> Option<WireType> {
        if number == 0 {
            Some(WireType::Varint)
        } else if number == 1 {
            Some(WireType::SixtyFourBit)
        } else if number == 2 {
            Some(WireType::LengthDelimited)
        } else if number == 3 {
            Some(WireType::StartGroup)
        } else if number == 4 {
            Some(WireType::EndGroup)
        } else if number == 5 {
            Some(WireType::ThirtyTwoBit)
        } else {
            None
        }
    }

    fn from_number(number: u64) -> (r: Option<WireType>)
        ensures
            r == WireType::numbered(number as nat),
    {
        match number {
            0 => Some(WireType::Varint),
            1 => Some(WireType::SixtyFourBit),
            2 => Some(WireType::LengthDelimited),
            3 => Some(WireType::StartGroup),
            4 => Some(WireType::EndGroup),
            5 => Some(WireType::ThirtyTwoBit),
            _ => None,
        }
    }

    fn to_number(self) -> (r: u64)
        ensures
            r == self.number(),
    {
        match self {
            WireType::Varint => 0,
            WireType::SixtyFourBit => 1,
            WireType::LengthDelimited => 2,
            WireType::StartGroup => 3,
            WireType::EndGroup => 4,
            WireType::ThirtyTwoBit => 5,
        }
    }
}

/// A field key: the tag above the number of the wire type.
pub open spec fn key_bytes(tag: u32, wire: WireType) -> Seq<u8> {
    varint_bytes((tag * 8 + wire.number()) as nat)
}

/// The field key at the start of `bytes`, with what follows it.
pub open spec fn key_at(bytes: Seq<u8>) -> Result<(u32, WireType, Seq<u8>), DecodeErrorKind> {
    match varint_at(bytes) {
        None => Err(DecodeErrorKind::InvalidVarint),
        Some((key, rest)) => if key > u32::MAX {
            Err(DecodeErrorKind::InvalidKey { key: key as u64 })
        } else {
            match WireType::numbered(key % 8) {
                None => Err(DecodeErrorKind::InvalidWireType { value: (key % 8) as u64 }),
                Some(wire) => if key / 8 == 0 {
                    Err(DecodeErrorKind::InvalidTag)
                } else {
                    Ok(((key / 8) as u32, wire, rest))
                },
            }
        },
    }
}

/// The first `count` bytes, and the bytes behind them.
pub open spec fn run_at(bytes: Seq<u8>, count: nat) -> Result<
    (Seq<u8>, Seq<u8>),
    DecodeErrorKind,
> {
    if count > bytes.len() {
        Err(DecodeErrorKind::BufferUnderflow)
    } else {
        Ok((bytes.take(count as int), bytes.skip(count as int)))
    }
}

/// A length and as many bytes.
pub open spec fn delimited_at(bytes: Seq<u8>) -> Result<(Seq<u8>, Seq<u8>), DecodeErrorKind> {
    match varint_at(bytes) {
        None => Err(DecodeErrorKind::InvalidVarint),
        Some((count, rest)) => run_at(rest, count),
    }
}

/// `content` behind its length.
pub open spec fn delimited_bytes(content: Seq<u8>) -> Seq<u8> {
    varint_bytes(content.len()) + content
}

/// What follows a field whose key has been read, where `depth` more levels of
/// nesting are allowed.
pub open spec fn skipped(wire: WireType, tag: u32, bytes: Seq<u8>, depth: nat) -> Result<
    Seq<u8>,
    DecodeErrorKind,
>
    decreases depth, bytes.len(), 1nat,
{
    if depth == 0 {
        Err(DecodeErrorKind::RecursionLimitReached)
    } else {
        match wire {
            WireType::Varint => match varint_at(bytes) {
                None => Err(DecodeErrorKind::InvalidVarint),
                Some((_, rest)) => Ok(rest),
            },
            WireType::ThirtyTwoBit => match run_at(bytes, 4) {
                Err(e) => Err(e),
                Ok((_, rest)) => Ok(rest),
            },
            WireType::SixtyFourBit => match run_at(bytes, 8) {
                Err(e) => Err(e),
                Ok((_, rest)) => Ok(rest),
            },
            WireType::LengthDelimited => match delimited_at(bytes) {
                Err(e) => Err(e),
                Ok((_, rest)) => Ok(rest),
            },
            WireType::StartGroup => group_skipped(tag, bytes, depth),
            WireType::EndGroup => Err(DecodeErrorKind::UnexpectedEndGroupTag),
        }
    }
}

/// What follows the group with the given tag, whose start has been read. Every
/// field of the group takes at least the byte of its key.
pub open spec fn group_skipped(tag: u32, bytes: Seq<u8>, depth: nat) -> Result<
    Seq<u8>,
    DecodeErrorKind,
>
    decreases depth, bytes.len(), 0nat,
{
    match key_at(bytes) {
        Err(e) => Err(e),
        Ok((inner_tag, inner_wire, rest)) => if inner_wire is EndGroup {
            if inner_tag == tag {
                Ok(rest)
            } else {
                Err(DecodeErrorKind::UnexpectedEndGroupTag)
            }
        } else if depth == 0 {
            Err(DecodeErrorKind::RecursionLimitReached)
        } else {
            match skipped(inner_wire, inner_tag, rest, (depth - 1) as nat) {
                Err(e) => Err(e),
                Ok(next) => if next.len() < bytes.len() {
                    group_skipped(tag, next, depth)
                } else {
                    Err(DecodeErrorKind::UnexpectedEndGroupTag)
                },
            }
        },
    }
}

/// What is left after a varint is shorter than the input.
pub proof fn varint_at_shortens(bytes: Seq<u8>)
    ensures
        varint_at(bytes) matches Some((_, rest)) ==> rest.len() < bytes.len(),
{
    varint_is_prefix(bytes, crate::varint::MAX_VARINT_LEN as nat);
}

/// Skipping a field never yields more bytes than there were.
pub proof fn skipped_shortens(wire: WireType, tag: u32, bytes: Seq<u8>, depth: nat)
    ensures
        skipped(wire, tag, bytes, depth) matches Ok(rest) ==> rest.len() <= bytes.len(),
    decreases depth, bytes.len(), 1nat,
{
    if depth > 0 {
        varint_at_shortens(bytes);
        if wire is StartGroup {
            group_skipped_shortens(tag, bytes, depth);
        }
    }
}

pub proof fn group_skipped_shortens(tag: u32, bytes: Seq<u8>, depth: nat)
    ensures
        group_skipped(tag, bytes, depth) matches Ok(rest) ==> rest.len() <= bytes.len(),
    decreases depth, bytes.len(), 0nat,
{
    varint_at_shortens(bytes);
    if let Ok((inner_tag, inner_wire, rest)) = key_at(bytes) {
        if !(inner_wire is EndGroup) && depth > 0 {
            skipped_shortens(inner_wire, inner_tag, rest, (depth - 1) as nat);
            if let Ok(next) = skipped(inner_wire, inner_tag, rest, (depth - 1) as nat) {
                if next.len() < bytes.len() {
                    group_skipped_shortens(tag, next, depth);
                }
            }
        }
    }
}

/// A key reads back as it was written.
pub proof fn key_reads_back(tag: u32, wire: WireType, rest: Seq<u8>)
    requires
        1 <= tag <= MAX_TAG,
    ensures
        key_at(key_bytes(tag, wire) + rest) == Ok::<_, DecodeErrorKind>((tag, wire, rest)),
        key_bytes(tag, wire).len() >= 1,
{
    let key = (tag * 8 + wire.number()) as u64;
    varint_reads_back(key, rest);
}

/// A length-delimited run reads back as it was written.
pub proof fn delimited_reads_back(content: Seq<u8>, rest: Seq<u8>)
    requires
        content.len() <= u64::MAX,
    ensures
        delimited_at(delimited_bytes(content) + rest) == Ok::<_, DecodeErrorKind>((content, rest)),
        varint_at(delimited_bytes(content) + rest) == Some((content.len(), content + rest)),
{
    let count = content.len() as u64;
    varint_reads_back(count, content + rest);
    assert(delimited_bytes(content) + rest =~= varint_bytes(content.len()) + (content + rest));
    assert((content + rest).take(content.len() as int) =~= content);
    assert((content + rest).skip(content.len() as int) =~= rest);
}

/// Splits `bytes` behind its first `count`.
pub(crate) fn take_run(bytes: &[u8], count: u64) -> (r: Result<(&[u8], &[u8]), DecodeErrorKind>)
    ensures
        match r {
            Ok((head, tail)) => run_at(bytes@, count as nat) == Ok::<_, DecodeErrorKind>(
                (head@, tail@),
            ),
            Err(e) => run_at(bytes@, count as nat) == Err::<(Seq<u8>, Seq<u8>), _>(e),
        },
{
    if count > bytes.len() as u64 {
        Err(DecodeErrorKind::BufferUnderflow)
    } else {
        let (head, tail) = bytes.split_at(count as usize);
        assert(head@ =~= bytes@.take(count as int));
        assert(tail@ =~= bytes@.skip(count as int));
        Ok((head, tail))
    }
}

/// Reads a length and as many bytes.
pub(crate) fn take_delimited(bytes: &[u8]) -> (r: Result<(&[u8], &[u8]), DecodeErrorKind>)
    ensures
        match r {
            Ok((head, tail)) => delimited_at(bytes@) == Ok::<_, DecodeErrorKind>((head@, tail@)),
            Err(e) => delimited_at(bytes@) == Err::<(Seq<u8>, Seq<u8>), _>(e),
        },
{
    match take_varint(bytes) {
        None => Err(DecodeErrorKind::InvalidVarint),
        Some((count, rest)) => take_run(rest, count),
    }
}

/// Reads a field key.
pub(crate) fn take_key(bytes: &[u8]) -> (r: Result<(u32, WireType, &[u8]), DecodeErrorKind>)
    ensures
        match r {
            Ok((tag, wire, rest)) => key_at(bytes@) == Ok::<_, DecodeErrorKind>((tag, wire, rest@))
                && rest@.len() < bytes@.len() && 1 <= tag <= MAX_TAG,
            Err(e) => key_at(bytes@) == Err::<(u32, WireType, Seq<u8>), _>(e),
        },
{
    proof {
        varint_at_shortens(bytes@);
    }
    let (key, rest): (u64, &[u8]) = match take_varint(bytes) {
        None => return Err(DecodeErrorKind::InvalidVarint),
        Some(found) => found,
    };
    if key > u32::MAX as u64 {
        return Err(DecodeErrorKind::InvalidKey { key });
    }
    match WireType::from_number(key % 8) {
        None => Err(DecodeErrorKind::InvalidWireType { value: key % 8 }),
        Some(wire) => {
            let tag: u32 = (key / 8) as u32;
            if tag == 0 {
                Err(DecodeErrorKind::InvalidTag)
            } else {
                Ok((tag, wire, rest))
            }
        },
    }
}

/// Appends a field key.
pub(crate) fn put_key(tag: u32, wire: WireType, out: &mut Vec<u8>)
    ensures
        final(out)@ == old(out)@ + key_bytes(tag, wire),
{
    put_varint(tag as u64 * 8 + wire.to_number(), out)
}

/// Appends `content` behind its length.
pub(crate) fn put_delimited(content: &[u8], out: &mut Vec<u8>)
    ensures
        final(out)@ == old(out)@ + delimited_bytes(content@),
{
    put_varint(content.len() as u64, out);
    let ghost start = out@;
    out.extend_from_slice(content);
    assert(out@ =~= start + content@);
    assert(out@ =~= old(out)@ + delimited_bytes(content@));
}

/// Passes over the value of a field whose key has been read. The context that
/// `prost::encoding::skip_field` wants for a field of a nested message cannot be
/// made outside that crate, so the depth is counted here.
pub(crate) fn skip_field(wire: WireType, tag: u32, bytes: &[u8], depth: u32) -> (r: Result<
    &[u8],
    DecodeErrorKind,
>)
    ensures
        match r {
            Ok(rest) => skipped(wire, tag, bytes@, depth as nat) == Ok::<_, DecodeErrorKind>(rest@)
                && rest@.len() <= bytes@.len(),
            Err(e) => skipped(wire, tag, bytes@, depth as nat) == Err::<Seq<u8>, _>(e),
        },
    decreases depth, bytes@.len(), 1nat,
{
    proof {
        skipped_shortens(wire, tag, bytes@, depth as nat);
    }
    if depth == 0 {
        return Err(DecodeErrorKind::RecursionLimitReached);
    }
    match wire {
        WireType::Varint => match take_varint(bytes) {
            None => Err(DecodeErrorKind::InvalidVarint),
            Some((_, rest)) => Ok(rest),
        },
        WireType::ThirtyTwoBit => match take_run(bytes, 4) {
            Err(e) => Err(e),
            Ok((_, rest)) => Ok(rest),
        },
        WireType::SixtyFourBit => match take_run(bytes, 8) {
            Err(e) => Err(e),
            Ok((_, rest)) => Ok(rest),
        },
        WireType::LengthDelimited => match take_delimited(bytes) {
            Err(e) => Err(e),
            Ok((_, rest)) => Ok(rest),
        },
        WireType::StartGroup => skip_group(tag, bytes, depth),
        WireType::EndGroup => Err(DecodeErrorKind::UnexpectedEndGroupTag),
    }
}

fn skip_group(tag: u32, bytes: &[u8], depth: u32) -> (r: Result<&[u8], DecodeErrorKind>)
    requires
        depth > 0,
    ensures
        match r {
            Ok(rest) => group_skipped(tag, bytes@, depth as nat) == Ok::<_, DecodeErrorKind>(rest@),
            Err(e) => group_skipped(tag, bytes@, depth as nat) == Err::<Seq<u8>, _>(e),
        },
    decreases depth, bytes@.len(), 0nat,
{
    let mut left = bytes;
    loop
        invariant
            depth > 0,
            left@.len() <= bytes@.len(),
            group_skipped(tag, left@, depth as nat) == group_skipped(tag, bytes@, depth as nat),
        decreases left@.len(),
    {
        match take_key(left) {
            Err(e) => return Err(e),
            Ok((inner_tag, inner_wire, rest)) => {
                if inner_wire == WireType::EndGroup {
                    if inner_tag == tag {
                        return Ok(rest);
                    }
                    return Err(DecodeErrorKind::UnexpectedEndGroupTag);
                }
                match skip_field(inner_wire, inner_tag, rest, depth - 1) {
                    Err(e) => return Err(e),
                    Ok(next) => {
                        left = next;
                    },
                }
            },
        }
    }
}

} // verus!
