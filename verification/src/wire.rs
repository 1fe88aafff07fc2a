//! The primitives of the wire format: little-endian integers, length-prefixed frames and text.

use vstd::prelude::*;
use vstd::string::*;
use vstd::utf8::*;
use crate::error::ProtocolError;

verus! {

/// The `width` low-order bytes of `value`, least significant first.
pub open spec fn le_bytes(value: nat, width: nat) -> Seq<u8>
    decreases width,
{
    if width == 0 {
        Seq::empty()
    } else {
        seq![(value % 256) as u8] + le_bytes(value / 256, (width - 1) as nat)
    }
}

/// The number that `bytes` spell, least significant byte first.
pub open spec fn le_value(bytes: Seq<u8>) -> nat
    decreases bytes.len(),
{
    if bytes.len() == 0 {
        0
    } else {
        bytes[0] as nat + 256 * le_value(bytes.drop_first())
    }
}

/// 256 to the power `width`: the number of values that `width` bytes can spell.
pub open spec fn radix_power(width: nat) -> nat
    decreases width,
{
    if width == 0 {
        1
    } else {
        256 * radix_power((width - 1) as nat)
    }
}

/// A number is spelled in as many bytes as asked for.
pub proof fn lemma_le_bytes_len(value: nat, width: nat)
    ensures
        le_bytes(value, width).len() == width,
    decreases width,
{
    if width > 0 {
        lemma_le_bytes_len(value / 256, (width - 1) as nat);
    }
}

/// Spelling a number that fits and reading it back gives the number.
pub proof fn lemma_le_value_of_bytes(value: nat, width: nat)
    requires
        value < radix_power(width),
    ensures
        le_value(le_bytes(value, width)) == value,
    decreases width,
{
    if width > 0 {
        let rest = le_bytes(value / 256, (width - 1) as nat);
        lemma_le_value_of_bytes(value / 256, (width - 1) as nat);
        lemma_le_bytes_len(value / 256, (width - 1) as nat);
        assert(le_bytes(value, width).drop_first() =~= rest);
    }
}

/// What `width` bytes spell is below 256 to the `width`.
pub proof fn lemma_le_value_bound(bytes: Seq<u8>)
    ensures
        le_value(bytes) < radix_power(bytes.len()),
    decreases bytes.len(),
{
    if bytes.len() > 0 {
        lemma_le_value_bound(bytes.drop_first());
    }
}

/// No two sequences of the same length spell the same number: reading bytes and spelling the
/// number again gives the bytes.
pub proof fn law_bytes_spell_one_number(bytes: Seq<u8>)
    ensures
        le_bytes(le_value(bytes), bytes.len()) == bytes,
    decreases bytes.len(),
{
    if bytes.len() > 0 {
        let tail = bytes.drop_first();
        law_bytes_spell_one_number(tail);
        let v = le_value(bytes);
        assert(v % 256 == bytes[0] as nat);
        assert(v / 256 == le_value(tail));
        assert(le_bytes(v, bytes.len()) =~= bytes);
    } else {
        assert(le_bytes(le_value(bytes), 0) =~= bytes);
    }
}

/// Four bytes spell the numbers below 2 to the 32, eight bytes those below 2 to the 64.
pub proof fn lemma_radix_powers()
    ensures
        radix_power(4) == 0x1_0000_0000,
        radix_power(8) == 0x1_0000_0000_0000_0000,
{
    reveal_with_fuel(radix_power, 9);
}

/// The four bytes of a raw count on the wire.
pub fn encode_u32(value: u32) -> (bytes: Vec<u8>)
    ensures
        bytes@ == le_bytes(value as nat, 4),
{
    let mut bytes: Vec<u8> = Vec::new();
    let mut rest: u32 = value;
    let mut i: usize = 0;
    while i < 4
        invariant
            i <= 4,
            bytes@ + le_bytes(rest as nat, (4 - i) as nat) == le_bytes(value as nat, 4),
        decreases 4 - i,
    {
        let ghost before = bytes@;
        bytes.push((rest % 256) as u8);
        proof {
            let tail = le_bytes((rest / 256) as nat, (4 - i - 1) as nat);
            assert(bytes@ + tail =~= before + le_bytes(rest as nat, (4 - i) as nat));
        }
        rest = rest / 256;
        i = i + 1;
    }
    assert(bytes@ + le_bytes(rest as nat, 0) =~= bytes@);
    bytes
}

/// The eight bytes of a 64-bit number on the wire.
pub fn encode_u64(value: u64) -> (bytes: Vec<u8>)
    ensures
        bytes@ == le_bytes(value as nat, 8),
{
    let mut bytes: Vec<u8> = Vec::new();
    let mut rest: u64 = value;
    let mut i: usize = 0;
    while i < 8
        invariant
            i <= 8,
            bytes@ + le_bytes(rest as nat, (8 - i) as nat) == le_bytes(value as nat, 8),
        decreases 8 - i,
    {
        let ghost before = bytes@;
        bytes.push((rest % 256) as u8);
        proof {
            let tail = le_bytes((rest / 256) as nat, (8 - i - 1) as nat);
            assert(bytes@ + tail =~= before + le_bytes(rest as nat, (8 - i) as nat));
        }
        rest = rest / 256;
        i = i + 1;
    }
    assert(bytes@ + le_bytes(rest as nat, 0) =~= bytes@);
    bytes
}

/// What a reader makes of the start of `bytes` as a raw count: the number that the first four
/// bytes spell, or `Truncated` where there are fewer.
pub open spec fn parse_u32(bytes: Seq<u8>) -> Result<u32, ProtocolError> {
    if bytes.len() < 4 {
        Err(ProtocolError::Truncated)
    } else {
        Ok(le_value(bytes.take(4)) as u32)
    }
}

/// What a reader makes of the start of `bytes` as a 64-bit number.
pub open spec fn parse_u64(bytes: Seq<u8>) -> Result<u64, ProtocolError> {
    if bytes.len() < 8 {
        Err(ProtocolError::Truncated)
    } else {
        Ok(le_value(bytes.take(8)) as u64)
    }
}

/// Reads a raw count from the start of `bytes`.
pub fn decode_u32(bytes: &[u8]) -> (value: Result<u32, ProtocolError>)
    ensures
        value == parse_u32(bytes@),
{
    if bytes.len() < 4 {
        return Err(ProtocolError::Truncated);
    }
    let mut value: u32 = 0;
    let mut i: usize = 4;
    proof {
        assert(bytes@.take(4).skip(4) =~= Seq::<u8>::empty());
    }
    while i > 0
        invariant
            i <= 4,
            bytes.len() >= 4,
            value as nat == le_value(bytes@.take(4).skip(i as int)),
            (value as nat) < radix_power((4 - i) as nat),
        decreases i,
    {
        i = i - 1;
        proof {
            let suffix = bytes@.take(4).skip(i as int);
            assert(suffix.drop_first() =~= bytes@.take(4).skip(i + 1));
            assert(suffix[0] == bytes@[i as int]);
            reveal_with_fuel(radix_power, 5);
        }
        value = value * 256 + bytes[i] as u32;
    }
    proof {
        assert(bytes@.take(4).skip(0) =~= bytes@.take(4));
    }
    Ok(value)
}

/// Reads a 64-bit number from the start of `bytes`.
pub fn decode_u64(bytes: &[u8]) -> (value: Result<u64, ProtocolError>)
    ensures
        value == parse_u64(bytes@),
{
    if bytes.len() < 8 {
        return Err(ProtocolError::Truncated);
    }
    let mut value: u64 = 0;
    let mut i: usize = 8;
    proof {
        assert(bytes@.take(8).skip(8) =~= Seq::<u8>::empty());
    }
    while i > 0
        invariant
            i <= 8,
            bytes.len() >= 8,
            value as nat == le_value(bytes@.take(8).skip(i as int)),
            (value as nat) < radix_power((8 - i) as nat),
        decreases i,
    {
        i = i - 1;
        proof {
            let suffix = bytes@.take(8).skip(i as int);
            assert(suffix.drop_first() =~= bytes@.take(8).skip(i + 1));
            assert(suffix[0] == bytes@[i as int]);
            reveal_with_fuel(radix_power, 9);
        }
        value = value * 256 + bytes[i] as u64;
    }
    proof {
        assert(bytes@.take(8).skip(0) =~= bytes@.take(8));
    }
    Ok(value)
}

/// Appends `more` to `out`.
pub fn append_bytes(out: &mut Vec<u8>, more: &[u8])
    ensures
        final(out)@ == old(out)@ + more@,
{
    let mut i: usize = 0;
    while i < more.len()
        invariant
            i <= more.len(),
            out@ == old(out)@ + more@.take(i as int),
        decreases more.len() - i,
    {
        out.push(more[i]);
        assert(more@.take(i + 1) =~= more@.take(i as int).push(more@[i as int]));
        i = i + 1;
    }
    assert(more@.take(more.len() as int) =~= more@);
}

/// The bytes of `bytes` from `from` up to `to`, in a vector of their own.
pub fn copy_range(bytes: &[u8], from: usize, to: usize) -> (out: Vec<u8>)
    requires
        from <= to <= bytes.len(),
    ensures
        out@ == bytes@.subrange(from as int, to as int),
{
    let mut out: Vec<u8> = Vec::new();
    let mut i: usize = from;
    while i < to
        invariant
            from <= i <= to,
            to <= bytes.len(),
            out@ == bytes@.subrange(from as int, i as int),
        decreases to - i,
    {
        out.push(bytes[i]);
        assert(bytes@.subrange(from as int, i + 1) =~= bytes@.subrange(from as int, i as int).push(
            bytes@[i as int],
        ));
        i = i + 1;
    }
    out
}

/// The largest payload that a frame can announce.
pub const MAX_PAYLOAD: usize = 0xffff_ffff;

/// A frame: the payload's length as a raw count, then the payload.
pub open spec fn frame_of(payload: Seq<u8>) -> Seq<u8> {
    le_bytes(payload.len(), 4) + payload
}

/// What a reader makes of the start of `bytes` as a frame: the payload and the number of bytes
/// that the frame takes, or `Truncated` where the header or the announced payload is not all
/// there.
pub open spec fn parse_frame(bytes: Seq<u8>) -> Result<(Seq<u8>, nat), ProtocolError> {
    if bytes.len() < 4 {
        Err(ProtocolError::Truncated)
    } else {
        let announced = le_value(bytes.take(4));
        if bytes.len() - 4 < announced {
            Err(ProtocolError::Truncated)
        } else {
            Ok((bytes.subrange(4, 4 + announced as int), 4 + announced))
        }
    }
}

/// The count that a frame's header spells fits in 32 bits.
pub proof fn lemma_header_bound(bytes: Seq<u8>)
    requires
        bytes.len() >= 4,
    ensures
        le_value(bytes.take(4)) <= u32::MAX,
{
    lemma_le_value_bound(bytes.take(4));
    lemma_radix_powers();
}

/// Wraps `payload` in a frame. A payload that a 32-bit count cannot announce is refused.
pub fn frame(payload: &[u8]) -> (framed: Result<Vec<u8>, ProtocolError>)
    ensures
        payload.len() <= MAX_PAYLOAD ==> framed is Ok && framed->Ok_0@ == frame_of(payload@),
        payload.len() > MAX_PAYLOAD ==> framed == Err::<Vec<u8>, ProtocolError>(
            ProtocolError::Oversize,
        ),
{
    if payload.len() > MAX_PAYLOAD {
        return Err(ProtocolError::Oversize);
    }
    let mut framed: Vec<u8> = encode_u32(payload.len() as u32);
    append_bytes(&mut framed, payload);
    Ok(framed)
}

/// Takes one frame off the start of `bytes`: its payload, and how many bytes it took.
pub fn split_frame(bytes: &[u8]) -> (parsed: Result<(Vec<u8>, usize), ProtocolError>)
    ensures
        match parsed {
            Ok((payload, taken)) => parse_frame(bytes@) == Ok::<_, ProtocolError>(
                (payload@, taken as nat),
            ),
            Err(e) => parse_frame(bytes@) == Err::<(Seq<u8>, nat), _>(e),
        },
{
    proof {
        if bytes@.len() >= 4 {
            lemma_header_bound(bytes@);
        }
    }
    match decode_u32(bytes) {
        Err(e) => Err(e),
        Ok(announced) => {
            if bytes.len() - 4 < announced as usize {
                Err(ProtocolError::Truncated)
            } else {
                let end: usize = 4 + announced as usize;
                Ok((copy_range(bytes, 4, end), end))
            }
        },
    }
}

/// How many more bytes the stream must yield before `bytes` starts with a whole frame: zero
/// exactly when it already does.
pub open spec fn frame_shortfall(bytes: Seq<u8>) -> nat {
    if bytes.len() < 4 {
        (4 - bytes.len()) as nat
    } else {
        let announced = le_value(bytes.take(4));
        if bytes.len() - 4 < announced {
            (announced - (bytes.len() - 4)) as nat
        } else {
            0
        }
    }
}

/// The number of bytes still to read before `bytes` holds a whole frame. While the header is
/// incomplete this is what the header lacks; after that, what the payload lacks.
pub fn missing_for_frame(bytes: &[u8]) -> (missing: usize)
    ensures
        missing == frame_shortfall(bytes@),
        missing == 0 <==> parse_frame(bytes@) is Ok,
{
    proof {
        if bytes@.len() >= 4 {
            lemma_header_bound(bytes@);
        }
    }
    match decode_u32(bytes) {
        Err(_) => 4 - bytes.len(),
        Ok(announced) => {
            let have: usize = bytes.len() - 4;
            if have < announced as usize {
                announced as usize - have
            } else {
                0
            }
        },
    }
}

/// A frame is read back as its payload, whatever follows it.
pub proof fn lemma_frame_round_trip(payload: Seq<u8>, rest: Seq<u8>)
    requires
        payload.len() <= MAX_PAYLOAD,
    ensures
        parse_frame(frame_of(payload) + rest) == Ok::<_, ProtocolError>(
            (payload, 4 + payload.len()),
        ),
{
    let header = le_bytes(payload.len(), 4);
    let bytes = frame_of(payload) + rest;
    lemma_le_bytes_len(payload.len(), 4);
    lemma_radix_powers();
    lemma_le_value_of_bytes(payload.len(), 4);
    assert(bytes.take(4) =~= header);
    assert(bytes.subrange(4, 4 + payload.len() as int) =~= payload);
}

/// A raw count is read back as written, whatever follows it.
pub proof fn lemma_u32_round_trip(value: u32, rest: Seq<u8>)
    ensures
        parse_u32(le_bytes(value as nat, 4) + rest) == Ok::<u32, ProtocolError>(value),
{
    lemma_le_bytes_len(value as nat, 4);
    lemma_radix_powers();
    lemma_le_value_of_bytes(value as nat, 4);
    assert((le_bytes(value as nat, 4) + rest).take(4) =~= le_bytes(value as nat, 4));
}

/// A 64-bit number is read back as written, whatever follows it.
pub proof fn lemma_u64_round_trip(value: u64, rest: Seq<u8>)
    ensures
        parse_u64(le_bytes(value as nat, 8) + rest) == Ok::<u64, ProtocolError>(value),
{
    lemma_le_bytes_len(value as nat, 8);
    lemma_radix_powers();
    lemma_le_value_of_bytes(value as nat, 8);
    assert((le_bytes(value as nat, 8) + rest).take(8) =~= le_bytes(value as nat, 8));
}

/// A text on the wire: one frame that holds its UTF-8 bytes.
pub open spec fn text_frame(chars: Seq<char>) -> Seq<u8> {
    frame_of(encode_utf8(chars))
}

/// What a reader makes of a text payload: its characters, or `InvalidUtf8`.
pub open spec fn parse_text(payload: Seq<u8>) -> Result<Seq<char>, ProtocolError> {
    if valid_utf8(payload) {
        Ok(decode_utf8(payload))
    } else {
        Err(ProtocolError::InvalidUtf8)
    }
}

/// `String::from_utf8` of std: the bytes as a string where they are valid UTF-8, which are then
/// the string's own bytes, and nothing where they are not.
#[verifier::external_body]
fn string_from_utf8(bytes: Vec<u8>) -> (text: Option<String>)
    ensures
        valid_utf8(bytes@) ==> text is Some && text->Some_0@ == decode_utf8(bytes@),
        !valid_utf8(bytes@) ==> text is None,
{
    match String::from_utf8(bytes) {
        Ok(s) => Some(s),
        Err(_) => None,
    }
}

/// The frame that carries `text`. A text of more than `MAX_PAYLOAD` bytes is refused.
pub fn encode_text(text: &str) -> (framed: Result<Vec<u8>, ProtocolError>)
    ensures
        encode_utf8(text@).len() <= MAX_PAYLOAD ==> framed is Ok && framed->Ok_0@ == text_frame(
            text@,
        ),
        encode_utf8(text@).len() > MAX_PAYLOAD ==> framed == Err::<Vec<u8>, ProtocolError>(
            ProtocolError::Oversize,
        ),
{
    frame(text.as_bytes())
}

/// Reads a text payload.
pub fn decode_text(payload: Vec<u8>) -> (text: Result<String, ProtocolError>)
    ensures
        match text {
            Ok(s) => parse_text(payload@) == Ok::<Seq<char>, ProtocolError>(s@),
            Err(e) => parse_text(payload@) == Err::<Seq<char>, ProtocolError>(e),
        },
{
    match string_from_utf8(payload) {
        Some(s) => Ok(s),
        None => Err(ProtocolError::InvalidUtf8),
    }
}

/// A text is read back from its payload as written.
pub proof fn lemma_text_round_trip(chars: Seq<char>)
    ensures
        parse_text(encode_utf8(chars)) == Ok::<Seq<char>, ProtocolError>(chars),
{
    encode_utf8_valid_utf8(chars);
    encode_utf8_decode_utf8(chars);
}

/// A frame whose header announces more bytes than follow it is not read: the reader reports
/// `Truncated`, however many bytes are missing.
pub proof fn law_overlong_frame_is_truncated(bytes: Seq<u8>)
    requires
        bytes.len() >= 4,
        le_value(bytes.take(4)) > bytes.len() - 4,
    ensures
        parse_frame(bytes) == Err::<(Seq<u8>, nat), ProtocolError>(ProtocolError::Truncated),
{
}

/// A text payload that is not valid UTF-8 is not read: the reader reports `InvalidUtf8`.
pub proof fn law_text_must_be_utf8(payload: Seq<u8>)
    requires
        !valid_utf8(payload),
    ensures
        parse_text(payload) == Err::<Seq<char>, ProtocolError>(ProtocolError::InvalidUtf8),
{
}

/// A text that fits in a frame is read back from its frame as written.
pub proof fn law_framed_text_round_trip(chars: Seq<char>, rest: Seq<u8>)
    requires
        encode_utf8(chars).len() <= MAX_PAYLOAD,
    ensures
        parse_frame(text_frame(chars) + rest) == Ok::<_, ProtocolError>(
            (encode_utf8(chars), 4 + encode_utf8(chars).len()),
        ),
        parse_text(encode_utf8(chars)) == Ok::<Seq<char>, ProtocolError>(chars),
{
    lemma_frame_round_trip(encode_utf8(chars), rest);
    lemma_text_round_trip(chars);
}

} // verus!
