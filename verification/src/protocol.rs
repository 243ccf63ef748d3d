use vstd::prelude::*;
use vstd::slice::{slice_subrange, slice_to_vec};
use vstd::utf8::encode_utf8;
use crate::error::ProtocolError;

verus! {

/// The most bytes a VarInt may occupy: five groups of seven bits cover 32 bits.
pub const MAX_VARINT_BYTES: usize = 5;

/// The 32-bit pattern of `value`, read as an unsigned number.
pub open spec fn unsigned_of(value: i32) -> nat {
    if value >= 0 {
        value as nat
    } else {
        (value + 0x1_0000_0000) as nat
    }
}

/// The signed number whose 32-bit pattern is the low 32 bits of `bits`.
pub open spec fn signed_of(bits: nat) -> i32 {
    let low = bits % 0x1_0000_0000;
    if low < 0x8000_0000 {
        low as i32
    } else {
        (low - 0x1_0000_0000) as i32
    }
}

/// The VarInt encoding of an unsigned number: seven bits per byte, least
/// significant group first, the high bit set on every byte but the last.
pub open spec fn varint_bytes(value: nat) -> Seq<u8>
    decreases value,
{
    if value < 0x80 {
        seq![value as u8]
    } else {
        seq![(value % 0x80 + 0x80) as u8] + varint_bytes(value / 0x80)
    }
}

/// The VarInt encoding of a signed 32-bit number, taken by its bit pattern.
pub open spec fn encode_varint(value: i32) -> Seq<u8> {
    varint_bytes(unsigned_of(value))
}

/// The seven payload bits of a byte.
pub open spec fn group(byte: u8) -> nat {
    (byte % 0x80) as nat
}

/// 128 to the power `n`: the weight of the group at index `n`.
pub open spec fn pow128(n: nat) -> nat
    decreases n,
{
    if n == 0 {
        1
    } else {
        0x80 * pow128((n - 1) as nat)
    }
}

/// The number of bytes that the VarInt at the front of `s` occupies, looking at no
/// more than `limit` bytes: one more than the index of the first byte whose high
/// bit is clear. `None` when every byte looked at has it set.
pub open spec fn varint_span(s: Seq<u8>, limit: nat) -> Option<nat>
    decreases limit,
{
    if limit == 0 || s.len() == 0 {
        None
    } else if s[0] < 0x80 {
        Some(1)
    } else {
        match varint_span(s.skip(1), (limit - 1) as nat) {
            Some(n) => Some(n + 1),
            None => None,
        }
    }
}

/// The number that the first `n` bytes of `s` spell: the sum of each byte's seven
/// payload bits, weighted by 128 to the power of its index.
pub open spec fn varint_groups(s: Seq<u8>, n: nat) -> nat
    decreases n,
{
    if n == 0 || s.len() == 0 {
        0
    } else {
        group(s[0]) + 0x80 * varint_groups(s.skip(1), (n - 1) as nat)
    }
}

/// What reading a VarInt from the front of `s` gives: the value and the number of
/// bytes it took, or why there is none. Bits beyond the 32nd are dropped.
pub open spec fn decode_varint(s: Seq<u8>) -> Result<(i32, nat), ProtocolError> {
    match varint_span(s, MAX_VARINT_BYTES as nat) {
        Some(n) => Ok((signed_of(varint_groups(s, n)), n)),
        None => if s.len() >= MAX_VARINT_BYTES {
            Err(ProtocolError::MalformedVarInt)
        } else {
            Err(ProtocolError::UnexpectedEndOfStream)
        },
    }
}

/// Taking one more byte into account adds its group at the next weight.
proof fn lemma_groups_extend(s: Seq<u8>, n: nat)
    requires
        n < s.len(),
    ensures
        varint_groups(s, n + 1) == varint_groups(s, n) + group(s[n as int]) * pow128(n),
    decreases n,
{
    let tail = s.skip(1);
    if n > 0 {
        lemma_groups_extend(tail, (n - 1) as nat);
        let a = varint_groups(tail, (n - 1) as nat);
        let g = group(s[n as int]);
        let p = pow128((n - 1) as nat);
        assert(0x80 * (a + g * p) == 0x80 * a + g * (0x80 * p)) by (nonlinear_arith);
    } else {
        assert(varint_groups(tail, 0) == 0);
        assert(group(s[0]) * 1 == group(s[0]));
    }
}

/// The weights of the five groups.
proof fn lemma_pow128_values()
    ensures
        pow128(0) == 1,
        pow128(1) == 0x80,
        pow128(2) == 0x4000,
        pow128(3) == 0x20_0000,
        pow128(4) == 0x1000_0000,
        pow128(5) == 0x8_0000_0000,
{
    reveal_with_fuel(pow128, 6);
}

/// A VarInt that is found lies within the bytes looked at.
proof fn lemma_span_bounds(s: Seq<u8>, limit: nat)
    ensures
        varint_span(s, limit) matches Some(n) ==> 1 <= n <= limit && n <= s.len(),
    decreases limit,
{
    if limit > 0 && s.len() > 0 && s[0] >= 0x80 {
        lemma_span_bounds(s.skip(1), (limit - 1) as nat);
    }
}

/// A VarInt that decodes took between one and five of the bytes that were there.
pub proof fn lemma_decode_bounds(s: Seq<u8>)
    ensures
        decode_varint(s) matches Ok((_, used)) ==> 1 <= used <= MAX_VARINT_BYTES && used
            <= s.len(),
{
    lemma_span_bounds(s, MAX_VARINT_BYTES as nat);
}

/// Bytes put behind a VarInt, or behind five continuation bytes, change nothing
/// about where the VarInt ends.
proof fn lemma_span_prefix(s: Seq<u8>, more: Seq<u8>, limit: nat)
    ensures
        varint_span(s, limit) is Some ==> varint_span(s + more, limit) == varint_span(s, limit),
        s.len() >= limit ==> varint_span(s + more, limit) == varint_span(s, limit),
    decreases limit,
{
    if limit > 0 && s.len() > 0 {
        assert((s + more).skip(1) =~= s.skip(1) + more);
        if s[0] >= 0x80 {
            lemma_span_prefix(s.skip(1), more, (limit - 1) as nat);
        }
    }
}

/// Bytes that are not looked at do not count.
proof fn lemma_groups_prefix(s: Seq<u8>, more: Seq<u8>, n: nat)
    requires
        n <= s.len(),
    ensures
        varint_groups(s + more, n) == varint_groups(s, n),
    decreases n,
{
    if n > 0 {
        assert((s + more).skip(1) =~= s.skip(1) + more);
        lemma_groups_prefix(s.skip(1), more, (n - 1) as nat);
    }
}

/// Once a VarInt has been read, or found malformed, bytes that arrive later do not
/// change the reading.
pub proof fn lemma_decode_prefix(s: Seq<u8>, more: Seq<u8>)
    requires
        decode_varint(s) != Err::<(i32, nat), ProtocolError>(
            ProtocolError::UnexpectedEndOfStream,
        ),
    ensures
        decode_varint(s + more) == decode_varint(s),
{
    lemma_span_prefix(s, more, MAX_VARINT_BYTES as nat);
    lemma_span_bounds(s, MAX_VARINT_BYTES as nat);
    match varint_span(s, MAX_VARINT_BYTES as nat) {
        Some(n) => {
            lemma_groups_prefix(s, more, n);
        },
        None => {},
    }
}

/// Reads a VarInt from the front of `source`: its value and the number of bytes it
/// occupies.
///
/// Fails with `MalformedVarInt` when five bytes in a row have their continuation bit
/// set, and with `UnexpectedEndOfStream` when `source` ends before the VarInt does.
pub fn read_varint(source: &[u8]) -> (r: Result<(i32, usize), ProtocolError>)
    ensures
        match r {
            Ok((value, used)) => decode_varint(source@) == Ok::<(i32, nat), ProtocolError>(
                (value, used as nat),
            ),
            Err(e) => decode_varint(source@) == Err::<(i32, nat), ProtocolError>(e),
        },
{
    let mut result: u64 = 0;
    let mut scale: u64 = 1;
    let mut position: u32 = 0;
    let mut index: usize = 0;
    proof {
        lemma_pow128_values();
        assert(source@.skip(0) =~= source@);
    }
    loop
        invariant
            index < MAX_VARINT_BYTES,
            index <= source@.len(),
            position == 7 * index,
            scale == pow128(index as nat),
            scale <= 0x1000_0000,
            result == varint_groups(source@, index as nat),
            result < scale,
            varint_span(source@, MAX_VARINT_BYTES as nat) == match varint_span(
                source@.skip(index as int),
                (MAX_VARINT_BYTES - index) as nat,
            ) {
                Some(n) => Some((n + index) as nat),
                None => None,
            },
        decreases MAX_VARINT_BYTES - index,
    {
        if index >= source.len() {
            return Err(ProtocolError::UnexpectedEndOfStream);
        }
        let byte: u8 = source[index];
        let low: u8 = byte & 0x7f;
        let last: bool = byte & 0x80 == 0;
        assert(low == byte % 0x80 && last == (byte < 0x80)) by (bit_vector)
            requires
                low == byte & 0x7f,
                last == (byte & 0x80 == 0),
        ;
        proof {
            lemma_pow128_values();
            lemma_groups_extend(source@, index as nat);
            assert(source@.skip(index as int).skip(1) =~= source@.skip(index + 1));
            assert(low * scale <= 0x7f * scale) by (nonlinear_arith)
                requires
                    low <= 0x7f,
                    scale >= 0,
            ;
        }
        result = result + (low as u64) * scale;
        position = position + 7;
        index = index + 1;
        if last {
            return Ok((signed_from(result), index));
        }
        if position >= 32 {
            return Err(ProtocolError::MalformedVarInt);
        }
        scale = scale * 0x80;
    }
}

/// The signed number whose bit pattern is the low 32 bits of `bits`.
fn signed_from(bits: u64) -> (value: i32)
    ensures
        value == signed_of(bits as nat),
{
    let low: u64 = bits % 0x1_0000_0000;
    if low < 0x8000_0000 {
        low as i32
    } else {
        (low as i64 - 0x1_0000_0000) as i32
    }
}

/// Appends the VarInt encoding of `value` to `vec`.
pub fn write_varint_to_vec(vec: &mut Vec<u8>, value: i32)
    ensures
        final(vec)@ == old(vec)@ + encode_varint(value),
{
    let mut rest: u32 = if value >= 0 {
        value as u32
    } else {
        (value as i64 + 0x1_0000_0000) as u32
    };
    loop
        invariant_except_break
            old(vec)@ + encode_varint(value) == vec@ + varint_bytes(rest as nat),
        ensures
            vec@ == old(vec)@ + encode_varint(value),
        decreases rest,
    {
        let low: u8 = (rest & 0x7f) as u8;
        let high: u32 = rest >> 7;
        assert(low == rest % 0x80 && high == rest / 0x80 && low | 0x80 == low + 0x80) by (bit_vector)
            requires
                low == (rest & 0x7f) as u8,
                high == rest >> 7,
        ;
        if high != 0 {
            assert(vec@.push((low + 0x80) as u8) + varint_bytes(high as nat) =~= vec@
                + varint_bytes(rest as nat));
            vec.push(low | 0x80);
            rest = high;
        } else {
            vec.push(low);
            break;
        }
    }
}

/// Within `limit` bytes the encoding of `value` is read back whole, whatever
/// follows it.
proof fn lemma_encoded_reads_back(value: nat, rest: Seq<u8>, limit: nat)
    requires
        limit >= 1,
        value < pow128(limit),
    ensures
        1 <= varint_bytes(value).len() <= limit,
        varint_span(varint_bytes(value) + rest, limit) == Some(varint_bytes(value).len()),
        varint_groups(varint_bytes(value) + rest, varint_bytes(value).len()) == value,
    decreases value,
{
    let s = varint_bytes(value) + rest;
    if value < 0x80 {
        assert(varint_groups(s.skip(1), 0) == 0);
    } else {
        assert(limit >= 2) by {
            if limit <= 1 {
                reveal_with_fuel(pow128, 2);
            }
        }
        let higher = value / 0x80;
        lemma_encoded_reads_back(higher, rest, (limit - 1) as nat);
        assert(s.skip(1) =~= varint_bytes(higher) + rest);
    }
}

/// A VarInt is one to five bytes long.
pub proof fn lemma_varint_length(value: i32)
    ensures
        1 <= encode_varint(value).len() <= MAX_VARINT_BYTES,
{
    lemma_pow128_values();
    lemma_encoded_reads_back(unsigned_of(value), Seq::empty(), MAX_VARINT_BYTES as nat);
}

/// Decoding the encoding of any 32-bit number gives the number back and uses up
/// exactly the encoding, whatever bytes come after it.
pub proof fn lemma_varint_round_trip(value: i32, rest: Seq<u8>)
    ensures
        decode_varint(encode_varint(value) + rest) == Ok::<(i32, nat), ProtocolError>(
            (value, encode_varint(value).len()),
        ),
{
    lemma_pow128_values();
    lemma_encoded_reads_back(unsigned_of(value), rest, MAX_VARINT_BYTES as nat);
}

/// Bytes that begin with five continuation bytes hold no VarInt, however they go
/// on.
pub proof fn lemma_varint_overflow(s: Seq<u8>)
    requires
        s.len() >= MAX_VARINT_BYTES,
        forall|i: int| 0 <= i < MAX_VARINT_BYTES ==> s[i] >= 0x80,
    ensures
        decode_varint(s) == Err::<(i32, nat), ProtocolError>(ProtocolError::MalformedVarInt),
{
    reveal_with_fuel(varint_span, 6);
}

/// The largest body a packet can declare: the greatest length a VarInt can carry.
pub const MAX_BODY_LEN: usize = 0x7fff_ffff;

/// A packet's body: its id as a VarInt, then its payload.
pub open spec fn packet_body(id: i32, payload: Seq<u8>) -> Seq<u8> {
    encode_varint(id) + payload
}

/// A packet on the wire: the length of its body as a VarInt, then the body.
pub open spec fn packet_bytes(id: i32, payload: Seq<u8>) -> Seq<u8> {
    varint_bytes(packet_body(id, payload).len()) + packet_body(id, payload)
}

/// Frames a packet: the id and the payload, behind the length of both.
///
/// Fails with `PacketTooLong` when id and payload together exceed `MAX_BODY_LEN`
/// bytes, and only then.
pub fn write_packet(packet_id: i32, payload: &[u8]) -> (r: Result<Vec<u8>, ProtocolError>)
    ensures
        match r {
            Ok(bytes) => packet_body(packet_id, payload@).len() <= MAX_BODY_LEN && bytes@
                == packet_bytes(packet_id, payload@),
            Err(e) => packet_body(packet_id, payload@).len() > MAX_BODY_LEN && e
                == ProtocolError::PacketTooLong,
        },
{
    let mut body: Vec<u8> = Vec::new();
    write_varint_to_vec(&mut body, packet_id);
    proof {
        lemma_varint_length(packet_id);
    }
    if payload.len() > MAX_BODY_LEN - body.len() {
        return Err(ProtocolError::PacketTooLong);
    }
    body.extend_from_slice(payload);
    let mut bytes: Vec<u8> = Vec::new();
    write_varint_to_vec(&mut bytes, body.len() as i32);
    bytes.append(&mut body);
    Ok(bytes)
}

/// A packet taken off the wire.
pub struct Packet {
    /// The packet id.
    pub id: i32,
    /// What follows the id inside the declared length.
    pub payload: Vec<u8>,
}

/// Where the body of the first packet of `s` begins and ends: `Ok(Some((start,
/// end)))` when the packet is all there, `Ok(None)` when more bytes have to arrive
/// first. The body begins behind the length prefix and is as long as the prefix
/// says.
pub open spec fn packet_bounds(s: Seq<u8>) -> Result<Option<(nat, nat)>, ProtocolError> {
    match decode_varint(s) {
        Err(ProtocolError::UnexpectedEndOfStream) => Ok(None),
        Err(e) => Err(e),
        Ok((length, start)) => if length < 0 {
            Err(ProtocolError::InvalidLength)
        } else if s.len() < start + length {
            Ok(None)
        } else {
            Ok(Some((start, (start + length) as nat)))
        },
    }
}

/// The packet at the front of `s`: its id, its payload, and the number of bytes it
/// occupies with its length prefix. The id is read from the body alone: a body too
/// short for it is an error, whatever follows the packet.
pub open spec fn parse_packet(s: Seq<u8>) -> Result<(i32, Seq<u8>, nat), ProtocolError> {
    match packet_bounds(s) {
        Err(e) => Err(e),
        Ok(None) => Err(ProtocolError::UnexpectedEndOfStream),
        Ok(Some((start, end))) => {
            let body = s.subrange(start as int, end as int);
            match decode_varint(body) {
                Err(e) => Err(e),
                Ok((id, id_len)) => Ok((id, body.skip(id_len as int), end)),
            }
        },
    }
}

/// Finds the body of the first packet in `source` without reading it.
///
/// `Ok(Some((start, end)))`: the body is `source[start..end]`, and the packet ends
/// with it. `Ok(None)`: `source` stops short of the declared length, or inside the
/// length itself. Fails with `MalformedVarInt` or `InvalidLength` when the length
/// prefix is no acceptable length.
pub fn packet_span(source: &[u8]) -> (r: Result<Option<(usize, usize)>, ProtocolError>)
    ensures
        match r {
            Ok(Some((start, end))) => packet_bounds(source@) == Ok::<
                Option<(nat, nat)>,
                ProtocolError,
            >(Some((start as nat, end as nat))) && 1 <= start <= end <= source@.len(),
            Ok(None) => packet_bounds(source@) == Ok::<Option<(nat, nat)>, ProtocolError>(None),
            Err(e) => packet_bounds(source@) == Err::<Option<(nat, nat)>, ProtocolError>(e),
        },
{
    proof {
        lemma_decode_bounds(source@);
    }
    match read_varint(source) {
        Err(ProtocolError::UnexpectedEndOfStream) => Ok(None),
        Err(e) => Err(e),
        Ok((length, start)) => {
            if length < 0 {
                Err(ProtocolError::InvalidLength)
            } else if source.len() - start < length as usize {
                Ok(None)
            } else {
                Ok(Some((start, start + length as usize)))
            }
        },
    }
}

/// Reads the id and the payload from the body of a packet.
fn read_body(body: &[u8]) -> (r: Result<Packet, ProtocolError>)
    ensures
        match r {
            Ok(packet) => decode_varint(body@) matches Ok((id, id_len)) && packet.id == id
                && packet.payload@ == body@.skip(id_len as int),
            Err(e) => decode_varint(body@) == Err::<(i32, nat), ProtocolError>(e),
        },
{
    proof {
        lemma_decode_bounds(body@);
    }
    match read_varint(body) {
        Err(e) => Err(e),
        Ok((id, id_len)) => {
            let payload = slice_to_vec(slice_subrange(body, id_len, body.len()));
            Ok(Packet { id, payload })
        },
    }
}

/// Reads the packet at the front of `source`, and says how many bytes it took.
///
/// Fails with `UnexpectedEndOfStream` when `source` ends before the declared length
/// does, or the body before the id does; with `MalformedVarInt` when the length or
/// the id is no VarInt; with `InvalidLength` when the length is negative.
pub fn read_packet(source: &[u8]) -> (r: Result<(Packet, usize), ProtocolError>)
    ensures
        match r {
            Ok((packet, used)) => parse_packet(source@) == Ok::<
                (i32, Seq<u8>, nat),
                ProtocolError,
            >((packet.id, packet.payload@, used as nat)),
            Err(e) => parse_packet(source@) == Err::<(i32, Seq<u8>, nat), ProtocolError>(e),
        },
{
    match packet_span(source) {
        Err(e) => Err(e),
        Ok(None) => Err(ProtocolError::UnexpectedEndOfStream),
        Ok(Some((start, end))) => match read_body(slice_subrange(source, start, end)) {
            Err(e) => Err(e),
            Ok(packet) => Ok((packet, end)),
        },
    }
}

/// The first packet of a buffer that may still be filling: `Ok(None)` while the
/// packet is not all there, the packet and its extent once it is, and an error as
/// soon as the bytes can no longer become a packet.
pub open spec fn first_packet(s: Seq<u8>) -> Result<Option<(i32, Seq<u8>, nat)>, ProtocolError> {
    match packet_bounds(s) {
        Err(e) => Err(e),
        Ok(None) => Ok(None),
        Ok(Some(_)) => match parse_packet(s) {
            Err(e) => Err(e),
            Ok(packet) => Ok(Some(packet)),
        },
    }
}

/// Takes the first packet out of a buffer that may still be filling.
///
/// `Ok(None)`: more bytes have to arrive before there is a packet. `Ok(Some(..))`:
/// the packet, and the number of bytes it occupied. An error: the bytes at the
/// front are no packet, and no bytes to come will change that.
pub fn next_packet(source: &[u8]) -> (r: Result<Option<(Packet, usize)>, ProtocolError>)
    ensures
        match r {
            Ok(Some((packet, used))) => first_packet(source@) == Ok::<
                Option<(i32, Seq<u8>, nat)>,
                ProtocolError,
            >(Some((packet.id, packet.payload@, used as nat))) && 1 <= used <= source@.len(),
            Ok(None) => first_packet(source@) == Ok::<
                Option<(i32, Seq<u8>, nat)>,
                ProtocolError,
            >(None),
            Err(e) => first_packet(source@) == Err::<
                Option<(i32, Seq<u8>, nat)>,
                ProtocolError,
            >(e),
        },
{
    match packet_span(source) {
        Err(e) => Err(e),
        Ok(None) => Ok(None),
        Ok(Some((start, end))) => match read_body(slice_subrange(source, start, end)) {
            Err(e) => Err(e),
            Ok(packet) => Ok(Some((packet, end))),
        },
    }
}

/// Once a packet has been taken from a buffer, or the buffer found to hold none,
/// bytes that arrive later do not change that.
pub proof fn lemma_first_packet_prefix(s: Seq<u8>, more: Seq<u8>)
    requires
        first_packet(s) != Ok::<Option<(i32, Seq<u8>, nat)>, ProtocolError>(None),
    ensures
        first_packet(s + more) == first_packet(s),
{
    lemma_decode_bounds(s);
    lemma_decode_prefix(s, more);
    match decode_varint(s) {
        Ok((length, start)) => {
            if length >= 0 {
                let end = start + length;
                assert((s + more).subrange(start as int, end) =~= s.subrange(start as int, end));
            }
        },
        Err(_) => {},
    }
}

/// A packet that is found occupies at least one byte, and no more than there are.
pub proof fn lemma_first_packet_extent(s: Seq<u8>)
    ensures
        first_packet(s) matches Ok(Some((_, _, end))) ==> 1 <= end <= s.len(),
{
    lemma_decode_bounds(s);
}

/// A framed packet reads back as its id and payload and is used up exactly,
/// whatever bytes come after it; and the length that leads it is the byte count of
/// id and payload.
pub proof fn lemma_packet_round_trip(id: i32, payload: Seq<u8>, rest: Seq<u8>)
    requires
        packet_body(id, payload).len() <= MAX_BODY_LEN,
    ensures
        parse_packet(packet_bytes(id, payload) + rest) == Ok::<
            (i32, Seq<u8>, nat),
            ProtocolError,
        >((id, payload, packet_bytes(id, payload).len())),
        decode_varint(packet_bytes(id, payload) + rest) matches Ok((length, _)) && length
            == encode_varint(id).len() + payload.len(),
{
    let body = packet_body(id, payload);
    let length = body.len() as i32;
    let s = packet_bytes(id, payload) + rest;
    assert(s =~= encode_varint(length) + (body + rest));
    lemma_varint_round_trip(length, body + rest);
    let used = encode_varint(length).len();
    assert(s.subrange(used as int, used + length) =~= body);
    lemma_varint_round_trip(id, payload);
    assert(body.skip(encode_varint(id).len() as int) =~= payload);
}

/// What a client asks for after the handshake.
#[derive(Clone, Copy, Debug, PartialEq, Eq, Structural)]
pub enum NextState {
    /// The server list exchange.
    Status,
    /// The login exchange.
    Login,
    /// Any other number: there is no such state.
    Unknown(i32),
}

impl NextState {
    /// The state that a handshake's last field names.
    pub open spec fn of(value: i32) -> NextState {
        if value == 1 {
            NextState::Status
        } else if value == 2 {
            NextState::Login
        } else {
            NextState::Unknown(value)
        }
    }

    /// Tells the states apart by their number.
    pub fn from_varint(value: i32) -> (state: NextState)
        ensures
            state == NextState::of(value),
    {
        if value == 1 {
            NextState::Status
        } else if value == 2 {
            NextState::Login
        } else {
            NextState::Unknown(value)
        }
    }
}

/// The fields of a handshake that are kept. The server address is read over and
/// dropped.
#[derive(Clone, Copy, Debug, PartialEq, Eq, Structural)]
pub struct Handshake {
    /// The protocol version the client speaks.
    pub protocol_version: i32,
    /// The port the client says it connected to.
    pub server_port: u16,
    /// The exchange the client wants.
    pub next_state: NextState,
}

/// The handshake that a payload spells: protocol version (VarInt), server address
/// (VarInt length, then that many bytes), server port (two bytes, big-endian), next
/// state (VarInt). Bytes after the next state are left alone.
pub open spec fn parse_handshake(payload: Seq<u8>) -> Result<Handshake, ProtocolError> {
    match decode_varint(payload) {
        Err(e) => Err(e),
        Ok((protocol_version, a)) => match decode_varint(payload.skip(a as int)) {
            Err(e) => Err(e),
            Ok((address_len, b)) => {
                let port_at = a + b + address_len;
                if address_len < 0 {
                    Err(ProtocolError::InvalidLength)
                } else if payload.len() < port_at + 2 {
                    Err(ProtocolError::UnexpectedEndOfStream)
                } else {
                    match decode_varint(payload.skip(port_at + 2)) {
                        Err(e) => Err(e),
                        Ok((next, _)) => Ok(
                            Handshake {
                                protocol_version,
                                server_port: (payload[port_at] * 0x100 + payload[port_at + 1]) as u16,
                                next_state: NextState::of(next),
                            },
                        ),
                    }
                }
            },
        },
    }
}

/// Reads the fields of a handshake from the payload of its packet.
///
/// Fails with `UnexpectedEndOfStream` when the payload ends inside a field, with
/// `MalformedVarInt` when one of its VarInts is none, and with `InvalidLength` when
/// the server address declares a negative length.
pub fn read_handshake(payload: &[u8]) -> (r: Result<Handshake, ProtocolError>)
    ensures
        r == parse_handshake(payload@),
{
    proof {
        lemma_decode_bounds(payload@);
    }
    let (protocol_version, a) = match read_varint(payload) {
        Ok(pair) => pair,
        Err(e) => { return Err(e); },
    };
    let after_version = slice_subrange(payload, a, payload.len());
    proof {
        lemma_decode_bounds(after_version@);
    }
    let (address_len, b) = match read_varint(after_version) {
        Ok(pair) => pair,
        Err(e) => { return Err(e); },
    };
    if address_len < 0 {
        return Err(ProtocolError::InvalidLength);
    }
    let left: usize = after_version.len() - b;
    if left < 2 || left - 2 < address_len as usize {
        return Err(ProtocolError::UnexpectedEndOfStream);
    }
    let port_at: usize = a + b + address_len as usize;
    let server_port: u16 = payload[port_at] as u16 * 0x100 + payload[port_at + 1] as u16;
    let after_port = slice_subrange(payload, port_at + 2, payload.len());
    match read_varint(after_port) {
        Err(e) => Err(e),
        Ok((next, _)) => Ok(
            Handshake { protocol_version, server_port, next_state: NextState::from_varint(next) },
        ),
    }
}

/// A string field: the number of bytes as a VarInt, then the bytes.
pub open spec fn string_field(bytes: Seq<u8>) -> Seq<u8> {
    varint_bytes(bytes.len()) + bytes
}

/// The payload of a handshake as a client writes it: the four fields in order.
pub open spec fn handshake_payload(
    protocol_version: i32,
    server_address: Seq<u8>,
    server_port: u16,
    next_state: i32,
) -> Seq<u8> {
    encode_varint(protocol_version) + string_field(server_address) + seq![
        (server_port / 0x100) as u8,
        (server_port % 0x100) as u8,
    ] + encode_varint(next_state)
}

/// A handshake that a client writes is read as the client meant it, whatever
/// follows its last field.
pub proof fn lemma_handshake_round_trip(
    protocol_version: i32,
    server_address: Seq<u8>,
    server_port: u16,
    next_state: i32,
    rest: Seq<u8>,
)
    requires
        server_address.len() <= MAX_BODY_LEN,
    ensures
        parse_handshake(
            handshake_payload(protocol_version, server_address, server_port, next_state) + rest,
        ) == Ok::<Handshake, ProtocolError>(
            Handshake { protocol_version, server_port, next_state: NextState::of(next_state) },
        ),
{
    let payload = handshake_payload(protocol_version, server_address, server_port, next_state)
        + rest;
    let port = seq![(server_port / 0x100) as u8, (server_port % 0x100) as u8];
    let tail = encode_varint(next_state) + rest;
    let address_len = server_address.len() as i32;
    let after_version = encode_varint(address_len) + (server_address + port + tail);
    assert(payload =~= encode_varint(protocol_version) + after_version);
    lemma_varint_round_trip(protocol_version, after_version);
    let a = encode_varint(protocol_version).len();
    assert(payload.skip(a as int) =~= after_version);
    lemma_varint_round_trip(address_len, server_address + port + tail);
    let b = encode_varint(address_len).len();
    let port_at = a + b + address_len;
    assert(payload.skip(port_at + 2) =~= tail);
    lemma_varint_round_trip(next_state, rest);
}

/// The packet that carries a JSON document: id 0, and the document's UTF-8 bytes as
/// a string field.
pub open spec fn response_packet(text: Seq<char>) -> Seq<u8> {
    packet_bytes(0, string_field(encode_utf8(text)))
}

/// Whether a document is short enough to be sent: its string field and the packet
/// id fit in one body.
pub open spec fn response_fits(text: Seq<char>) -> bool {
    packet_body(0, string_field(encode_utf8(text))).len() <= MAX_BODY_LEN
}

/// Frames `response` as a packet with id 0 whose payload is one string field.
///
/// Fails with `PacketTooLong` when the document does not fit, and only then.
pub fn write_response(response: &str) -> (r: Result<Vec<u8>, ProtocolError>)
    ensures
        match r {
            Ok(bytes) => response_fits(response@) && bytes@ == response_packet(response@),
            Err(e) => !response_fits(response@) && e == ProtocolError::PacketTooLong,
        },
{
    let text = response.as_bytes();
    if text.len() > MAX_BODY_LEN {
        return Err(ProtocolError::PacketTooLong);
    }
    let mut payload: Vec<u8> = Vec::new();
    write_varint_to_vec(&mut payload, text.len() as i32);
    payload.extend_from_slice(text);
    write_packet(0, payload.as_slice())
}

/// A response reads back in two steps: as packet 0, whose payload is the string
/// field; and the string field as the length of the document's bytes, then those
/// bytes.
pub proof fn lemma_response_round_trip(text: Seq<char>, rest: Seq<u8>)
    requires
        response_fits(text),
    ensures
        parse_packet(response_packet(text) + rest) == Ok::<(i32, Seq<u8>, nat), ProtocolError>(
            (0, string_field(encode_utf8(text)), response_packet(text).len()),
        ),
        decode_varint(string_field(encode_utf8(text))) matches Ok((length, used)) && length
            == encode_utf8(text).len() && string_field(encode_utf8(text)).skip(used as int)
            == encode_utf8(text),
{
    let bytes = encode_utf8(text);
    lemma_packet_round_trip(0, string_field(bytes), rest);
    lemma_varint_round_trip(bytes.len() as i32, bytes);
}

/// The number of bytes a ping carries and a pong echoes.
pub const PING_PAYLOAD_LEN: usize = 8;

/// Frames the pong for a ping: a packet with id 1 whose payload is the last eight
/// of the first `n` bytes of `ping_data`, unchanged.
pub fn send_pong(ping_data: &[u8], n: usize) -> (bytes: Vec<u8>)
    requires
        PING_PAYLOAD_LEN <= n <= ping_data@.len(),
    ensures
        bytes@ == packet_bytes(1, ping_data@.subrange(n - PING_PAYLOAD_LEN, n as int)),
{
    let mut bytes: Vec<u8> = Vec::new();
    write_varint_to_vec(&mut bytes, 9);
    write_varint_to_vec(&mut bytes, 1);
    bytes.extend_from_slice(slice_subrange(ping_data, n - PING_PAYLOAD_LEN, n));
    bytes
}

} // verus!
