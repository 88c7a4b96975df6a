//! Binary UDP wire format for the HID bridge.
//!
//! Every datagram starts with a 3-byte header:
//!   byte 0  magic   0x48 ('H')   — quick filter for stray traffic
//!   byte 1  version 0x01         — protocol version (this file = v1)
//!   byte 2  opcode               — see the table below
//! followed by a fixed-size payload determined by the opcode.
//!
//! Replies use a parallel format with the lowercase magic 0x68 ('h') so a
//! client can tell its own datagrams apart from server-originated ones if it
//! happens to share the socket. The only opcode the firmware replies to is
//! `PING`; every other command is fire-and-forget.
//!
//! ```text
//! op    name           payload                          notes
//! 0x01  KEY_TAP        u8 modifier, u8 keycode          press + small hold + release
//! 0x02  KEY_DOWN       u8 modifier, u8 keycode          press, no release
//! 0x03  KEY_UP         (none)                           release whatever is held
//! 0x10  MOUSE_MOVE     i8 dx, i8 dy, i8 wheel           relative; wheel may be ignored
//! 0x11  MOUSE_CLICK    u8 button_mask                   down + small hold + up
//! 0x12  MOUSE_BUTTONS  u8 button_mask                   raw button state (for drags)
//! 0x20  MEDIA_TAP      u16 le usage_code                consumer-control key tap
//! 0xf0  PING           u32 le seq                       app -> fw, reply is PONG
//! 0xf1  PONG           u32 le seq                       fw -> app, echoes seq
//! ```
//!
//! The spec functions of this module (`payload_len`, `decode`, `spec_parse`,
//! `pong_bytes`, `spec_encode`) are the mathematical reading of that table;
//! `parse` and `write_pong` are proved against them.

use vstd::prelude::*;

verus! {

pub const MAGIC_REQUEST: u8 = 0x48;

pub const MAGIC_REPLY: u8 = 0x68;

pub const VERSION: u8 = 1;

pub const OP_KEY_TAP: u8 = 0x01;

pub const OP_KEY_DOWN: u8 = 0x02;

pub const OP_KEY_UP: u8 = 0x03;

pub const OP_MOUSE_MOVE: u8 = 0x10;

pub const OP_MOUSE_CLICK: u8 = 0x11;

pub const OP_MOUSE_BUTTONS: u8 = 0x12;

pub const OP_MEDIA_TAP: u8 = 0x20;

pub const OP_PING: u8 = 0xf0;

pub const OP_PONG: u8 = 0xf1;

/// Maximum reply length (`PONG` = 3-byte header + 4-byte seq).
pub const MAX_REPLY_LEN: usize = 7;

/// A decoded request datagram.
#[derive(Debug, Clone, Copy, PartialEq, Eq, Structural)]
pub enum Command {
    KeyTap { modifier: u8, keycode: u8 },
    KeyDown { modifier: u8, keycode: u8 },
    KeyUp,
    MouseMove { dx: i8, dy: i8, wheel: i8 },
    MouseClick { buttons: u8 },
    MouseButtons { buttons: u8 },
    MediaTap { usage: u16 },
    Ping { seq: u32 },
}

/// Why a datagram was rejected.
#[derive(Debug, Clone, Copy, PartialEq, Eq, Structural)]
pub enum ParseError {
    /// Datagram is shorter than the 3-byte header.
    TooShort,
    /// Magic byte doesn't match — not one of our packets.
    BadMagic(u8),
    /// Protocol version we don't speak.
    BadVersion(u8),
    /// Opcode is not in the table.
    UnknownOpcode(u8),
    /// Header is OK but the payload is shorter than the opcode requires.
    TruncatedPayload { op: u8, need: usize, got: usize },
}

// ---------------------------------------------------------------------------
// The wire format, as mathematics.
// ---------------------------------------------------------------------------

/// Number of payload bytes a request opcode carries, or `None` when the opcode
/// is not a request opcode of the table (`PONG` included: it is a reply).
pub open spec fn payload_len(op: u8) -> Option<nat> {
    if op == OP_KEY_TAP || op == OP_KEY_DOWN || op == OP_MEDIA_TAP {
        Some(2)
    } else if op == OP_KEY_UP {
        Some(0)
    } else if op == OP_MOUSE_MOVE {
        Some(3)
    } else if op == OP_MOUSE_CLICK || op == OP_MOUSE_BUTTONS {
        Some(1)
    } else if op == OP_PING {
        Some(4)
    } else {
        None
    }
}

/// A byte read as a two's-complement `i8`.
pub open spec fn byte_as_i8(b: u8) -> i8 {
    if b < 128 {
        b as i8
    } else {
        (b as int - 256) as i8
    }
}

/// The byte that carries an `i8` in two's complement.
pub open spec fn i8_as_byte(x: i8) -> u8 {
    if x >= 0 {
        x as u8
    } else {
        (x as int + 256) as u8
    }
}

/// Little-endian `u16` from two bytes.
pub open spec fn le_u16(b0: u8, b1: u8) -> u16 {
    (b0 as int + 256 * (b1 as int)) as u16
}

/// Little-endian `u32` from four bytes.
pub open spec fn le_u32(b0: u8, b1: u8, b2: u8, b3: u8) -> u32 {
    (b0 as int + 256 * (b1 as int) + 65536 * (b2 as int) + 16777216 * (b3 as int)) as u32
}

/// The two little-endian bytes of a `u16`.
pub open spec fn le_bytes_u16(x: u16) -> Seq<u8> {
    seq![(x % 256) as u8, (x / 256) as u8]
}

/// The four little-endian bytes of a `u32`.
pub open spec fn le_bytes_u32(x: u32) -> Seq<u8> {
    seq![
        (x % 256) as u8,
        ((x / 256) % 256) as u8,
        ((x / 65536) % 256) as u8,
        (x / 16777216) as u8,
    ]
}

/// The command that a request opcode with payload `p` stands for
/// (`p` holds at least `payload_len(op)` bytes; the rest is not read).
pub open spec fn decode(op: u8, p: Seq<u8>) -> Command {
    if op == OP_KEY_TAP {
        Command::KeyTap { modifier: p[0], keycode: p[1] }
    } else if op == OP_KEY_DOWN {
        Command::KeyDown { modifier: p[0], keycode: p[1] }
    } else if op == OP_KEY_UP {
        Command::KeyUp
    } else if op == OP_MOUSE_MOVE {
        Command::MouseMove { dx: byte_as_i8(p[0]), dy: byte_as_i8(p[1]), wheel: byte_as_i8(p[2]) }
    } else if op == OP_MOUSE_CLICK {
        Command::MouseClick { buttons: p[0] }
    } else if op == OP_MOUSE_BUTTONS {
        Command::MouseButtons { buttons: p[0] }
    } else if op == OP_MEDIA_TAP {
        Command::MediaTap { usage: le_u16(p[0], p[1]) }
    } else {
        Command::Ping { seq: le_u32(p[0], p[1], p[2], p[3]) }
    }
}

/// What a request datagram means: the header is checked field by field, in
/// order, then the opcode's payload must be present in full. Bytes after the
/// payload are ignored.
pub open spec fn spec_parse(buf: Seq<u8>) -> Result<Command, ParseError> {
    if buf.len() < 3 {
        Err(ParseError::TooShort)
    } else if buf[0] != MAGIC_REQUEST {
        Err(ParseError::BadMagic(buf[0]))
    } else if buf[1] != VERSION {
        Err(ParseError::BadVersion(buf[1]))
    } else {
        let op = buf[2];
        let payload = buf.skip(3);
        match payload_len(op) {
            None => Err(ParseError::UnknownOpcode(op)),
            Some(n) => if payload.len() < n {
                Err(ParseError::TruncatedPayload {
                    op,
                    need: n as usize,
                    got: payload.len() as usize,
                })
            } else {
                Ok(decode(op, payload))
            },
        }
    }
}

/// The bytes of a `PONG` reply carrying `seq`.
pub open spec fn pong_bytes(seq: u32) -> Seq<u8> {
    seq![MAGIC_REPLY, VERSION, OP_PONG] + le_bytes_u32(seq)
}

/// The opcode of a command.
pub open spec fn opcode_of(c: Command) -> u8 {
    match c {
        Command::KeyTap { .. } => OP_KEY_TAP,
        Command::KeyDown { .. } => OP_KEY_DOWN,
        Command::KeyUp => OP_KEY_UP,
        Command::MouseMove { .. } => OP_MOUSE_MOVE,
        Command::MouseClick { .. } => OP_MOUSE_CLICK,
        Command::MouseButtons { .. } => OP_MOUSE_BUTTONS,
        Command::MediaTap { .. } => OP_MEDIA_TAP,
        Command::Ping { .. } => OP_PING,
    }
}

/// The payload bytes of a command, as the table lays them out.
pub open spec fn payload_of(c: Command) -> Seq<u8> {
    match c {
        Command::KeyTap { modifier, keycode } => seq![modifier, keycode],
        Command::KeyDown { modifier, keycode } => seq![modifier, keycode],
        Command::KeyUp => Seq::empty(),
        Command::MouseMove { dx, dy, wheel } => seq![i8_as_byte(dx), i8_as_byte(dy), i8_as_byte(wheel)],
        Command::MouseClick { buttons } => seq![buttons],
        Command::MouseButtons { buttons } => seq![buttons],
        Command::MediaTap { usage } => le_bytes_u16(usage),
        Command::Ping { seq } => le_bytes_u32(seq),
    }
}

/// The request datagram that a client sends for a command.
pub open spec fn spec_encode(c: Command) -> Seq<u8> {
    seq![MAGIC_REQUEST, VERSION, opcode_of(c)] + payload_of(c)
}

// ---------------------------------------------------------------------------
// Executable code.
// ---------------------------------------------------------------------------

/// Reads a byte as a two's-complement `i8`.
fn i8_from_byte(b: u8) -> (r: i8)
    ensures
        r == byte_as_i8(b),
{
    assert((b as i8) == byte_as_i8(b)) by (bit_vector);
    b as i8
}

/// Parses one request datagram.
pub fn parse(buf: &[u8]) -> (r: Result<Command, ParseError>)
    ensures
        r == spec_parse(buf@),
{
    if buf.len() < 3 {
        return Err(ParseError::TooShort);
    }
    if buf[0] != MAGIC_REQUEST {
        return Err(ParseError::BadMagic(buf[0]));
    }
    if buf[1] != VERSION {
        return Err(ParseError::BadVersion(buf[1]));
    }
    let op = buf[2];
    let payload = &buf[3..buf.len()];
    assert(payload@ == buf@.skip(3));

    if op == OP_KEY_TAP {
        let p = take(op, payload, 2)?;
        Ok(Command::KeyTap { modifier: p[0], keycode: p[1] })
    } else if op == OP_KEY_DOWN {
        let p = take(op, payload, 2)?;
        Ok(Command::KeyDown { modifier: p[0], keycode: p[1] })
    } else if op == OP_KEY_UP {
        Ok(Command::KeyUp)
    } else if op == OP_MOUSE_MOVE {
        let p = take(op, payload, 3)?;
        Ok(
            Command::MouseMove {
                dx: i8_from_byte(p[0]),
                dy: i8_from_byte(p[1]),
                wheel: i8_from_byte(p[2]),
            },
        )
    } else if op == OP_MOUSE_CLICK {
        let p = take(op, payload, 1)?;
        Ok(Command::MouseClick { buttons: p[0] })
    } else if op == OP_MOUSE_BUTTONS {
        let p = take(op, payload, 1)?;
        Ok(Command::MouseButtons { buttons: p[0] })
    } else if op == OP_MEDIA_TAP {
        let p = take(op, payload, 2)?;
        Ok(Command::MediaTap { usage: (p[0] as u16) + (p[1] as u16) * 256 })
    } else if op == OP_PING {
        let p = take(op, payload, 4)?;
        Ok(
            Command::Ping {
                seq: (p[0] as u32) + (p[1] as u32) * 256 + (p[2] as u32) * 65536 + (p[3] as u32)
                    * 16777216,
            },
        )
    } else {
        Err(ParseError::UnknownOpcode(op))
    }
}

/// Writes a `PONG` reply carrying `seq` into `out` and returns the number of
/// bytes used.
pub fn write_pong(seq: u32, out: &mut [u8; MAX_REPLY_LEN]) -> (n: usize)
    ensures
        n == MAX_REPLY_LEN,
        final(out)@ == pong_bytes(seq),
{
    out[0] = MAGIC_REPLY;
    out[1] = VERSION;
    out[2] = OP_PONG;
    out[3] = (seq % 256) as u8;
    out[4] = ((seq / 256) % 256) as u8;
    out[5] = ((seq / 65536) % 256) as u8;
    out[6] = (seq / 16777216) as u8;
    assert(out@ == pong_bytes(seq));
    7
}

/// The first `n` bytes of the payload of opcode `op`, or the error that says
/// how short it fell.
fn take(op: u8, payload: &[u8], n: usize) -> (r: Result<&[u8], ParseError>)
    ensures
        match r {
            Ok(p) => payload@.len() >= n && p@ == payload@.subrange(0, n as int),
            Err(e) => payload@.len() < n && e == ParseError::TruncatedPayload {
                op,
                need: n,
                got: payload@.len() as usize,
            },
        },
{
    if payload.len() < n {
        Err(ParseError::TruncatedPayload { op, need: n, got: payload.len() })
    } else {
        Ok(&payload[0..n])
    }
}

// ---------------------------------------------------------------------------
// Laws of the wire format.
// ---------------------------------------------------------------------------

proof fn lemma_le_u16_roundtrip(x: u16)
    ensures
        le_u16(le_bytes_u16(x)[0], le_bytes_u16(x)[1]) == x,
{
    assert((x % 256) + 256 * (x / 256) == x) by (bit_vector);
}

proof fn lemma_le_bytes_u16_roundtrip(b0: u8, b1: u8)
    ensures
        le_bytes_u16(le_u16(b0, b1)) == seq![b0, b1],
{
    let x: u16 = le_u16(b0, b1);
    assert(x == b0 + 256 * b1);
    assert(x % 256 == b0 && x / 256 == b1) by (nonlinear_arith)
        requires
            x == b0 + 256 * b1,
            b0 < 256,
    ;
    assert(le_bytes_u16(x) =~= seq![b0, b1]);
}

proof fn lemma_le_u32_roundtrip(x: u32)
    ensures
        le_u32(le_bytes_u32(x)[0], le_bytes_u32(x)[1], le_bytes_u32(x)[2], le_bytes_u32(x)[3]) == x,
{
    assert((x % 256) + 256 * ((x / 256) % 256) + 65536 * ((x / 65536) % 256) + 16777216 * (x
        / 16777216) == x) by (bit_vector);
}

proof fn lemma_le_bytes_u32_roundtrip(b0: u8, b1: u8, b2: u8, b3: u8)
    ensures
        le_bytes_u32(le_u32(b0, b1, b2, b3)) == seq![b0, b1, b2, b3],
{
    let x: u32 = le_u32(b0, b1, b2, b3);
    assert(x == b0 + 256 * b1 + 65536 * b2 + 16777216 * b3);
    assert(x % 256 == b0 && (x / 256) % 256 == b1 && (x / 65536) % 256 == b2 && x / 16777216
        == b3) by (nonlinear_arith)
        requires
            x == b0 + 256 * b1 + 65536 * b2 + 16777216 * b3,
            b0 < 256,
            b1 < 256,
            b2 < 256,
            b3 < 256,
    ;
    assert(le_bytes_u32(x) =~= seq![b0, b1, b2, b3]);
}

proof fn lemma_decode_payload_of(c: Command)
    ensures
        payload_len(opcode_of(c)) == Some(payload_of(c).len()),
        decode(opcode_of(c), payload_of(c)) == c,
{
    match c {
        Command::MediaTap { usage } => lemma_le_u16_roundtrip(usage),
        Command::Ping { seq } => lemma_le_u32_roundtrip(seq),
        _ => {},
    }
}

proof fn lemma_payload_of_decode(op: u8, p: Seq<u8>)
    requires
        payload_len(op) is Some,
        p.len() >= payload_len(op)->0,
    ensures
        opcode_of(decode(op, p)) == op,
        payload_of(decode(op, p)) == p.take(payload_len(op)->0 as int),
{
    if op == OP_MEDIA_TAP {
        lemma_le_bytes_u16_roundtrip(p[0], p[1]);
    } else if op == OP_PING {
        lemma_le_bytes_u32_roundtrip(p[0], p[1], p[2], p[3]);
    }
    assert(payload_of(decode(op, p)) =~= p.take(payload_len(op)->0 as int));
}

/// Every command survives the trip through its wire encoding: parsing the
/// datagram that the table prescribes for `c` gives back `c`.
pub proof fn lemma_encode_parse_roundtrip(c: Command)
    ensures
        spec_parse(spec_encode(c)) == Ok::<Command, ParseError>(c),
{
    lemma_decode_payload_of(c);
    assert(spec_encode(c).skip(3) =~= payload_of(c));
}

/// A datagram parses to `c` exactly when it starts with the encoding of `c`;
/// whatever follows the opcode's payload is ignored.
pub proof fn lemma_parse_ok_iff_encoded_prefix(buf: Seq<u8>, c: Command)
    ensures
        spec_parse(buf) == Ok::<Command, ParseError>(c) <==> (spec_encode(c).len() <= buf.len()
            && buf.take(spec_encode(c).len() as int) == spec_encode(c)),
{
    let e = spec_encode(c);
    if spec_parse(buf) == Ok::<Command, ParseError>(c) {
        let op = buf[2];
        lemma_payload_of_decode(op, buf.skip(3));
        assert(buf.take(e.len() as int) =~= e);
    }
    if e.len() <= buf.len() && buf.take(e.len() as int) == e {
        lemma_decode_payload_of(c);
        assert(buf[0] == e[0] && buf[1] == e[1] && buf[2] == e[2]);
        let n = payload_of(c).len();
        assert forall|i: int| 0 <= i < n implies buf.skip(3).take(n as int)[i] == payload_of(c)[i] by {
            assert(buf.take(e.len() as int)[3 + i] == e[3 + i]);
        }
        assert(buf.skip(3).take(n as int) =~= payload_of(c));
        assert(decode(opcode_of(c), buf.skip(3)) == decode(opcode_of(c), payload_of(c)));
    }
}

/// Trailing bytes after a complete request do not change what it means.
pub proof fn lemma_parse_ignores_trailing_bytes(buf: Seq<u8>, extra: Seq<u8>)
    requires
        spec_parse(buf) is Ok,
    ensures
        spec_parse(buf + extra) == spec_parse(buf),
{
    let c = spec_parse(buf)->Ok_0;
    lemma_parse_ok_iff_encoded_prefix(buf, c);
    let n = spec_encode(c).len() as int;
    assert((buf + extra).take(n) =~= buf.take(n));
    lemma_parse_ok_iff_encoded_prefix(buf + extra, c);
}

/// Where each field of a parsed request comes from: the payload starts at
/// byte 3; single-byte fields are the bytes themselves (the modifier before
/// the keycode), signed movement bytes are read in two's complement, and
/// multi-byte fields are little-endian.
pub proof fn lemma_fields_come_from_payload_bytes(buf: Seq<u8>)
    requires
        spec_parse(buf) is Ok,
    ensures
        spec_parse(buf)->Ok_0 matches Command::KeyTap { modifier, keycode } ==> modifier == buf[3]
            && keycode == buf[4],
        spec_parse(buf)->Ok_0 matches Command::KeyDown { modifier, keycode } ==> modifier == buf[3]
            && keycode == buf[4],
        spec_parse(buf)->Ok_0 matches Command::MouseMove { dx, dy, wheel } ==> {
            &&& dx as int == (if buf[3] < 128 { buf[3] as int } else { buf[3] as int - 256 })
            &&& dy as int == (if buf[4] < 128 { buf[4] as int } else { buf[4] as int - 256 })
            &&& wheel as int == (if buf[5] < 128 { buf[5] as int } else { buf[5] as int - 256 })
        },
        spec_parse(buf)->Ok_0 matches Command::MouseClick { buttons } ==> buttons == buf[3],
        spec_parse(buf)->Ok_0 matches Command::MouseButtons { buttons } ==> buttons == buf[3],
        spec_parse(buf)->Ok_0 matches Command::MediaTap { usage } ==> usage as int == buf[3] as int
            + 256 * (buf[4] as int),
        spec_parse(buf)->Ok_0 matches Command::Ping { seq } ==> seq as int == buf[3] as int + 256
            * (buf[4] as int) + 65536 * (buf[5] as int) + 16777216 * (buf[6] as int),
        spec_parse(buf)->Ok_0 is KeyTap ==> buf[2] == 0x01u8,
        spec_parse(buf)->Ok_0 is KeyDown ==> buf[2] == 0x02u8,
        spec_parse(buf)->Ok_0 is KeyUp ==> buf[2] == 0x03u8,
        spec_parse(buf)->Ok_0 is MouseMove ==> buf[2] == 0x10u8,
        spec_parse(buf)->Ok_0 is MouseClick ==> buf[2] == 0x11u8,
        spec_parse(buf)->Ok_0 is MouseButtons ==> buf[2] == 0x12u8,
        spec_parse(buf)->Ok_0 is MediaTap ==> buf[2] == 0x20u8,
        spec_parse(buf)->Ok_0 is Ping ==> buf[2] == 0xf0u8,
{
    let p = buf.skip(3);
    if p.len() > 0 {
        assert(p[0] == buf[3]);
    }
    if p.len() > 1 {
        assert(p[1] == buf[4]);
    }
    if p.len() > 2 {
        assert(p[2] == buf[5]);
    }
    if p.len() > 3 {
        assert(p[3] == buf[6]);
    }
}

/// The `PONG` reply is `'h'`, version 1, opcode `0xf1`, then `seq` in
/// little-endian order: its four last bytes read back as `seq`.
pub proof fn lemma_pong_layout(seq: u32)
    ensures
        pong_bytes(seq).len() == 7,
        pong_bytes(seq)[0] == 0x68u8,
        pong_bytes(seq)[1] == 0x01u8,
        pong_bytes(seq)[2] == 0xf1u8,
        pong_bytes(seq)[3] as int + 256 * (pong_bytes(seq)[4] as int) + 65536 * (pong_bytes(
            seq,
        )[5] as int) + 16777216 * (pong_bytes(seq)[6] as int) == seq as int,
{
    lemma_le_u32_roundtrip(seq);
}

/// A `PONG` reply is never taken for a request: its lowercase magic is
/// rejected, so a client sharing the socket can tell the two apart.
pub proof fn lemma_pong_is_not_a_request(seq: u32)
    ensures
        spec_parse(pong_bytes(seq)) == Err::<Command, ParseError>(ParseError::BadMagic(MAGIC_REPLY)),
{
}

/// The `PONG` for a `PING` echoes the ping's sequence number: its four
/// payload bytes are the ping's, and they read back as `seq`.
pub proof fn lemma_pong_echoes_ping(buf: Seq<u8>, seq: u32)
    requires
        spec_parse(buf) == Ok::<Command, ParseError>(Command::Ping { seq }),
    ensures
        pong_bytes(seq).subrange(3, 7) == buf.subrange(3, 7),
        le_u32(pong_bytes(seq)[3], pong_bytes(seq)[4], pong_bytes(seq)[5], pong_bytes(seq)[6])
            == seq,
{
    lemma_le_bytes_u32_roundtrip(buf[3], buf[4], buf[5], buf[6]);
    lemma_le_u32_roundtrip(seq);
    assert(pong_bytes(seq).subrange(3, 7) =~= buf.subrange(3, 7));
}

} // verus!
