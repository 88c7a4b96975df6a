use esp32_rust_c_hid_example::protocol::{
    parse, write_pong, Command, ParseError, MAGIC_REPLY, MAGIC_REQUEST, MAX_REPLY_LEN,
    OP_KEY_DOWN, OP_KEY_TAP, OP_KEY_UP, OP_MEDIA_TAP, OP_MOUSE_BUTTONS, OP_MOUSE_CLICK,
    OP_MOUSE_MOVE, OP_PING, OP_PONG, VERSION,
};

fn pkt(op: u8, payload: &[u8]) -> Vec<u8> {
    let mut v = vec![MAGIC_REQUEST, VERSION, op];
    v.extend_from_slice(payload);
    v
}

#[test]
fn rejects_short() {
    assert_eq!(parse(&[]), Err(ParseError::TooShort));
    assert_eq!(parse(&[0x48, 0x01]), Err(ParseError::TooShort));
}

#[test]
fn rejects_bad_magic() {
    assert_eq!(parse(&[0x00, 0x01, 0x01]), Err(ParseError::BadMagic(0x00)));
}

#[test]
fn rejects_bad_version() {
    assert_eq!(
        parse(&[MAGIC_REQUEST, 0x99, 0x01]),
        Err(ParseError::BadVersion(0x99))
    );
}

#[test]
fn parses_key_tap() {
    let buf = pkt(OP_KEY_TAP, &[0x02, 0x04]);
    assert_eq!(
        parse(&buf),
        Ok(Command::KeyTap {
            modifier: 0x02,
            keycode: 0x04
        })
    );
}

#[test]
fn parses_key_up_without_payload() {
    let buf = pkt(OP_KEY_UP, &[]);
    assert_eq!(parse(&buf), Ok(Command::KeyUp));
}

#[test]
fn parses_mouse_move_signed() {
    let buf = pkt(OP_MOUSE_MOVE, &[0xfe, 0x05, 0x00]); // dx=-2, dy=5, wheel=0
    assert_eq!(
        parse(&buf),
        Ok(Command::MouseMove {
            dx: -2,
            dy: 5,
            wheel: 0,
        })
    );
}

#[test]
fn parses_media_tap_little_endian() {
    let buf = pkt(OP_MEDIA_TAP, &[0xcd, 0x00]); // play/pause = 0x00cd
    assert_eq!(parse(&buf), Ok(Command::MediaTap { usage: 0x00cd }));
}

#[test]
fn parses_ping_and_writes_matching_pong() {
    let buf = pkt(OP_PING, &[0x39, 0x05, 0x00, 0x00]);
    assert_eq!(parse(&buf), Ok(Command::Ping { seq: 0x0539 }));

    let mut out = [0u8; MAX_REPLY_LEN];
    let n = write_pong(0x0539, &mut out);
    assert_eq!(n, 7);
    assert_eq!(out, [MAGIC_REPLY, VERSION, OP_PONG, 0x39, 0x05, 0x00, 0x00]);
}

#[test]
fn rejects_truncated_payload() {
    let buf = pkt(OP_MOUSE_MOVE, &[0x01]); // expected 3 bytes
    assert_eq!(
        parse(&buf),
        Err(ParseError::TruncatedPayload {
            op: OP_MOUSE_MOVE,
            need: 3,
            got: 1,
        })
    );
}

#[test]
fn rejects_unknown_opcode() {
    let buf = pkt(0x7f, &[]);
    assert_eq!(parse(&buf), Err(ParseError::UnknownOpcode(0x7f)));
}

// ---------------------------------------------------------------------------

#[test]
fn parses_key_down_and_buttons_and_click() {
    assert_eq!(
        parse(&pkt(OP_KEY_DOWN, &[0x01, 0x2c])),
        Ok(Command::KeyDown { modifier: 0x01, keycode: 0x2c })
    );
    assert_eq!(parse(&pkt(OP_MOUSE_CLICK, &[0x02])), Ok(Command::MouseClick { buttons: 0x02 }));
    assert_eq!(parse(&pkt(OP_MOUSE_BUTTONS, &[0x05])), Ok(Command::MouseButtons { buttons: 0x05 }));
}

#[test]
fn mouse_move_extremes() {
    assert_eq!(
        parse(&pkt(OP_MOUSE_MOVE, &[0x80, 0x7f, 0xff])),
        Ok(Command::MouseMove { dx: -128, dy: 127, wheel: -1 })
    );
}

#[test]
fn media_and_ping_high_bytes() {
    assert_eq!(parse(&pkt(OP_MEDIA_TAP, &[0x34, 0x12])), Ok(Command::MediaTap { usage: 0x1234 }));
    assert_eq!(
        parse(&pkt(OP_PING, &[0x78, 0x56, 0x34, 0x12])),
        Ok(Command::Ping { seq: 0x1234_5678 })
    );
    assert_eq!(
        parse(&pkt(OP_PING, &[0xff, 0xff, 0xff, 0xff])),
        Ok(Command::Ping { seq: u32::MAX })
    );
}

#[test]
fn trailing_bytes_are_ignored() {
    assert_eq!(
        parse(&pkt(OP_KEY_TAP, &[0x02, 0x04, 0xaa, 0xbb])),
        Ok(Command::KeyTap { modifier: 0x02, keycode: 0x04 })
    );
    assert_eq!(parse(&pkt(OP_KEY_UP, &[0x99])), Ok(Command::KeyUp));
}

#[test]
fn every_truncation_is_reported() {
    assert_eq!(
        parse(&pkt(OP_PING, &[0x01, 0x02, 0x03])),
        Err(ParseError::TruncatedPayload { op: OP_PING, need: 4, got: 3 })
    );
    assert_eq!(
        parse(&pkt(OP_KEY_TAP, &[])),
        Err(ParseError::TruncatedPayload { op: OP_KEY_TAP, need: 2, got: 0 })
    );
    assert_eq!(
        parse(&pkt(OP_MOUSE_CLICK, &[])),
        Err(ParseError::TruncatedPayload { op: OP_MOUSE_CLICK, need: 1, got: 0 })
    );
}

#[test]
fn header_is_checked_in_order() {
    // magic is checked before version, version before opcode
    assert_eq!(parse(&[0x00, 0x99, 0x7f]), Err(ParseError::BadMagic(0x00)));
    assert_eq!(parse(&[MAGIC_REQUEST, 0x02, 0x7f]), Err(ParseError::BadVersion(0x02)));
}

#[test]
fn pong_opcode_is_not_a_request() {
    assert_eq!(parse(&pkt(OP_PONG, &[0, 0, 0, 0])), Err(ParseError::UnknownOpcode(OP_PONG)));
}

#[test]
fn pong_reply_is_rejected_as_request() {
    let mut out = [0u8; MAX_REPLY_LEN];
    let n = write_pong(0xdead_beef, &mut out);
    assert_eq!(out, [MAGIC_REPLY, VERSION, OP_PONG, 0xef, 0xbe, 0xad, 0xde]);
    assert_eq!(parse(&out[..n]), Err(ParseError::BadMagic(MAGIC_REPLY)));
}

#[test]
fn pong_echoes_ping_seq_bytes() {
    let seq_bytes = [0x01, 0x00, 0x00, 0x80];
    let buf = pkt(OP_PING, &seq_bytes);
    let seq = match parse(&buf) {
        Ok(Command::Ping { seq }) => seq,
        other => panic!("unexpected {:?}", other),
    };
    assert_eq!(seq, 0x8000_0001);
    let mut out = [0u8; MAX_REPLY_LEN];
    write_pong(seq, &mut out);
    assert_eq!(&out[3..7], &seq_bytes);
}

#[test]
fn encoded_commands_roundtrip() {
    let cases = [
        (pkt(OP_KEY_TAP, &[0x00, 0x04]), Command::KeyTap { modifier: 0, keycode: 4 }),
        (pkt(OP_MOUSE_MOVE, &[0x9c, 0x64, 0x01]), Command::MouseMove { dx: -100, dy: 100, wheel: 1 }),
        (pkt(OP_MEDIA_TAP, &[0xe9, 0x00]), Command::MediaTap { usage: 0x00e9 }),
        (pkt(OP_PING, &[0, 0, 0, 0]), Command::Ping { seq: 0 }),
    ];
    for (buf, cmd) in cases.iter() {
        assert_eq!(parse(buf), Ok(*cmd));
    }
}
