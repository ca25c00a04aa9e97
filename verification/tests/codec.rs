use barrel::{Error, Msg, Pos, Response, Rgba, Size};

#[test]
fn pos_encode() {
    let pos = Pos::new(34, 65);
    let mut buf = vec![];
    pos.encode(&mut buf);
    assert_eq!(&buf, "34 65".as_bytes());
}

#[test]
fn rgba_encode() {
    let col = Rgba::new(1, 11, 3, Some(4));
    let mut buf = vec![];
    col.encode(&mut buf);
    assert_eq!(&buf, "010b0304".as_bytes())
}

#[test]
fn set_px_encode() {
    let pos = Pos::new(34, 54);
    let col = Rgba::new(1, 2, 15, None);
    let msg = Msg::SetPx(pos, col);
    let mut buf = vec![];
    msg.encode(&mut buf);
    assert_eq!(&buf, "PX 34 54 01020f\n".as_bytes());
}

#[test]
fn byte_to_hex() {
    for b in 0..255_u8 {
        let hex = barrel::codec::fast_byte_to_hex(b);
        let exp = format!("{:02x}", b);
        assert_eq!(exp, String::from_utf8(hex.to_vec()).unwrap());
    }
}

#[test]
fn pos_encode_extremes() {
    let mut buf = vec![];
    Pos::new(0, 4294967295).encode(&mut buf);
    assert_eq!(&buf, "0 4294967295".as_bytes());
    let mut buf = vec![];
    Pos::new(1000000, 7).encode(&mut buf);
    assert_eq!(&buf, format!("{} {}", 1000000, 7).as_bytes());
}

#[test]
fn rgba_encode_no_alpha_is_six_lowercase_hex() {
    let mut buf = vec![];
    Rgba::new(255, 16, 0, None).encode(&mut buf);
    assert_eq!(buf.len(), 6);
    assert_eq!(&buf, format!("{:02x}{:02x}{:02x}", 255, 16, 0).as_bytes());
}

#[test]
fn rgba_encode_alpha_is_eight_lowercase_hex() {
    let mut buf = vec![];
    Rgba::new(0xde, 0xad, 0xbe, Some(0xef)).encode(&mut buf);
    assert_eq!(buf.len(), 8);
    assert_eq!(&buf, "deadbeef".as_bytes());
}

#[test]
fn rgba_round_trip_without_alpha() {
    let col = Rgba::new(1, 2, 15, None);
    let mut buf = vec![];
    col.encode(&mut buf);
    let (rest, back) = Rgba::decode(&buf).unwrap();
    assert_eq!(back, col);
    assert!(rest.is_empty());
}

#[test]
fn rgba_round_trip_with_alpha() {
    let col = Rgba::new(200, 0, 255, Some(77));
    let mut buf = vec![];
    col.encode(&mut buf);
    let (rest, back) = Rgba::decode(&buf).unwrap();
    assert_eq!(back, col);
    assert!(rest.is_empty());
}

#[test]
fn rgba_decode_short_buffer_is_missing_data() {
    assert_eq!(Rgba::decode(b"01020").unwrap_err(), Error::MissingData);
    assert_eq!(Rgba::decode(b"").unwrap_err(), Error::MissingData);
}

#[test]
fn rgba_decode_non_hex_fails() {
    assert_eq!(Rgba::decode(b"zzzzzz").unwrap_err(), Error::HexParseFailure);
    assert_eq!(Rgba::decode(b"aabbcg").unwrap_err(), Error::HexParseFailure);
}

#[test]
fn rgba_decode_uppercase_hex_is_accepted() {
    let (_, col) = Rgba::decode(b"AABBCC").unwrap();
    assert_eq!(col, Rgba::new(0xaa, 0xbb, 0xcc, None));
}

#[test]
fn rgba_decode_greedily_takes_eight() {
    // with eight or more bytes the fourth group is read as alpha
    let (rest, col) = Rgba::decode(b"aabbccdd").unwrap();
    assert_eq!(col, Rgba::new(0xaa, 0xbb, 0xcc, Some(0xdd)));
    assert!(rest.is_empty());
    // exactly eight bytes are consumed, whatever follows
    let (rest, col) = Rgba::decode(b"aabbccddee").unwrap();
    assert_eq!(col, Rgba::new(0xaa, 0xbb, 0xcc, Some(0xdd)));
    assert_eq!(rest, b"ee");
    // a non-hex fourth group fails rather than falling back to six
    assert_eq!(Rgba::decode(b"aabbccZZ").unwrap_err(), Error::HexParseFailure);
    // with six or seven bytes alpha stays absent
    let (rest, col) = Rgba::decode(b"aabbcc\n").unwrap();
    assert_eq!(col, Rgba::new(0xaa, 0xbb, 0xcc, None));
    assert_eq!(rest, b"\n");
}

#[test]
fn decode_two_u32_basics() {
    let (rest, xy) = barrel::codec::decode_two_u32(b"34 65").unwrap();
    assert_eq!(xy, [34, 65]);
    assert!(rest.is_empty());
    let (rest, xy) = barrel::codec::decode_two_u32(b"  007 08  tail").unwrap();
    assert_eq!(xy, [7, 8]);
    assert_eq!(rest, b"  tail");
}

#[test]
fn decode_two_u32_errors() {
    assert_eq!(barrel::codec::decode_two_u32(b"").unwrap_err(), Error::MissingData);
    assert_eq!(barrel::codec::decode_two_u32(b"   ").unwrap_err(), Error::MissingData);
    assert_eq!(barrel::codec::decode_two_u32(b"42").unwrap_err(), Error::MissingData);
    assert_eq!(barrel::codec::decode_two_u32(b"42 ").unwrap_err(), Error::MissingData);
    assert_eq!(barrel::codec::decode_two_u32(b"x 1").unwrap_err(), Error::ParseFailure);
    assert_eq!(barrel::codec::decode_two_u32(b"1 -2").unwrap_err(), Error::ParseFailure);
    assert_eq!(
        barrel::codec::decode_two_u32(b"4294967295 4294967296").unwrap_err(),
        Error::ParseFailure
    );
}

#[test]
fn decode_pixel_reply_line() {
    let resp = Response::decode("PX 34 54 01020f\n").unwrap();
    match resp {
        Response::Px(pos, col) => {
            assert_eq!(pos, Pos::new(34, 54));
            assert_eq!(col, Rgba::new(1, 2, 15, None));
        }
        other => panic!("expected a pixel reply, got {:?}", other),
    }
}

#[test]
fn decode_pixel_reply_wire_form_without_space() {
    // a server reply carries the color right behind the coordinates
    let resp = Response::decode("PX 3 4 aabbcc").unwrap();
    match resp {
        Response::Px(pos, col) => {
            assert_eq!(pos, Pos::new(3, 4));
            assert_eq!(col, Rgba::new(0xaa, 0xbb, 0xcc, None));
        }
        other => panic!("expected a pixel reply, got {:?}", other),
    }
}

#[test]
fn decode_size_reply_line() {
    let resp = Response::decode("SIZE 800 600").unwrap();
    match resp {
        Response::Size(sz) => {
            assert_eq!(sz, Size { x: 800, y: 600 });
        }
        other => panic!("expected a size reply, got {:?}", other),
    }
}

#[test]
fn decode_unrecognized_line_is_verbatim_fallback() {
    let resp = Response::decode("unparseable garbage").unwrap();
    match resp {
        Response::Help(text) => assert_eq!(text, "unparseable garbage"),
        other => panic!("expected the fallback reply, got {:?}", other),
    }
    // lowercase prefixes are not recognized either: keywords are case-sensitive
    let resp = Response::decode("px 1 2 aabbcc").unwrap();
    assert!(matches!(resp, Response::Help(_)));
    let resp = Response::decode("").unwrap();
    match resp {
        Response::Help(text) => assert_eq!(text, ""),
        other => panic!("expected the fallback reply, got {:?}", other),
    }
}

#[test]
fn decode_recognized_prefix_can_fail() {
    assert_eq!(Response::decode("PX 1 2").unwrap_err(), Error::MissingData);
    assert_eq!(Response::decode("PX one 2 aabbcc").unwrap_err(), Error::ParseFailure);
    assert_eq!(Response::decode("PX 1 2 zzzzzz").unwrap_err(), Error::HexParseFailure);
    assert_eq!(Response::decode("SIZE 5").unwrap_err(), Error::MissingData);
    assert_eq!(Response::decode("SIZE 4294967296 1").unwrap_err(), Error::ParseFailure);
}

#[test]
fn encode_each_message_kind() {
    let mut buf = vec![];
    Msg::GetPx(Pos::new(12, 3)).encode(&mut buf);
    assert_eq!(&buf, "PX 12 3\n".as_bytes());
    let mut buf = vec![];
    Msg::GetSize.encode(&mut buf);
    assert_eq!(&buf, "SIZE\n".as_bytes());
    let mut buf = vec![];
    Msg::Help.encode(&mut buf);
    assert_eq!(&buf, "HELP\n".as_bytes());
}
