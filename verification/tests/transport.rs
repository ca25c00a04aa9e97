use barrel::{correlate_replies, response_count, Client, Error, Msg, Pos, Response, Rgba, Size};

fn px(x: u32, y: u32) -> Msg {
    Msg::SetPx(Pos::new(x, y), Rgba::new(1, 2, 3, None))
}

#[test]
fn expect_response_per_kind() {
    assert!(!px(0, 0).expect_response());
    assert!(Msg::GetPx(Pos::new(0, 0)).expect_response());
    assert!(Msg::GetSize.expect_response());
    assert!(Msg::Help.expect_response());
}

#[test]
fn send_buffered_appends_without_flushing() {
    let mut client = Client::new();
    client.send_buffered(px(1, 2));
    client.send_buffered(Msg::GetSize);
    let bytes = client.take_buffered();
    assert_eq!(&bytes, "PX 1 2 010203\nSIZE\n".as_bytes());
    // the buffer is drained by the hand-over
    assert!(client.take_buffered().is_empty());
}

#[test]
fn send_all_buffers_everything_and_counts_replies() {
    let mut client = Client::new();
    let msgs = vec![px(0, 0), Msg::GetSize, px(1, 1), Msg::GetPx(Pos::new(5, 6))];
    let owed = client.send_all_buffered(&msgs);
    assert_eq!(owed, 2);
    let bytes = client.take_buffered();
    assert_eq!(
        &bytes,
        "PX 0 0 010203\nSIZE\nPX 1 1 010203\nPX 5 6\n".as_bytes()
    );
}

#[test]
fn response_count_counts_only_expecting_messages() {
    assert_eq!(response_count(&[]), 0);
    assert_eq!(response_count(&[px(0, 0), px(1, 1)]), 0);
    assert_eq!(response_count(&[Msg::Help, Msg::GetSize, px(0, 0)]), 2);
}

#[test]
fn send_all_correlates_replies_in_order() {
    // one reply line per response-expecting message, in order: the size
    // reply answers the size query, the pixel reply answers the pixel query
    let msgs = vec![px(0, 0), Msg::GetSize, px(1, 1), Msg::GetPx(Pos::new(3, 4))];
    let lines = vec!["SIZE 10 20".to_string(), "PX 3 4 aabbcc".to_string()];
    let resps = correlate_replies(&msgs, &lines).unwrap();
    assert_eq!(resps.len(), 2);
    match &resps[0] {
        Response::Size(sz) => assert_eq!(*sz, Size { x: 10, y: 20 }),
        other => panic!("expected a size reply first, got {:?}", other),
    }
    match &resps[1] {
        Response::Px(pos, col) => {
            assert_eq!(*pos, Pos::new(3, 4));
            assert_eq!(*col, Rgba::new(0xaa, 0xbb, 0xcc, None));
        }
        other => panic!("expected a pixel reply second, got {:?}", other),
    }
}

#[test]
fn correlate_replies_needs_one_line_per_expecting_message() {
    let msgs = vec![Msg::GetSize, Msg::Help];
    let lines = vec!["SIZE 1 1".to_string()];
    assert_eq!(correlate_replies(&msgs, &lines).unwrap_err(), Error::MissingData);
}

#[test]
fn correlate_replies_propagates_a_decode_failure() {
    let msgs = vec![Msg::GetPx(Pos::new(0, 0))];
    let lines = vec!["PX 0 0".to_string()];
    assert_eq!(correlate_replies(&msgs, &lines).unwrap_err(), Error::MissingData);
    let lines = vec!["PX 0 0 zz0011".to_string()];
    assert_eq!(correlate_replies(&msgs, &lines).unwrap_err(), Error::HexParseFailure);
}

#[test]
fn correlate_replies_ignores_extra_lines() {
    let msgs = vec![Msg::GetSize];
    let lines = vec!["SIZE 2 3".to_string(), "spurious".to_string()];
    let resps = correlate_replies(&msgs, &lines).unwrap();
    assert_eq!(resps.len(), 1);
}

#[test]
fn correlate_replies_keeps_fallback_lines_verbatim() {
    let msgs = vec![Msg::Help];
    let lines = vec!["try PX x y\tand SIZE".to_string()];
    let resps = correlate_replies(&msgs, &lines).unwrap();
    match &resps[0] {
        Response::Help(text) => assert_eq!(text, "try PX x y\tand SIZE"),
        other => panic!("expected the fallback reply, got {:?}", other),
    }
}

#[test]
fn send_recv_refuses_fire_and_forget_without_writing() {
    let mut client = Client::new();
    let r = client.send_recv_buffered(px(9, 9));
    assert_eq!(r.unwrap_err(), Error::NoResponseExpected);
    // nothing reached the outbound buffer, so nothing can reach the wire
    assert!(client.take_buffered().is_empty());
}

#[test]
fn send_recv_buffers_a_query() {
    let mut client = Client::new();
    client.send_recv_buffered(Msg::GetPx(Pos::new(7, 8))).unwrap();
    let bytes = client.take_buffered();
    assert_eq!(&bytes, "PX 7 8\n".as_bytes());
}
