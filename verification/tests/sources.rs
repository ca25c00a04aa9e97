use barrel::camera::{camera_msgs, mask_color, next_mod};
use barrel::image_writer::{grid_msgs, Frame, GifWriter};
use barrel::screen_capture::diff_msgs;
use barrel::{encode_msgs, Msg, Pos, Rgba};

#[test]
fn grid_msgs_walks_rows_first() {
    let pixels = vec![
        Rgba::new(1, 0, 0, None),
        Rgba::new(2, 0, 0, None),
        Rgba::new(3, 0, 0, None),
        Rgba::new(4, 0, 0, None),
        Rgba::new(5, 0, 0, None),
        Rgba::new(6, 0, 0, None),
    ];
    let msgs = grid_msgs(3, &pixels);
    assert_eq!(msgs.len(), 6);
    match msgs[4] {
        Msg::SetPx(pos, col) => {
            assert_eq!(pos, Pos::new(1, 1));
            assert_eq!(col, Rgba::new(5, 0, 0, None));
        }
        other => panic!("expected a pixel-set command, got {:?}", other),
    }
    let mut buf = vec![];
    encode_msgs(&msgs, &mut buf);
    let expected = "PX 0 0 010000\nPX 1 0 020000\nPX 2 0 030000\n\
                    PX 0 1 040000\nPX 1 1 050000\nPX 2 1 060000\n";
    assert_eq!(&buf, expected.as_bytes());
}

#[test]
fn frame_encodes_its_commands_and_keeps_its_delay() {
    let pixels = vec![Rgba::new(9, 8, 7, Some(6)), Rgba::new(0, 0, 0, None)];
    let frame = Frame::from_pixels(2, &pixels, 40);
    assert_eq!(frame.delay(), 40);
    let mut buf = vec![];
    frame.encode(&mut buf);
    assert_eq!(&buf, "PX 0 0 09080706\nPX 1 0 000000\n".as_bytes());
}

#[test]
fn gif_writer_hands_frames_back_in_order() {
    let f1 = Frame::from_pixels(1, &[Rgba::new(1, 1, 1, None)], 10);
    let f2 = Frame::from_pixels(1, &[Rgba::new(2, 2, 2, None)], 20);
    let writer = GifWriter::from_frames(vec![f1, f2]);
    let frames = writer.frames();
    assert_eq!(frames.len(), 2);
    assert_eq!(frames[0].delay(), 10);
    assert_eq!(frames[1].delay(), 20);
}

#[test]
fn diff_msgs_sends_only_changed_pixels() {
    let prev = vec![
        Rgba::new(1, 1, 1, None),
        Rgba::new(2, 2, 2, None),
        Rgba::new(3, 3, 3, None),
        Rgba::new(4, 4, 4, None),
    ];
    let mut cur = prev.clone();
    cur[2] = Rgba::new(9, 9, 9, None);
    let msgs = diff_msgs(2, &prev, &cur);
    assert_eq!(msgs.len(), 1);
    match msgs[0] {
        Msg::SetPx(pos, col) => {
            assert_eq!(pos, Pos::new(0, 1));
            assert_eq!(col, Rgba::new(9, 9, 9, None));
        }
        other => panic!("expected a pixel-set command, got {:?}", other),
    }
    // identical frames yield nothing at all
    assert!(diff_msgs(2, &prev, &prev).is_empty());
}

#[test]
fn mask_color_keeps_one_channel_per_cycle() {
    let c = Rgba::new(10, 20, 30, Some(40));
    assert_eq!(mask_color(3, c), Rgba::new(10, 0, 0, Some(40)));
    assert_eq!(mask_color(1, c), Rgba::new(0, 20, 0, Some(40)));
    assert_eq!(mask_color(2, c), Rgba::new(0, 0, 30, Some(40)));
}

#[test]
fn next_mod_wraps_and_skips_zero() {
    assert_eq!(next_mod(1), 2);
    assert_eq!(next_mod(254), 255);
    assert_eq!(next_mod(255), 1);
}

#[test]
fn camera_msgs_masks_every_pixel() {
    let pixels = vec![Rgba::new(10, 20, 30, Some(40)), Rgba::new(50, 60, 70, Some(80))];
    let msgs = camera_msgs(2, &pixels, 2);
    assert_eq!(msgs.len(), 2);
    match msgs[1] {
        Msg::SetPx(pos, col) => {
            assert_eq!(pos, Pos::new(1, 0));
            assert_eq!(col, Rgba::new(0, 0, 70, Some(80)));
        }
        other => panic!("expected a pixel-set command, got {:?}", other),
    }
}

#[test]
fn color_constructors_hold_their_channels() {
    assert_eq!(Rgba::red(), Rgba::new(255, 0, 0, None));
    assert_eq!(Rgba::green(), Rgba::new(0, 255, 0, None));
    assert_eq!(Rgba::blue(), Rgba::new(0, 0, 255, None));
    assert_eq!(Rgba::black(), Rgba::new(255, 255, 255, None));
}
