//! Frame-oriented message building for animated images: each frame of an
//! animation becomes an ordered batch of pixel-set commands plus a pacing
//! delay. Decoding the image file itself is the business of the caller, who
//! hands every frame over as a row-major grid of plain color values.
use vstd::prelude::*;

use crate::{encode_msgs, msgs_bytes, Msg, Pos, Rgba};

verus! {

/// Row-major pixel-set commands for a `width`-wide grid of colors: the
/// `i`-th command sets the pixel at column `i % width` of row `i / width`
/// to the `i`-th color.
pub fn grid_msgs(width: u32, pixels: &[Rgba]) -> (msgs: Vec<Msg>)
    requires
        width >= 1,
        pixels@.len() <= u32::MAX,
    ensures
        msgs@.len() == pixels@.len(),
        forall|i: int|
            0 <= i < pixels@.len() ==> msgs@[i] == Msg::SetPx(
                Pos { x: (i % (width as int)) as u32, y: (i / (width as int)) as u32 },
                pixels@[i],
            ),
{
    let w = width as usize;
    let mut msgs: Vec<Msg> = Vec::new();
    let mut i: usize = 0;
    while i < pixels.len()
        invariant
            w == width,
            w >= 1,
            pixels@.len() <= u32::MAX,
            i <= pixels@.len(),
            msgs@.len() == i,
            forall|q: int|
                0 <= q < i ==> msgs@[q] == Msg::SetPx(
                    Pos { x: (q % (width as int)) as u32, y: (q / (width as int)) as u32 },
                    pixels@[q],
                ),
        decreases pixels@.len() - i,
    {
        let x = i % w;
        let y = i / w;
        msgs.push(Msg::SetPx(Pos { x: x as u32, y: y as u32 }, pixels[i]));
        i = i + 1;
    }
    msgs
}

/// One frame of an animation: an ordered batch of pixel-set commands and
/// the pacing delay to respect before the next frame.
#[derive(Debug, Clone)]
pub struct Frame {
    msgs: Vec<Msg>,
    delay_ms: u64,
}

impl Frame {
    /// The commands of this frame, in order.
    pub closed spec fn spec_msgs(self) -> Seq<Msg> {
        self.msgs@
    }

    /// The pacing delay of this frame, in milliseconds.
    pub closed spec fn spec_delay_ms(self) -> u64 {
        self.delay_ms
    }

    /// A frame that sets every pixel of a row-major grid of colors.
    pub fn from_pixels(width: u32, pixels: &[Rgba], delay_ms: u64) -> (f: Frame)
        requires
            width >= 1,
            pixels@.len() <= u32::MAX,
        ensures
            f.spec_msgs().len() == pixels@.len(),
            forall|i: int|
                0 <= i < pixels@.len() ==> f.spec_msgs()[i] == Msg::SetPx(
                    Pos { x: (i % (width as int)) as u32, y: (i / (width as int)) as u32 },
                    pixels@[i],
                ),
            f.spec_delay_ms() == delay_ms,
    {
        Frame { msgs: grid_msgs(width, pixels), delay_ms }
    }

    /// Append the wire form of every command of this frame, in order.
    pub fn encode(&self, buf: &mut Vec<u8>)
        ensures
            final(buf)@ == old(buf)@ + msgs_bytes(self.spec_msgs()),
    {
        encode_msgs(self.msgs.as_slice(), buf);
    }

    /// The pacing delay of this frame, in milliseconds.
    pub fn delay(&self) -> (d: u64)
        ensures
            d == self.spec_delay_ms(),
    {
        self.delay_ms
    }
}

/// An animated image prepared for sending: one batch of pixel-set commands
/// per frame, in presentation order.
pub struct GifWriter {
    msg_buf: Vec<Frame>,
}

impl GifWriter {
    /// The frames of the animation, in presentation order.
    pub closed spec fn spec_frames(self) -> Seq<Frame> {
        self.msg_buf@
    }

    /// A writer over already-built frames, kept in the given order.
    pub fn from_frames(frames: Vec<Frame>) -> (w: GifWriter)
        ensures
            w.spec_frames() == frames@,
    {
        GifWriter { msg_buf: frames }
    }

    /// The frames of the animation, in presentation order.
    pub fn frames(&self) -> (fs: &[Frame])
        ensures
            fs@ == self.spec_frames(),
    {
        self.msg_buf.as_slice()
    }
}

} // verus!
