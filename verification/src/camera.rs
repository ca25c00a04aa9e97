//! Camera message building: a camera frame is handed over as a row-major
//! grid of plain color values (the caller decodes the device's compressed
//! stream), and a rotating mask keeps one color channel per frame, cycling
//! with a counter that wraps around and skips zero. Talking to the capture
//! device is the business of the caller.
use vstd::prelude::*;

use crate::image_writer::grid_msgs;
use crate::{Msg, Pos, Rgba};

verus! {

/// The color kept for the cycle position `current_mod`: only the red
/// channel when `current_mod % 3` is zero, only green when it is one, only
/// blue when it is two; alpha is kept as it is.
pub open spec fn spec_mask(current_mod: u8, c: Rgba) -> Rgba {
    if current_mod % 3 == 0 {
        Rgba { r: c.r, g: 0u8, b: 0u8, a: c.a }
    } else if current_mod % 3 == 1 {
        Rgba { r: 0u8, g: c.g, b: 0u8, a: c.a }
    } else {
        Rgba { r: 0u8, g: 0u8, b: c.b, a: c.a }
    }
}

/// Keep one channel of `c`, chosen by the cycling counter.
pub fn mask_color(current_mod: u8, c: Rgba) -> (m: Rgba)
    ensures
        m == spec_mask(current_mod, c),
{
    match current_mod % 3 {
        0 => Rgba { r: c.r, g: 0, b: 0, a: c.a },
        1 => Rgba { r: 0, g: c.g, b: 0, a: c.a },
        _ => Rgba { r: 0, g: 0, b: c.b, a: c.a },
    }
}

/// Advance the cycling counter: it wraps at the numeric limit and skips
/// zero, so three consecutive frames never share a channel.
pub fn next_mod(current_mod: u8) -> (n: u8)
    ensures
        current_mod < 255 ==> n == current_mod + 1,
        current_mod == 255 ==> n == 1u8,
{
    if current_mod == 255 {
        1
    } else {
        current_mod + 1
    }
}

/// Row-major pixel-set commands for one camera frame: every color masked
/// to the channel of the current cycle position.
pub fn camera_msgs(width: u32, pixels: &[Rgba], current_mod: u8) -> (msgs: Vec<Msg>)
    requires
        width >= 1,
        pixels@.len() <= u32::MAX,
    ensures
        msgs@.len() == pixels@.len(),
        forall|i: int|
            0 <= i < pixels@.len() ==> msgs@[i] == Msg::SetPx(
                Pos { x: (i % (width as int)) as u32, y: (i / (width as int)) as u32 },
                spec_mask(current_mod, pixels@[i]),
            ),
{
    let mut masked: Vec<Rgba> = Vec::new();
    let mut i: usize = 0;
    while i < pixels.len()
        invariant
            i <= pixels@.len(),
            masked@.len() == i,
            forall|q: int| 0 <= q < i ==> masked@[q] == spec_mask(current_mod, pixels@[q]),
        decreases pixels@.len() - i,
    {
        masked.push(mask_color(current_mod, pixels[i]));
        i = i + 1;
    }
    grid_msgs(width, masked.as_slice())
}

} // verus!
