//! Screen-capture message building: a captured frame is handed over as a
//! row-major grid of plain color values, and either every pixel or only the
//! pixels that changed against the previous frame become pixel-set
//! commands. The capture device itself is the business of the caller.
use vstd::prelude::*;

use crate::{Msg, Pos, Rgba};

verus! {

/// Whether a capture sends every pixel or only the changed pixels.
pub enum Mode {
    SendAll,
    SendDiff,
}

/// The pixel-set commands for the first `n` pixels of a `width`-wide grid
/// that differ from the previous frame, in row-major order.
pub open spec fn spec_diff_msgs(width: int, prev: Seq<Rgba>, cur: Seq<Rgba>, n: int) -> Seq<Msg>
    decreases n,
{
    if n <= 0 {
        Seq::empty()
    } else {
        spec_diff_msgs(width, prev, cur, n - 1) + (if cur[n - 1] == prev[n - 1] {
            Seq::empty()
        } else {
            seq![
                Msg::SetPx(
                    Pos { x: ((n - 1) % width) as u32, y: ((n - 1) / width) as u32 },
                    cur[n - 1],
                ),
            ]
        })
    }
}

/// One pixel-set command per pixel of `cur` that differs from `prev`, in
/// row-major order; unchanged pixels contribute nothing.
pub fn diff_msgs(width: u32, prev: &[Rgba], cur: &[Rgba]) -> (msgs: Vec<Msg>)
    requires
        width >= 1,
        prev@.len() == cur@.len(),
        cur@.len() <= u32::MAX,
    ensures
        msgs@ == spec_diff_msgs(width as int, prev@, cur@, cur@.len() as int),
{
    let w = width as usize;
    let mut msgs: Vec<Msg> = Vec::new();
    let mut i: usize = 0;
    while i < cur.len()
        invariant
            w == width,
            w >= 1,
            prev@.len() == cur@.len(),
            cur@.len() <= u32::MAX,
            i <= cur@.len(),
            msgs@ == spec_diff_msgs(width as int, prev@, cur@, i as int),
        decreases cur@.len() - i,
    {
        let px = cur[i];
        if !(px == prev[i]) {
            let x = i % w;
            let y = i / w;
            msgs.push(Msg::SetPx(Pos { x: x as u32, y: y as u32 }, px));
        }
        proof {
            assert(msgs@ =~= spec_diff_msgs(width as int, prev@, cur@, i + 1 as int));
        }
        i = i + 1;
    }
    msgs
}

} // verus!
