//! Client-side core of a line-oriented remote-canvas protocol: the wire codec
//! for draw/query commands and replies, and the buffered transport engine that
//! batches outgoing commands and correlates replies to them in FIFO order.
//!
//! The library itself performs no I/O: encoding appends bytes to an in-memory
//! outbound buffer, decoding consumes one reply line, and the [`Client`] engine
//! decides what is written and how many replies are owed. A caller owns the
//! actual connection and moves bytes and lines between it and this crate.
use vstd::prelude::*;

pub mod camera;
pub mod codec;
pub mod image_writer;
pub mod screen_capture;

use crate::codec::{decode_matches, spec_line_err};

verus! {

/// A canvas coordinate pair.
#[derive(Debug, Clone, Copy, Ord, PartialOrd, Eq, PartialEq, Structural)]
pub struct Pos {
    pub x: u32,
    pub y: u32,
}

impl Pos {
    pub fn new(x: u32, y: u32) -> (p: Self)
        ensures
            p.x == x,
            p.y == y,
    {
        Self { x, y }
    }
}

/// A color with mandatory red, green and blue channels and an optional alpha
/// channel; an absent alpha means "opaque/unspecified".
#[derive(Debug, Clone, Copy, Ord, PartialOrd, Eq, PartialEq, Structural)]
pub struct Rgba {
    pub r: u8,
    pub g: u8,
    pub b: u8,
    pub a: Option<u8>,
}

impl Rgba {
    pub fn new(r: u8, g: u8, b: u8, a: Option<u8>) -> (c: Self)
        ensures
            c == (Rgba { r, g, b, a }),
    {
        Self { r, g, b, a }
    }

    pub fn black() -> (c: Self)
        ensures
            c == (Rgba { r: 255u8, g: 255u8, b: 255u8, a: None::<u8> }),
    {
        Self::new(255, 255, 255, None)
    }

    pub fn red() -> (c: Self)
        ensures
            c == (Rgba { r: 255u8, g: 0u8, b: 0u8, a: None::<u8> }),
    {
        Self::new(255, 0, 0, None)
    }

    pub fn green() -> (c: Self)
        ensures
            c == (Rgba { r: 0u8, g: 255u8, b: 0u8, a: None::<u8> }),
    {
        Self::new(0, 255, 0, None)
    }

    pub fn blue() -> (c: Self)
        ensures
            c == (Rgba { r: 0u8, g: 0u8, b: 255u8, a: None::<u8> }),
    {
        Self::new(0, 0, 255, None)
    }
}

/// Canvas dimensions, reported by the server.
#[derive(Debug, Clone, Copy, Eq, PartialEq, Structural)]
pub struct Size {
    pub x: u32,
    pub y: u32,
}

/// An outgoing protocol command.
#[derive(Debug, Clone, Copy)]
pub enum Msg {
    /// Set the pixel at a position to a color; elicits no reply.
    SetPx(Pos, Rgba),
    /// Query the pixel at a position; elicits one reply line.
    GetPx(Pos),
    /// Query the canvas dimensions; elicits one reply line.
    GetSize,
    /// Request the server's help text; elicits one reply line.
    Help,
}

impl Msg {
    /// Whether this command elicits exactly one reply line from the server.
    pub open spec fn spec_expect_response(self) -> bool {
        match self {
            Msg::SetPx(_, _) => false,
            Msg::GetPx(_) | Msg::GetSize | Msg::Help => true,
        }
    }

    pub fn expect_response(&self) -> (r: bool)
        ensures
            r == self.spec_expect_response(),
    {
        match self {
            Msg::SetPx(_, _) => false,
            Msg::GetPx(_) | Msg::GetSize | Msg::Help => true,
        }
    }
}

/// A decoded server reply line.
#[derive(Debug, Clone)]
pub enum Response {
    /// The color of a queried pixel.
    Px(Pos, Rgba),
    /// The canvas dimensions.
    Size(Size),
    /// Any line that matches no recognized reply grammar, preserved verbatim.
    Help(String),
}

/// Everything that can go wrong in the client, including the I/O failures
/// that the owner of the connection reports through this same type.
#[derive(Debug, Clone, Copy, Eq, PartialEq, Structural)]
pub enum Error {
    /// Connection setup failed.
    ConnectFailure,
    /// An I/O error occurred while writing or flushing.
    SendFailure,
    /// An I/O error occurred while reading.
    ReceiveFailure,
    /// A token stream ended before the required tokens, or the connection
    /// closed before an expected reply.
    MissingData,
    /// A token that had to be a decimal number was not one.
    ParseFailure,
    /// A character inside a color field was not a hexadecimal digit.
    HexParseFailure,
    /// A reply was requested for a command that never produces one.
    NoResponseExpected,
}

// ---------------------------------------------------------------------------
// The transport engine
// ---------------------------------------------------------------------------

/// Concatenated wire form of a sequence of commands, in order.
pub open spec fn msgs_bytes(ms: Seq<Msg>) -> Seq<u8>
    decreases ms.len(),
{
    if ms.len() == 0 {
        Seq::empty()
    } else {
        msgs_bytes(ms.drop_last()) + ms.last().spec_bytes()
    }
}

/// How many commands of a sequence elicit a reply line.
pub open spec fn spec_response_count(ms: Seq<Msg>) -> int
    decreases ms.len(),
{
    if ms.len() == 0 {
        0
    } else {
        spec_response_count(ms.drop_last()) + (if ms.last().spec_expect_response() {
            1int
        } else {
            0int
        })
    }
}

/// Append the wire form of every command of the batch, in order, to `buf`.
pub fn encode_msgs(msgs: &[Msg], buf: &mut Vec<u8>)
    ensures
        final(buf)@ == old(buf)@ + msgs_bytes(msgs@),
{
    let mut i: usize = 0;
    while i < msgs.len()
        invariant
            i <= msgs@.len(),
            buf@ == old(buf)@ + msgs_bytes(msgs@.subrange(0, i as int)),
        decreases msgs@.len() - i,
    {
        msgs[i].encode(buf);
        proof {
            assert(msgs@.subrange(0, i + 1 as int).drop_last() =~= msgs@.subrange(0, i as int));
            assert(buf@ =~= old(buf)@ + msgs_bytes(msgs@.subrange(0, i + 1 as int)));
        }
        i = i + 1;
    }
    proof {
        assert(msgs@.subrange(0, msgs@.len() as int) =~= msgs@);
    }
}

/// How many commands of the batch will each be answered by one reply line.
pub fn response_count(msgs: &[Msg]) -> (n: usize)
    ensures
        n == spec_response_count(msgs@),
{
    let mut n: usize = 0;
    let mut i: usize = 0;
    while i < msgs.len()
        invariant
            i <= msgs@.len(),
            n <= i,
            n == spec_response_count(msgs@.subrange(0, i as int)),
        decreases msgs@.len() - i,
    {
        if msgs[i].expect_response() {
            n = n + 1;
        }
        proof {
            assert(msgs@.subrange(0, i + 1 as int).drop_last() =~= msgs@.subrange(0, i as int));
        }
        i = i + 1;
    }
    proof {
        assert(msgs@.subrange(0, msgs@.len() as int) =~= msgs@);
    }
    n
}

/// The outbound half of the transport: commands are encoded into an
/// in-memory buffer under the engine's control, and the owner of the real
/// connection drains that buffer to flush, reads reply lines, and hands
/// them back for decoding. The engine never touches the network itself.
pub struct Client {
    out: Vec<u8>,
}

impl Client {
    /// The bytes buffered for sending and not yet handed to the connection.
    pub closed spec fn buffered(self) -> Seq<u8> {
        self.out@
    }

    /// A client with an empty outbound buffer.
    pub fn new() -> (c: Client)
        ensures
            c.buffered() == Seq::<u8>::empty(),
    {
        Client { out: Vec::new() }
    }

    /// Encode one command and append it to the outbound buffer, without
    /// flushing.
    pub fn send_buffered(&mut self, msg: Msg)
        ensures
            final(self).buffered() == old(self).buffered() + msg.spec_bytes(),
    {
        msg.encode(&mut self.out);
    }

    /// Buffer every command of the batch in order, without flushing, and
    /// report how many reply lines the batch is owed once flushed: one per
    /// response-expecting command.
    pub fn send_all_buffered(&mut self, msgs: &[Msg]) -> (n: usize)
        ensures
            final(self).buffered() == old(self).buffered() + msgs_bytes(msgs@),
            n == spec_response_count(msgs@),
    {
        let mut i: usize = 0;
        while i < msgs.len()
            invariant
                i <= msgs@.len(),
                self.buffered() == old(self).buffered() + msgs_bytes(msgs@.subrange(0, i as int)),
            decreases msgs@.len() - i,
        {
            self.send_buffered(msgs[i]);
            proof {
                assert(msgs@.subrange(0, i + 1 as int).drop_last() =~= msgs@.subrange(
                    0,
                    i as int,
                ));
                assert(self.buffered() =~= old(self).buffered() + msgs_bytes(
                    msgs@.subrange(0, i + 1 as int),
                ));
            }
            i = i + 1;
        }
        proof {
            assert(msgs@.subrange(0, msgs@.len() as int) =~= msgs@);
        }
        response_count(msgs)
    }

    /// The request half of a send-and-receive exchange: a command that
    /// expects no reply is refused outright, before any byte is produced,
    /// so neither the buffer nor the connection sees anything of it.
    pub fn send_recv_buffered(&mut self, msg: Msg) -> (r: Result<(), Error>)
        ensures
            msg.spec_expect_response() ==> r is Ok && final(self).buffered() == old(
                self,
            ).buffered() + msg.spec_bytes(),
            !msg.spec_expect_response() ==> r == Err::<(), Error>(Error::NoResponseExpected)
                && final(self).buffered() == old(self).buffered(),
    {
        if !msg.expect_response() {
            return Err(Error::NoResponseExpected);
        }
        self.send_buffered(msg);
        Ok(())
    }

    /// Hand over everything buffered, leaving the buffer empty: the caller
    /// completes the flush by writing the returned bytes to the connection.
    pub fn take_buffered(&mut self) -> (b: Vec<u8>)
        ensures
            b@ == old(self).buffered(),
            final(self).buffered() == Seq::<u8>::empty(),
    {
        let mut b: Vec<u8> = Vec::new();
        core::mem::swap(&mut b, &mut self.out);
        b
    }
}

/// FIFO reply correlation for a flushed batch: the batch is owed one reply
/// line per response-expecting command, in the order those commands stand
/// in the batch, so the `i`-th decoded reply answers the `i`-th
/// response-expecting command. A reply line missing from `lines` surfaces
/// as `MissingData`; the first line that fails to decode fails the batch
/// with its error.
pub fn correlate_replies(msgs: &[Msg], lines: &[String]) -> (r: Result<Vec<Response>, Error>)
    ensures
        ({
            let n = spec_response_count(msgs@);
            match r {
                Ok(resps) => {
                    &&& lines@.len() >= n
                    &&& resps@.len() == n
                    &&& forall|i: int| 0 <= i < n ==> spec_line_err(#[trigger] lines@[i]@) is None
                    &&& forall|i: int|
                        0 <= i < n ==> decode_matches(lines@[i]@, #[trigger] resps@[i])
                },
                Err(e) => exists|i: int|
                    0 <= i < n && (forall|j: int|
                        0 <= j < i ==> j < lines@.len() && spec_line_err(
                            #[trigger] lines@[j]@,
                        ) is None) && ((i >= lines@.len() && e == Error::MissingData) || (i
                        < lines@.len() && spec_line_err(lines@[i]@) == Some(e))),
            }
        }),
{
    let n = response_count(msgs);
    let mut resps: Vec<Response> = Vec::new();
    let mut i: usize = 0;
    while i < n
        invariant
            i <= n,
            n == spec_response_count(msgs@),
            i <= lines@.len(),
            resps@.len() == i,
            forall|q: int| 0 <= q < i ==> spec_line_err(#[trigger] lines@[q]@) is None,
            forall|q: int| 0 <= q < i ==> decode_matches(lines@[q]@, #[trigger] resps@[q]),
        decreases n - i,
    {
        if i >= lines.len() {
            proof {
                let w = i as int;
                assert(0 <= w < spec_response_count(msgs@) && (forall|j: int|
                    0 <= j < w ==> j < lines@.len() && spec_line_err(
                        #[trigger] lines@[j]@,
                    ) is None) && ((w >= lines@.len() && Error::MissingData
                    == Error::MissingData) || (w < lines@.len() && spec_line_err(lines@[w]@)
                    == Some(Error::MissingData))));
            }
            return Err(Error::MissingData);
        }
        let line = &lines[i];
        match Response::decode(line.as_str()) {
            Ok(resp) => {
                resps.push(resp);
            },
            Err(e) => {
                proof {
                    let w = i as int;
                    assert(0 <= w < spec_response_count(msgs@) && (forall|j: int|
                        0 <= j < w ==> j < lines@.len() && spec_line_err(
                            #[trigger] lines@[j]@,
                        ) is None) && ((w >= lines@.len() && e == Error::MissingData) || (w
                        < lines@.len() && spec_line_err(lines@[w]@) == Some(e))));
                }
                return Err(e);
            },
        }
        i = i + 1;
    }
    Ok(resps)
}

} // verus!
